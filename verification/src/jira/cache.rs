//! The on-disk sprint cache: a JSON document with the sprint's name, goal
//! and backlog items.

use vstd::prelude::*;
use vstd::string::*;
use crate::jira::sprint::{JsonNumber, Pbi, PbiView, pbis_view};
use crate::json_doc::{
    JsonData, insert_field, normalized, json_from_bool, json_from_number, json_from_str, json_insert,
    json_new_array, json_new_object, json_null, json_push, json_stringify_pretty, data_as_bool, data_as_number, data_as_str, data_get, members, json_as_bool,
    json_as_number, json_as_str, json_at, json_get, json_is_array, json_len, json_parse,
};

verus! {

/// The string in `d`, or `default` when `d` holds no string.
pub open spec fn str_or(d: JsonData, default: Seq<char>) -> Seq<char> {
    match data_as_str(d) {
        Some(s) => s,
        None => default,
    }
}

/// The strings among `items`, in order; other elements are skipped.
pub open spec fn strings_in(items: Seq<JsonData>) -> Seq<Seq<char>>
    decreases items.len(),
{
    if items.len() == 0 {
        Seq::empty()
    } else {
        match data_as_str(items.last()) {
            Some(s) => strings_in(items.drop_last()).push(s),
            None => strings_in(items.drop_last()),
        }
    }
}

/// The item that a cache entry describes.
pub open spec fn pbi_from_data(item: JsonData) -> PbiView {
    PbiView {
        key: str_or(data_get(item, "key"@), ""@),
        summary: str_or(data_get(item, "summary"@), ""@),
        status: str_or(data_get(item, "status"@), ""@),
        assignee: str_or(data_get(item, "assignee"@), "Unassigned"@),
        issue_type: str_or(data_get(item, "issue_type"@), ""@),
        description: data_as_str(data_get(item, "description"@)),
        priority: data_as_str(data_get(item, "priority"@)),
        story_points: data_as_number(data_get(item, "story_points"@)),
        labels: strings_in(members(data_get(item, "labels"@))),
        loaded: match data_as_bool(data_get(item, "loaded"@)) {
            Some(b) => b,
            None => false,
        },
    }
}

/// Name, goal and items of a cache document; `None` when it names no sprint.
pub open spec fn cache_from_data(d: JsonData) -> Option<(Seq<char>, Seq<char>, Seq<PbiView>)> {
    match data_as_str(data_get(d, "sprint_name"@)) {
        Some(name) => Some(
            (
                name,
                str_or(data_get(d, "sprint_goal"@), ""@),
                members(data_get(d, "pbis"@)).map_values(|item: JsonData| pbi_from_data(item)),
            ),
        ),
        None => None,
    }
}

/// The mathematical content of loaded sprint data.
pub open spec fn sprint_data_view(r: Option<(String, String, Vec<Pbi>)>) -> Option<
    (Seq<char>, Seq<char>, Seq<PbiView>),
> {
    match r {
        Some((name, goal, pbis)) => Some((name@, goal@, pbis_view(pbis@))),
        None => None,
    }
}

/// The string in `v`, or `default`.
pub(crate) fn string_or(v: &json::JsonValue, default: &str) -> (r: String)
    ensures
        r@ == str_or(crate::json_doc::json_data(*v), default@),
{
    match json_as_str(v) {
        Some(s) => String::from_str(s),
        None => String::from_str(default),
    }
}

/// The string in `v`, if it holds one.
pub(crate) fn string_opt(v: &json::JsonValue) -> (r: Option<String>)
    ensures
        crate::jira::sprint::opt_string_view(r) == data_as_str(crate::json_doc::json_data(*v)),
{
    match json_as_str(v) {
        Some(s) => Some(String::from_str(s)),
        None => None,
    }
}

/// The strings among the members of `v` (`members().filter_map(as_str)`).
pub(crate) fn member_strings(v: &json::JsonValue) -> (r: Vec<String>)
    ensures
        crate::jira::sprint::strings_view(r@) == strings_in(members(crate::json_doc::json_data(*v))),
{
    let ghost d = crate::json_doc::json_data(*v);
    let mut r: Vec<String> = Vec::new();
    if !json_is_array(v) {
        assert(crate::jira::sprint::strings_view(r@) =~= Seq::<Seq<char>>::empty());
        return r;
    }
    let n = json_len(v);
    let ghost items = members(d);
    let mut i: usize = 0;
    while i < n
        invariant
            d == crate::json_doc::json_data(*v),
            d is Array,
            items == members(d),
            n == items.len(),
            i <= n,
            crate::jira::sprint::strings_view(r@) == strings_in(items.subrange(0, i as int)),
        decreases n - i,
    {
        let item = json_at(v, i);
        assert(items.subrange(0, i + 1).drop_last() =~= items.subrange(0, i as int));
        assert(items.subrange(0, i + 1).last() == items[i as int]);
        match json_as_str(item) {
            Some(s) => {
                r.push(String::from_str(s));
                assert(crate::jira::sprint::strings_view(r@) =~= strings_in(
                    items.subrange(0, i as int),
                ).push(s@));
            },
            None => {},
        }
        i = i + 1;
    }
    assert(items.subrange(0, n as int) =~= items);
    r
}

/// The item that a cache entry describes.
pub fn pbi_from_cache_entry(item: &json::JsonValue) -> (r: Pbi)
    ensures
        r@ == pbi_from_data(crate::json_doc::json_data(*item)),
{
    let loaded = match json_as_bool(json_get(item, "loaded")) {
        Some(b) => b,
        None => false,
    };
    Pbi {
        key: string_or(json_get(item, "key"), ""),
        summary: string_or(json_get(item, "summary"), ""),
        status: string_or(json_get(item, "status"), ""),
        assignee: string_or(json_get(item, "assignee"), "Unassigned"),
        issue_type: string_or(json_get(item, "issue_type"), ""),
        description: string_opt(json_get(item, "description")),
        priority: string_opt(json_get(item, "priority")),
        story_points: json_as_number(json_get(item, "story_points")),
        labels: member_strings(json_get(item, "labels")),
        loaded,
    }
}

/// Sprint name, goal and items from a parsed cache document. Returns `None`
/// when the document holds no sprint name.
pub fn sprint_cache_from_json(data: &json::JsonValue) -> (r: Option<(String, String, Vec<Pbi>)>)
    ensures
        sprint_data_view(r) == cache_from_data(crate::json_doc::json_data(*data)),
{
    let ghost d = crate::json_doc::json_data(*data);
    let sprint_name = match json_as_str(json_get(data, "sprint_name")) {
        Some(s) => String::from_str(s),
        None => return None,
    };
    let sprint_goal = string_or(json_get(data, "sprint_goal"), "");
    let list = json_get(data, "pbis");
    let ghost items = members(crate::json_doc::json_data(*list));
    let mut pbis: Vec<Pbi> = Vec::new();
    if json_is_array(list) {
        let n = json_len(list);
        let mut i: usize = 0;
        while i < n
            invariant
                crate::json_doc::json_data(*list) is Array,
                items == members(crate::json_doc::json_data(*list)),
                n == items.len(),
                i <= n,
                pbis_view(pbis@) == items.subrange(0, i as int).map_values(
                    |item: JsonData| pbi_from_data(item),
                ),
            decreases n - i,
        {
            let entry = json_at(list, i);
            assert(crate::json_doc::json_data(*entry) == items[i as int]);
            let p = pbi_from_cache_entry(entry);
            let ghost before = pbis_view(pbis@);
            pbis.push(p);
            assert(pbis_view(pbis@) =~= before.push(p@));
            i = i + 1;
            assert(pbis_view(pbis@) =~= items.subrange(0, i as int).map_values(
                |item: JsonData| pbi_from_data(item),
            ));
        }
        assert(items.subrange(0, n as int) =~= items);
    }
    assert(pbis_view(pbis@) =~= items.map_values(|item: JsonData| pbi_from_data(item)));
    Some((sprint_name, sprint_goal, pbis))
}

/// Sprint data from the text of a cache file. Returns `None` if the text is
/// not JSON or names no sprint.
pub fn parse_sprint_cache(contents: &str) -> (r: Option<(String, String, Vec<Pbi>)>)
    ensures
        sprint_data_view(r) == match crate::json_doc::parsed_json(contents@) {
            Some(d) => cache_from_data(d),
            None => None,
        },
{
    match json_parse(contents) {
        Some(data) => sprint_cache_from_json(&data),
        None => None,
    }
}

/// The JSON form of an optional string: the string, or `null`.
pub open spec fn opt_str_data(o: Option<Seq<char>>) -> JsonData {
    match o {
        Some(s) => JsonData::Str(s),
        None => JsonData::Null,
    }
}

/// The JSON form of optional story points: the number, or `null`.
pub open spec fn opt_number_data(o: Option<JsonNumber>) -> JsonData {
    match o {
        Some(n) => JsonData::Number(normalized(n)),
        None => JsonData::Null,
    }
}

/// The cache entry of an item, entries in the order in which they are written.
pub open spec fn pbi_data(p: PbiView) -> JsonData {
    JsonData::Object(
        seq![
            ("key"@, JsonData::Str(p.key)),
            ("summary"@, JsonData::Str(p.summary)),
            ("status"@, JsonData::Str(p.status)),
            ("assignee"@, JsonData::Str(p.assignee)),
            ("issue_type"@, JsonData::Str(p.issue_type)),
            ("loaded"@, JsonData::Bool(p.loaded)),
            ("labels"@, JsonData::Array(p.labels.map_values(|l: Seq<char>| JsonData::Str(l)))),
            ("description"@, opt_str_data(p.description)),
            ("priority"@, opt_str_data(p.priority)),
            ("story_points"@, opt_number_data(p.story_points)),
        ],
    )
}

/// The cache document of a sprint.
pub open spec fn cache_data(name: Seq<char>, goal: Seq<char>, pbis: Seq<PbiView>) -> JsonData {
    JsonData::Object(
        seq![
            ("sprint_name"@, JsonData::Str(name)),
            ("sprint_goal"@, JsonData::Str(goal)),
            ("pbis"@, JsonData::Array(pbis.map_values(|p: PbiView| pbi_data(p)))),
        ],
    )
}

/// Inserting a key that no entry has appends an entry.
pub proof fn lemma_insert_new_key(fields: Seq<(Seq<char>, JsonData)>, key: Seq<char>, value: JsonData)
    requires
        forall|i: int| 0 <= i < fields.len() ==> (#[trigger] fields[i]).0 != key,
    ensures
        insert_field(fields, key, value) == fields.push((key, value)),
    decreases fields.len(),
{
    if fields.len() > 0 {
        assert(fields[0].0 != key);
        let rest = fields.drop_first();
        assert forall|i: int| 0 <= i < rest.len() implies (#[trigger] rest[i]).0 != key by {
            assert(rest[i] == fields[i + 1]);
        }
        lemma_insert_new_key(rest, key, value);
        assert(seq![fields[0]] + rest.push((key, value)) =~= fields.push((key, value)));
    } else {
        assert(seq![(key, value)] =~= fields.push((key, value)));
    }
}

/// Sets `key` of `obj`, a JSON object that has no entry for it yet.
fn insert_new(obj: &mut json::JsonValue, key: &str, item: json::JsonValue)
    requires
        crate::json_doc::json_data(*old(obj)) is Object,
        forall|i: int|
            0 <= i < crate::json_doc::json_data(*old(obj))->Object_0.len() ==> (
            #[trigger] crate::json_doc::json_data(*old(obj))->Object_0[i]).0 != key@,
    ensures
        crate::json_doc::json_data(*final(obj)) == JsonData::Object(
            crate::json_doc::json_data(*old(obj))->Object_0.push((key@, crate::json_doc::json_data(item))),
        ),
{
    proof {
        lemma_insert_new_key(
            crate::json_doc::json_data(*obj)->Object_0,
            key@,
            crate::json_doc::json_data(item),
        );
    }
    json_insert(obj, key, item);
}

/// The keys of a cache entry differ from each other: by length, or else by
/// the character named here.
pub proof fn lemma_entry_keys_distinct()
    ensures
        "key"@.len() == 3,
        "summary"@.len() == 7,
        "status"@.len() == 6,
        "assignee"@.len() == 8,
        "issue_type"@.len() == 10,
        "loaded"@.len() == 6,
        "labels"@.len() == 6,
        "description"@.len() == 11,
        "priority"@.len() == 8,
        "story_points"@.len() == 12,
        "status"@[1] != "loaded"@[1],
        "status"@[1] != "labels"@[1],
        "loaded"@[1] != "labels"@[1],
        "assignee"@[0] != "priority"@[0],
{
    reveal_strlit("key");
    reveal_strlit("summary");
    reveal_strlit("status");
    reveal_strlit("assignee");
    reveal_strlit("issue_type");
    reveal_strlit("loaded");
    reveal_strlit("labels");
    reveal_strlit("description");
    reveal_strlit("priority");
    reveal_strlit("story_points");
}

/// The cache entry of one item.
pub fn pbi_cache_entry(pbi: &Pbi) -> (r: json::JsonValue)
    ensures
        crate::json_doc::json_data(r) == pbi_data(pbi@),
{
    let mut labels = json_new_array();
    let n = pbi.labels.len();
    let mut i: usize = 0;
    assert(pbi.labels@.subrange(0, 0).map_values(|l: String| JsonData::Str(l@)) =~= Seq::empty());
    while i < n
        invariant
            n == pbi.labels@.len(),
            i <= n,
            crate::json_doc::json_data(labels) == JsonData::Array(
                pbi.labels@.subrange(0, i as int).map_values(|l: String| JsonData::Str(l@)),
            ),
        decreases n - i,
    {
        json_push(&mut labels, json_from_str(pbi.labels[i].as_str()));
        i = i + 1;
        assert(pbi.labels@.subrange(0, i as int).map_values(|l: String| JsonData::Str(l@))
            =~= pbi.labels@.subrange(0, i - 1).map_values(|l: String| JsonData::Str(l@)).push(
            JsonData::Str(pbi.labels@[i - 1]@),
        ));
    }
    assert(pbi.labels@.subrange(0, n as int) =~= pbi.labels@);
    assert(pbi.labels@.map_values(|l: String| JsonData::Str(l@)) =~= pbi@.labels.map_values(
        |l: Seq<char>| JsonData::Str(l),
    ));
    let mut obj = json_new_object();
    proof {
        lemma_entry_keys_distinct();
    }
    insert_new(&mut obj, "key", json_from_str(pbi.key.as_str()));
    insert_new(&mut obj, "summary", json_from_str(pbi.summary.as_str()));
    insert_new(&mut obj, "status", json_from_str(pbi.status.as_str()));
    insert_new(&mut obj, "assignee", json_from_str(pbi.assignee.as_str()));
    insert_new(&mut obj, "issue_type", json_from_str(pbi.issue_type.as_str()));
    insert_new(&mut obj, "loaded", json_from_bool(pbi.loaded));
    insert_new(&mut obj, "labels", labels);
    let description = match &pbi.description {
        Some(d) => json_from_str(d.as_str()),
        None => json_null(),
    };
    assert(crate::json_doc::json_data(description) == opt_str_data(pbi@.description));
    insert_new(&mut obj, "description", description);
    let priority = match &pbi.priority {
        Some(p) => json_from_str(p.as_str()),
        None => json_null(),
    };
    assert(crate::json_doc::json_data(priority) == opt_str_data(pbi@.priority));
    insert_new(&mut obj, "priority", priority);
    let story_points = match pbi.story_points {
        Some(sp) => json_from_number(sp),
        None => json_null(),
    };
    assert(crate::json_doc::json_data(story_points) == opt_number_data(pbi@.story_points));
    insert_new(&mut obj, "story_points", story_points);
    assert(crate::json_doc::json_data(obj)->Object_0 =~= pbi_data(pbi@)->Object_0);
    obj
}

/// The cache document of a sprint.
pub fn sprint_cache_json(sprint_name: &str, sprint_goal: &str, pbis: &[Pbi]) -> (r: json::JsonValue)
    ensures
        crate::json_doc::json_data(r) == cache_data(sprint_name@, sprint_goal@, pbis_view(pbis@)),
{
    proof {
        reveal_strlit("sprint_name");
        reveal_strlit("sprint_goal");
        reveal_strlit("pbis");
        assert("sprint_name"@[7] != "sprint_goal"@[7]);
        assert("sprint_name"@.len() == 11 && "sprint_goal"@.len() == 11 && "pbis"@.len() == 4);
    }
    let mut list = json_new_array();
    let n = pbis.len();
    let ghost entries = pbis_view(pbis@).map_values(|p: PbiView| pbi_data(p));
    let mut i: usize = 0;
    assert(entries.subrange(0, 0) =~= Seq::empty());
    while i < n
        invariant
            n == pbis@.len(),
            entries == pbis_view(pbis@).map_values(|p: PbiView| pbi_data(p)),
            i <= n,
            crate::json_doc::json_data(list) == JsonData::Array(entries.subrange(0, i as int)),
        decreases n - i,
    {
        json_push(&mut list, pbi_cache_entry(&pbis[i]));
        i = i + 1;
        assert(entries.subrange(0, i as int) =~= entries.subrange(0, i - 1).push(entries[i - 1]));
    }
    assert(entries.subrange(0, n as int) =~= entries);
    let mut data = json_new_object();
    insert_new(&mut data, "sprint_name", json_from_str(sprint_name));
    insert_new(&mut data, "sprint_goal", json_from_str(sprint_goal));
    insert_new(&mut data, "pbis", list);
    assert(crate::json_doc::json_data(data)->Object_0 =~= cache_data(
        sprint_name@,
        sprint_goal@,
        pbis_view(pbis@),
    )->Object_0);
    data
}

/// The text of the cache file of a sprint: its cache document, indented by
/// two spaces.
pub fn sprint_cache_text(sprint_name: &str, sprint_goal: &str, pbis: &[Pbi]) -> (r: String)
    ensures
        r@ == crate::json_doc::pretty_json_text(
            cache_data(sprint_name@, sprint_goal@, pbis_view(pbis@)),
            2,
        ),
{
    json_stringify_pretty(sprint_cache_json(sprint_name, sprint_goal, pbis), 2)
}

/// What `std::path::Path::parent` gives for a path, as text: the path
/// without its final component; `None` for the empty path and for a path
/// that ends in a root.
pub uninterp spec fn path_parent_of(path: Seq<char>) -> Option<Seq<char>>;

/// `std::path::Path::parent` of a path given as text.
#[verifier::external_body]
fn path_parent(path: &str) -> (r: Option<String>)
    ensures
        crate::jira::sprint::opt_string_view(r) == path_parent_of(path@),
        path@.len() == 0 ==> r is None,
{
    std::path::Path::new(path).parent().map(|p| p.to_string_lossy().into_owned())
}

/// The name of the cache file of a board.
pub open spec fn cache_file_name(board_id: Seq<char>) -> Seq<char> {
    "sprint_cache_"@ + board_id + ".json"@
}

/// What `std::path::Path::join` gives for a directory and a relative path,
/// as text: the two joined by the platform's separator where one is needed.
pub uninterp spec fn path_joined(dir: Seq<char>, name: Seq<char>) -> Seq<char>;

/// Whether `s` ends with `t`.
pub open spec fn ends_with(s: Seq<char>, t: Seq<char>) -> bool {
    t.len() <= s.len() && s.subrange(s.len() - t.len(), s.len() as int) == t
}

/// A single path component on every platform: longer than two characters
/// (so neither `.` nor `..`), and without `/`, `\` or `:` (so neither a separator, a root nor a drive
/// prefix).
pub open spec fn is_plain_name(name: Seq<char>) -> bool {
    &&& name.len() > 2
    &&& forall|i: int| 0 <= i < name.len() ==> name[i] != '/' && name[i] != '\\' && name[i] != ':'
}

/// `std::path::Path::join` of two paths given as text. Its result is named
/// (`path_joined`); of it the contract says only what `PathBuf::push`
/// documents for a relative path, that it extends the directory: a plain
/// name ends the result. What comes before the name is left unsaid.
#[verifier::external_body]
fn path_join(dir: &str, name: &str) -> (r: String)
    ensures
        r@ == path_joined(dir@, name@),
        is_plain_name(name@) ==> ends_with(r@, name@),
{
    std::path::Path::new(dir).join(name).to_string_lossy().into_owned()
}

/// Where the cache of a board lives: beside the configuration file whose
/// directory is `config_dir` (none: the working directory).
pub open spec fn cache_path_of(config_dir: Option<Seq<char>>, board_id: Seq<char>) -> Seq<char> {
    path_joined(
        match config_dir {
            Some(d) => d,
            None => Seq::empty(),
        },
        cache_file_name(board_id),
    )
}

/// A board id that keeps the cache file's name a single path component: it
/// holds no `/`, `\` or `:`.
pub open spec fn is_plain_board_id(board_id: Seq<char>) -> bool {
    forall|i: int|
        0 <= i < board_id.len() ==> board_id[i] != '/' && board_id[i] != '\\' && board_id[i] != ':'
}

proof fn lemma_plain_file_name(board_id: Seq<char>)
    requires
        is_plain_board_id(board_id),
    ensures
        is_plain_name(cache_file_name(board_id)),
{
    reveal_strlit("sprint_cache_");
    reveal_strlit(".json");
    let n = cache_file_name(board_id);
    assert forall|i: int| 0 <= i < n.len() implies n[i] != '/' && n[i] != '\\' && n[i] != ':' by {
        if i < 13 {
            assert(n[i] == "sprint_cache_"@[i]);
        } else if i < 13 + board_id.len() {
            assert(n[i] == board_id[i - 13]);
        } else {
            assert(n[i] == ".json"@[i - 13 - board_id.len()]);
        }
    }
}

/// The cache path of a board given the directory of the configuration file.
pub fn cache_path_in(config_dir: Option<&str>, board_id: &str) -> (r: String)
    ensures
        r@ == cache_path_of(
            match config_dir {
                Some(d) => Some(d@),
                None => None,
            },
            board_id@,
        ),
        is_plain_board_id(board_id@) ==> ends_with(r@, cache_file_name(board_id@)),
{
    let mut name = String::from_str("sprint_cache_");
    name.append(board_id);
    name.append(".json");
    let dir = match config_dir {
        Some(d) => d,
        None => "",
    };
    proof {
        reveal_strlit("");
        assert(""@ =~= Seq::<char>::empty());
    }
    assert(name@ =~= cache_file_name(board_id@));
    proof {
        if is_plain_board_id(board_id@) {
            lemma_plain_file_name(board_id@);
        }
    }
    path_join(dir, name.as_str())
}

/// Path of the cache file of a board: `sprint_cache_<board>.json` in the
/// directory of the configuration file `config_file`.
pub fn cache_path(config_file: &str, board_id: &str) -> (r: String)
    ensures
        r@ == cache_path_of(path_parent_of(config_file@), board_id@),
        is_plain_board_id(board_id@) ==> ends_with(r@, cache_file_name(board_id@)),
{
    let parent = path_parent(config_file);
    match parent {
        Some(d) => cache_path_in(Some(d.as_str()), board_id),
        None => cache_path_in(None, board_id),
    }
}

} // verus!
