//! Laws of the sprint data: the workflow sort and the sprint cache format.

use vstd::prelude::*;
use vstd::multiset::Multiset;
use vstd::string::*;
use crate::text::{ascii_lowercase, ascii_uppercase, lemma_ascii_case};
use crate::jira::sprint::{done_word, closed_word, resolved_word, blocked_word, review_word, progress_word, status_rank_of, PbiView, pbi_key, stage, sorted_by_status};
use crate::jira::cache::{cache_file_name, ends_with, lemma_entry_keys_distinct, cache_data, cache_from_data, pbi_data, pbi_from_data, strings_in};
use crate::json_doc::{JsonData, data_as_bool, data_as_str, data_as_u64, data_at, data_is_array, data_is_empty, data_get, field_value, members, normalized};
use crate::jira::fetch::{active_sprint_of, SprintError, description_of, details_applied, issue_pbi, sprint_pbis_of, story_points_of};
use crate::jira::adf::{adf_join, adf_text, child_nodes, lemma_child_smaller, own_text};
use crate::text::has_substring;

verus! {

broadcast use vstd::seq_lib::group_to_multiset_ensures;

/// Every status key is one of the five workflow stages.
pub proof fn lemma_key_in_range(p: PbiView)
    ensures
        pbi_key(p) <= 4,
{
}

/// Every item of stage `k` has sort key `k`.
pub proof fn lemma_stage_keys(s: Seq<PbiView>, k: u8)
    ensures
        forall|i: int| 0 <= i < stage(s, k).len() ==> pbi_key(#[trigger] stage(s, k)[i]) == k,
    decreases s.len(),
{
    if s.len() > 0 {
        let t = s.drop_last();
        lemma_stage_keys(t, k);
        if pbi_key(s.last()) == k {
            assert forall|i: int| 0 <= i < stage(s, k).len() implies pbi_key(
                #[trigger] stage(s, k)[i],
            ) == k by {
                if i < stage(t, k).len() {
                    assert(stage(s, k)[i] == stage(t, k)[i]);
                }
            }
        }
    }
}

proof fn lemma_stage_multisets(s: Seq<PbiView>)
    ensures
        stage(s, 0).to_multiset().add(stage(s, 1).to_multiset()).add(stage(s, 2).to_multiset()).add(
            stage(s, 3).to_multiset(),
        ).add(stage(s, 4).to_multiset()) =~= s.to_multiset(),
    decreases s.len(),
{
    broadcast use vstd::multiset::group_multiset_axioms;
    if s.len() > 0 {
        let t = s.drop_last();
        let x = s.last();
        lemma_stage_multisets(t);
        assert(s =~= t.push(x));
        lemma_key_in_range(x);
    } else {
        assert(s.to_multiset() =~= Multiset::empty());
    }
}

/// Sorting by status only reorders: the result holds the same items, each
/// as many times as before.
pub proof fn law_sort_is_permutation(s: Seq<PbiView>)
    ensures
        sorted_by_status(s).to_multiset() == s.to_multiset(),
{
    broadcast use vstd::seq_lib::lemma_multiset_commutative;
    lemma_stage_multisets(s);
    let a = stage(s, 0);
    let b = stage(s, 1);
    let c = stage(s, 2);
    let d = stage(s, 3);
    let e = stage(s, 4);
    assert(sorted_by_status(s) == a + b + c + d + e);
}

/// After sorting, the sort keys ascend.
pub proof fn law_sort_is_sorted(s: Seq<PbiView>)
    ensures
        forall|i: int, j: int|
            0 <= i <= j < sorted_by_status(s).len() ==> pbi_key(#[trigger] sorted_by_status(s)[i])
                <= pbi_key(#[trigger] sorted_by_status(s)[j]),
{
    lemma_stage_keys(s, 0);
    lemma_stage_keys(s, 1);
    lemma_stage_keys(s, 2);
    lemma_stage_keys(s, 3);
    lemma_stage_keys(s, 4);
    let r = sorted_by_status(s);
    let l0 = stage(s, 0).len();
    let l1 = l0 + stage(s, 1).len();
    let l2 = l1 + stage(s, 2).len();
    let l3 = l2 + stage(s, 3).len();
    assert forall|i: int| 0 <= i < r.len() implies pbi_key(#[trigger] r[i]) == (if i < l0 {
        0u8
    } else if i < l1 {
        1u8
    } else if i < l2 {
        2u8
    } else if i < l3 {
        3u8
    } else {
        4u8
    }) by {
        if i < l0 {
            assert(r[i] == stage(s, 0)[i]);
        } else if i < l1 {
            assert(r[i] == stage(s, 1)[i - l0]);
        } else if i < l2 {
            assert(r[i] == stage(s, 2)[i - l1]);
        } else if i < l3 {
            assert(r[i] == stage(s, 3)[i - l2]);
        } else {
            assert(r[i] == stage(s, 4)[i - l3]);
        }
    }
}

proof fn lemma_stage_concat(a: Seq<PbiView>, b: Seq<PbiView>, k: u8)
    ensures
        stage(a + b, k) == stage(a, k) + stage(b, k),
    decreases b.len(),
{
    if b.len() == 0 {
        assert(a + b =~= a);
        assert(stage(a, k) + stage(b, k) =~= stage(a, k));
    } else {
        lemma_stage_concat(a, b.drop_last(), k);
        assert((a + b).drop_last() =~= a + b.drop_last());
        assert((a + b).last() == b.last());
        assert(stage(a, k) + stage(b.drop_last(), k).push(b.last()) =~= (stage(a, k) + stage(
            b.drop_last(),
            k,
        )).push(b.last()));
    }
}

proof fn lemma_stage_of_stage(s: Seq<PbiView>, j: u8, k: u8)
    ensures
        stage(stage(s, j), k) == (if j == k { stage(s, k) } else { Seq::<PbiView>::empty() }),
    decreases s.len(),
{
    if s.len() > 0 {
        lemma_stage_of_stage(s.drop_last(), j, k);
        if pbi_key(s.last()) == j {
            assert(stage(s, j).drop_last() =~= stage(s.drop_last(), j));
        }
    }
}

/// The sort is stable: the items of each workflow stage come out in the
/// order they went in.
pub proof fn law_sort_is_stable(s: Seq<PbiView>, k: u8)
    ensures
        stage(sorted_by_status(s), k) == stage(s, k),
{
    let a = stage(s, 0);
    let b = stage(s, 1);
    let c = stage(s, 2);
    let d = stage(s, 3);
    let e = stage(s, 4);
    lemma_stage_concat(a + b + c + d, e, k);
    lemma_stage_concat(a + b + c, d, k);
    lemma_stage_concat(a + b, c, k);
    lemma_stage_concat(a, b, k);
    lemma_stage_of_stage(s, 0, k);
    lemma_stage_of_stage(s, 1, k);
    lemma_stage_of_stage(s, 2, k);
    lemma_stage_of_stage(s, 3, k);
    lemma_stage_of_stage(s, 4, k);
    if k > 4 {
        assert(stage(s, k) =~= Seq::<PbiView>::empty()) by {
            lemma_no_stage_above_four(s, k);
        }
    }
}

proof fn lemma_no_stage_above_four(s: Seq<PbiView>, k: u8)
    requires
        k > 4,
    ensures
        stage(s, k) == Seq::<PbiView>::empty(),
    decreases s.len(),
{
    if s.len() > 0 {
        lemma_no_stage_above_four(s.drop_last(), k);
        lemma_key_in_range(s.last());
    }
}

/// Sorting a sorted list changes nothing.
pub proof fn law_sort_idempotent(s: Seq<PbiView>)
    ensures
        sorted_by_status(sorted_by_status(s)) == sorted_by_status(s),
{
    law_sort_is_stable(s, 0);
    law_sort_is_stable(s, 1);
    law_sort_is_stable(s, 2);
    law_sort_is_stable(s, 3);
    law_sort_is_stable(s, 4);
}

/// An item as it comes back from the cache: story points in the normal form
/// that the `json` crate gives numbers it builds from parts.
pub open spec fn with_normalized_points(p: PbiView) -> PbiView {
    PbiView {
        key: p.key,
        summary: p.summary,
        status: p.status,
        assignee: p.assignee,
        issue_type: p.issue_type,
        description: p.description,
        priority: p.priority,
        story_points: match p.story_points {
            Some(n) => Some(normalized(n)),
            None => None,
        },
        labels: p.labels,
        loaded: p.loaded,
    }
}

/// The lookup finds the first entry with the key.
pub proof fn lemma_field_value_at(fields: Seq<(Seq<char>, JsonData)>, key: Seq<char>, i: int)
    requires
        0 <= i < fields.len(),
        fields[i].0 == key,
        forall|j: int| 0 <= j < i ==> (#[trigger] fields[j]).0 != key,
    ensures
        field_value(fields, key) == fields[i].1,
    decreases i,
{
    if i > 0 {
        let rest = fields.drop_first();
        assert(fields[0].0 != key);
        assert forall|j: int| 0 <= j < i - 1 implies (#[trigger] rest[j]).0 != key by {
            assert(rest[j] == fields[j + 1]);
        }
        lemma_field_value_at(rest, key, i - 1);
    }
}

proof fn lemma_strings_in_strs(labels: Seq<Seq<char>>)
    ensures
        strings_in(labels.map_values(|l: Seq<char>| JsonData::Str(l))) == labels,
    decreases labels.len(),
{
    if labels.len() > 0 {
        let t = labels.drop_last();
        lemma_strings_in_strs(t);
        assert(labels.map_values(|l: Seq<char>| JsonData::Str(l)).drop_last() =~= t.map_values(
            |l: Seq<char>| JsonData::Str(l),
        ));
        assert(labels =~= t.push(labels.last()));
    } else {
        assert(labels.map_values(|l: Seq<char>| JsonData::Str(l)) =~= Seq::<JsonData>::empty());
    }
}

/// In entries with distinct keys, each key finds its own entry.
pub proof fn lemma_lookup_distinct(fields: Seq<(Seq<char>, JsonData)>)
    requires
        forall|a: int, b: int| 0 <= a < b < fields.len() ==> fields[a].0 != fields[b].0,
    ensures
        forall|i: int| 0 <= i < fields.len() ==> field_value(fields, #[trigger] fields[i].0) == fields[i].1,
{
    assert forall|i: int| 0 <= i < fields.len() implies field_value(fields, #[trigger] fields[i].0)
        == fields[i].1 by {
        assert forall|j: int| 0 <= j < i implies (#[trigger] fields[j]).0 != fields[i].0 by {}
        lemma_field_value_at(fields, fields[i].0, i);
    }
}

/// The key of the entry at position `i` of a cache entry.
spec fn entry_key(i: int) -> Seq<char> {
    if i == 0 { "key"@ }
    else if i == 1 { "summary"@ }
    else if i == 2 { "status"@ }
    else if i == 3 { "assignee"@ }
    else if i == 4 { "issue_type"@ }
    else if i == 5 { "loaded"@ }
    else if i == 6 { "labels"@ }
    else if i == 7 { "description"@ }
    else if i == 8 { "priority"@ }
    else { "story_points"@ }
}

proof fn lemma_entry_round_trip(p: PbiView)
    ensures
        pbi_from_data(pbi_data(p)) == with_normalized_points(p),
{
    lemma_entry_keys_distinct();
    lemma_strings_in_strs(p.labels);
    let fields = pbi_data(p)->Object_0;
    assert forall|i: int| 0 <= i < 10 implies #[trigger] fields[i].0 == entry_key(i) by {
        if i == 0 {} else if i == 1 {} else if i == 2 {} else if i == 3 {} else if i == 4 {}
        else if i == 5 {} else if i == 6 {} else if i == 7 {} else if i == 8 {} else {}
    }
    assert forall|a: int, b: int| 0 <= a < b < 10 implies fields[a].0 != fields[b].0 by {
        assert(fields[a].0 == entry_key(a));
        assert(fields[b].0 == entry_key(b));
    }
    lemma_lookup_distinct(fields);
}

/// What the cache stores of a sprint, it gives back: decoding the document
/// written for a sprint yields its name, goal and items, story points in the
/// normal form of the `json` crate.
pub proof fn law_cache_round_trip(name: Seq<char>, goal: Seq<char>, pbis: Seq<PbiView>)
    ensures
        cache_from_data(cache_data(name, goal, pbis)) == Some(
            (name, goal, pbis.map_values(|p: PbiView| with_normalized_points(p))),
        ),
{
    reveal_strlit("sprint_name");
    reveal_strlit("sprint_goal");
    reveal_strlit("pbis");
    assert("sprint_name"@[7] != "sprint_goal"@[7]);
    assert("sprint_name"@.len() == 11 && "sprint_goal"@.len() == 11 && "pbis"@.len() == 4);
    let fields = cache_data(name, goal, pbis)->Object_0;
    assert forall|a: int, b: int| 0 <= a < b < 3 implies fields[a].0 != fields[b].0 by {
        if a == 0 {} else {}
    }
    lemma_lookup_distinct(fields);
    assert(field_value(fields, fields[0].0) == fields[0].1);
    assert(field_value(fields, fields[1].0) == fields[1].1);
    assert(field_value(fields, fields[2].0) == fields[2].1);
    let entries = pbis.map_values(|p: PbiView| pbi_data(p));
    assert forall|i: int| 0 <= i < pbis.len() implies #[trigger] pbi_from_data(entries[i])
        == with_normalized_points(pbis[i]) by {
        lemma_entry_round_trip(pbis[i]);
    }
    assert(entries.map_values(|item: JsonData| pbi_from_data(item)) =~= pbis.map_values(
        |p: PbiView| with_normalized_points(p),
    ));
}

/// The items fetched for a sprint come in workflow order.
pub proof fn law_fetched_items_sorted(d: JsonData)
    ensures
        forall|i: int, j: int|
            0 <= i <= j < sprint_pbis_of(d).len() ==> pbi_key(#[trigger] sprint_pbis_of(d)[i])
                <= pbi_key(#[trigger] sprint_pbis_of(d)[j]),
{
    law_sort_is_sorted(crate::json_doc::members(crate::json_doc::data_get(d, "issues"@)).map_values(
        |i: JsonData| crate::jira::fetch::issue_pbi(i),
    ));
}

/// Loading an item's details twice from the same response gives what
/// loading them once gives; the item's key, summary and type never change.
pub proof fn law_details_idempotent(p: PbiView, d: JsonData)
    ensures
        details_applied(details_applied(p, d), d) == details_applied(p, d),
        details_applied(p, d).key == p.key,
        details_applied(p, d).summary == p.summary,
        details_applied(p, d).issue_type == p.issue_type,
        details_applied(p, d).loaded,
{
}

/// The status key of ASCII text does not depend on its case: by the
/// contract of `status_sort_key`, the key of an ASCII status is the rank of
/// its ASCII lowercase, and a status, its ASCII uppercase and its ASCII
/// lowercase are all ASCII with the same ASCII lowercase, so all three get
/// the same key, one of the five stages.
pub proof fn law_status_key_ascii_case(s: Seq<char>)
    requires
        vstd::utf8::is_ascii_chars(s),
    ensures
        vstd::utf8::is_ascii_chars(ascii_uppercase(s)),
        vstd::utf8::is_ascii_chars(ascii_lowercase(s)),
        status_rank_of(ascii_lowercase(ascii_uppercase(s))) == status_rank_of(ascii_lowercase(s)),
        status_rank_of(ascii_lowercase(ascii_lowercase(s))) == status_rank_of(ascii_lowercase(s)),
        status_rank_of(ascii_lowercase(s)) <= 4,
{
    lemma_ascii_case(s);
}

/// Sorting keeps the number of items.
pub proof fn lemma_sorted_len(s: Seq<PbiView>)
    ensures
        sorted_by_status(s).len() == s.len(),
{
    law_sort_is_permutation(s);
    assert(sorted_by_status(s).to_multiset().len() == sorted_by_status(s).len());
    assert(s.to_multiset().len() == s.len());
}

/// Two boards never share a cache file: paths that end in the cache file
/// names of two different board ids without `_` differ. (`cache_path`
/// promises that its result ends in the board's file name when the id
/// holds no `/`, `\` or `:`.)
pub proof fn law_boards_have_own_cache_files(r1: Seq<char>, b1: Seq<char>, r2: Seq<char>, b2: Seq<char>)
    requires
        b1 != b2,
        forall|i: int| 0 <= i < b1.len() ==> b1[i] != '_',
        forall|i: int| 0 <= i < b2.len() ==> b2[i] != '_',
        ends_with(r1, cache_file_name(b1)),
        ends_with(r2, cache_file_name(b2)),
    ensures
        r1 != r2,
{
    reveal_strlit("sprint_cache_");
    reveal_strlit(".json");
    if r1 == r2 {
        if b1.len() <= b2.len() {
            lemma_same_file_name(r1, b1, b2);
        } else {
            lemma_same_file_name(r1, b2, b1);
        }
    }
}

/// Two cache file names that both end one path belong to the same board,
/// when the longer board id holds no `_`.
proof fn lemma_same_file_name(r: Seq<char>, short: Seq<char>, long: Seq<char>)
    requires
        short.len() <= long.len(),
        forall|i: int| 0 <= i < long.len() ==> long[i] != '_',
        ends_with(r, cache_file_name(short)),
        ends_with(r, cache_file_name(long)),
    ensures
        short == long,
{
    reveal_strlit("sprint_cache_");
    reveal_strlit(".json");
    let ns = cache_file_name(short);
    let nl = cache_file_name(long);
    let d = long.len() - short.len();
    assert forall|i: int| 0 <= i < ns.len() implies ns[i] == nl[i + d] by {
        assert(ns[i] == r[r.len() - ns.len() + i]);
        assert(nl[i + d] == r[r.len() - nl.len() + i + d]);
    }
    if d == 0 {
        assert forall|i: int| 0 <= i < short.len() implies short[i] == long[i] by {
            assert(ns[i + 13] == short[i]);
            assert(nl[i + 13] == long[i]);
        }
        assert(short =~= long);
    } else {
        assert(ns[12] == '_');
        assert(nl[12 + d] == long[d - 1]);
    }
}

/// An item made from an issue of a sprint's issue list takes its key from
/// the issue's `key`, and its summary, status, assignee and type from the
/// issue's `fields` (`summary`, `status.name`, `assignee.displayName`,
/// `issuetype.name`), each where it is a string; where it is not, the key and
/// summary are empty, status and type `-` and the assignee `Unassigned`.
/// Nothing else is loaded yet.
pub proof fn law_issue_item_fields(issue: JsonData)
    ensures
        ({
            let fields = data_get(issue, "fields"@);
            &&& data_as_str(data_get(issue, "key"@)) matches Some(k) ==> issue_pbi(issue).key == k
            &&& data_as_str(data_get(issue, "key"@)) is None ==> issue_pbi(issue).key == Seq::<char>::empty()
            &&& data_as_str(data_get(fields, "summary"@)) matches Some(t) ==> issue_pbi(issue).summary == t
            &&& data_as_str(data_get(fields, "summary"@)) is None ==> issue_pbi(issue).summary
                == Seq::<char>::empty()
            &&& data_as_str(data_get(data_get(fields, "status"@), "name"@)) matches Some(t)
                ==> issue_pbi(issue).status == t
            &&& data_as_str(data_get(data_get(fields, "status"@), "name"@)) is None
                ==> issue_pbi(issue).status == seq!['-']
            &&& data_as_str(data_get(data_get(fields, "assignee"@), "displayName"@)) matches Some(t)
                ==> issue_pbi(issue).assignee == t
            &&& data_as_str(data_get(data_get(fields, "assignee"@), "displayName"@)) is None
                ==> issue_pbi(issue).assignee == "Unassigned"@
            &&& data_as_str(data_get(data_get(fields, "issuetype"@), "name"@)) matches Some(t)
                ==> issue_pbi(issue).issue_type == t
            &&& data_as_str(data_get(data_get(fields, "issuetype"@), "name"@)) is None
                ==> issue_pbi(issue).issue_type == seq!['-']
            &&& issue_pbi(issue).description is None
            &&& issue_pbi(issue).priority is None
            &&& issue_pbi(issue).story_points is None
            &&& issue_pbi(issue).labels.len() == 0
            &&& !issue_pbi(issue).loaded
        }),
{
    reveal_strlit("");
    reveal_strlit("-");
}

/// Each item of a fetched sprint is the item of one of the response's
/// issues, and each issue gives one item.
pub proof fn law_fetched_items_come_from_issues(d: JsonData)
    ensures
        sprint_pbis_of(d).len() == members(data_get(d, "issues"@)).len(),
        forall|k: int| 0 <= k < sprint_pbis_of(d).len() ==> exists|j: int|
            0 <= j < members(data_get(d, "issues"@)).len() && #[trigger] sprint_pbis_of(d)[k] == issue_pbi(
                #[trigger] members(data_get(d, "issues"@))[j],
            ),
{
    let issues = members(data_get(d, "issues"@));
    let items = issues.map_values(|i: JsonData| issue_pbi(i));
    lemma_sorted_len(items);
    law_sort_is_permutation(items);
    assert forall|k: int| 0 <= k < sprint_pbis_of(d).len() implies exists|j: int|
        0 <= j < issues.len() && #[trigger] sprint_pbis_of(d)[k] == issue_pbi(#[trigger] issues[j]) by {
        let x = sprint_pbis_of(d)[k];
        assert(sprint_pbis_of(d).to_multiset().count(x) > 0);
        assert(items.to_multiset().count(x) > 0);
        assert(items.contains(x));
        let j = choose|j: int| 0 <= j < items.len() && items[j] == x;
        assert(items[j] == issue_pbi(issues[j]));
    }
}

/// Loading an item's details refreshes it from the response's `fields`,
/// whatever the item held before, loaded or not: status from `status.name`
/// and assignee from `assignee.displayName` where they are strings (else
/// kept), priority from `priority.name`, labels from the strings of
/// `labels`, description and story points as read from the fields; key,
/// summary and type are kept, and the item is marked loaded.
pub proof fn law_details_refresh(p: PbiView, d: JsonData)
    ensures
        ({
            let fields = data_get(d, "fields"@);
            let r = details_applied(p, d);
            &&& data_as_str(data_get(data_get(fields, "status"@), "name"@)) matches Some(t) ==> r.status == t
            &&& data_as_str(data_get(data_get(fields, "status"@), "name"@)) is None ==> r.status == p.status
            &&& data_as_str(data_get(data_get(fields, "assignee"@), "displayName"@)) matches Some(t)
                ==> r.assignee == t
            &&& data_as_str(data_get(data_get(fields, "assignee"@), "displayName"@)) is None
                ==> r.assignee == p.assignee
            &&& r.priority == data_as_str(data_get(data_get(fields, "priority"@), "name"@))
            &&& r.labels == strings_in(members(data_get(fields, "labels"@)))
            &&& r.description == description_of(data_get(fields, "description"@))
            &&& r.story_points == story_points_of(fields)
            &&& r.key == p.key
            &&& r.summary == p.summary
            &&& r.issue_type == p.issue_type
            &&& r.loaded
        }),
{
}

/// A status refreshed from a response does not depend on the item's
/// previous status or loaded flag when the response names one.
pub proof fn law_details_status_ignores_previous(p: PbiView, q: PbiView, d: JsonData)
    requires
        data_as_str(data_get(data_get(data_get(d, "fields"@), "status"@), "name"@)) is Some,
    ensures
        details_applied(p, d).status == details_applied(q, d).status,
{
}

/// An item read from a cache entry takes each field from the entry's member
/// of the same name: `key`, `summary`, `status`, `assignee`, `issue_type`
/// where they are strings (else empty, the assignee `Unassigned`),
/// `description`, `priority`, `story_points`, the strings of `labels`, and
/// `loaded` (false unless a boolean says otherwise).
pub proof fn law_cache_entry_fields(item: JsonData)
    ensures
        ({
            let p = pbi_from_data(item);
            &&& data_as_str(data_get(item, "key"@)) matches Some(t) ==> p.key == t
            &&& data_as_str(data_get(item, "summary"@)) matches Some(t) ==> p.summary == t
            &&& data_as_str(data_get(item, "summary"@)) is None ==> p.summary == Seq::<char>::empty()
            &&& data_as_str(data_get(item, "status"@)) matches Some(t) ==> p.status == t
            &&& data_as_str(data_get(item, "status"@)) is None ==> p.status == Seq::<char>::empty()
            &&& data_as_str(data_get(item, "assignee"@)) matches Some(t) ==> p.assignee == t
            &&& data_as_str(data_get(item, "issue_type"@)) matches Some(t) ==> p.issue_type == t
            &&& p.description == data_as_str(data_get(item, "description"@))
            &&& p.priority == data_as_str(data_get(item, "priority"@))
            &&& p.labels == strings_in(members(data_get(item, "labels"@)))
            &&& data_as_bool(data_get(item, "loaded"@)) matches Some(b) ==> p.loaded == b
            &&& data_as_bool(data_get(item, "loaded"@)) is None ==> !p.loaded
        }),
{
    reveal_strlit("");
}

/// The cache entry written for an item holds each field under its own name:
/// the key under `key`, the summary under `summary`, the status under
/// `status`, the assignee under `assignee`, the type under `issue_type`, the
/// loaded flag under `loaded`.
pub proof fn law_cache_entry_names(p: PbiView)
    ensures
        data_get(pbi_data(p), "key"@) == JsonData::Str(p.key),
        data_get(pbi_data(p), "summary"@) == JsonData::Str(p.summary),
        data_get(pbi_data(p), "status"@) == JsonData::Str(p.status),
        data_get(pbi_data(p), "assignee"@) == JsonData::Str(p.assignee),
        data_get(pbi_data(p), "issue_type"@) == JsonData::Str(p.issue_type),
        data_get(pbi_data(p), "loaded"@) == JsonData::Bool(p.loaded),
{
    lemma_entry_keys_distinct();
    let fields = pbi_data(p)->Object_0;
    assert forall|i: int| 0 <= i < 10 implies #[trigger] fields[i].0 == entry_key(i) by {
        if i == 0 {} else if i == 1 {} else if i == 2 {} else if i == 3 {} else if i == 4 {}
        else if i == 5 {} else if i == 6 {} else if i == 7 {} else if i == 8 {} else {}
    }
    assert forall|a: int, b: int| 0 <= a < b < 10 implies fields[a].0 != fields[b].0 by {
        assert(fields[a].0 == entry_key(a));
        assert(fields[b].0 == entry_key(b));
    }
    lemma_lookup_distinct(fields);
    assert(field_value(fields, fields[0].0) == fields[0].1);
    assert(field_value(fields, fields[1].0) == fields[1].1);
    assert(field_value(fields, fields[2].0) == fields[2].1);
    assert(field_value(fields, fields[3].0) == fields[3].1);
    assert(field_value(fields, fields[4].0) == fields[4].1);
    assert(field_value(fields, fields[5].0) == fields[5].1);
}

/// Text that occurs in `a` occurs in `a` followed by anything.
proof fn lemma_substring_extend(a: Seq<char>, b: Seq<char>, t: Seq<char>)
    requires
        has_substring(a, t),
    ensures
        has_substring(a + b, t),
{
    let i = choose|i: int| 0 <= i && i + t.len() <= a.len() && #[trigger] a.subrange(i, i + t.len()) == t;
    assert((a + b).subrange(i, i + t.len()) =~= a.subrange(i, i + t.len()));
}

/// The text of a node with its first `n` children starts with the node's
/// own text and holds the text of each of those children that has any.
proof fn lemma_adf_join_holds(d: JsonData, n: int)
    requires
        0 <= n <= child_nodes(d).len(),
    ensures
        own_text(d).len() <= adf_join(d, n).len(),
        adf_join(d, n).subrange(0, own_text(d).len() as int) == own_text(d),
        forall|k: int|
            0 <= k < n && adf_text(#[trigger] child_nodes(d)[k]).len() > 0 ==> has_substring(
                adf_join(d, n),
                adf_text(child_nodes(d)[k]),
            ),
    decreases n,
{
    if n == 0 {
        assert(adf_join(d, 0).subrange(0, own_text(d).len() as int) =~= own_text(d));
    } else {
        lemma_adf_join_holds(d, n - 1);
        let prev = adf_join(d, n - 1);
        lemma_child_smaller(d, n - 1);
        let t = adf_text(child_nodes(d)[n - 1]);
        let j = adf_join(d, n);
        let o = own_text(d);
        if t.len() == 0 {
            assert(j == prev);
        } else if prev.len() == 0 {
            assert(j == t);
            assert(o.len() == 0);
            assert(j.subrange(0, 0) =~= o);
            assert(j.subrange(0, t.len() as int) =~= t);
            assert forall|k: int|
                0 <= k < n && adf_text(#[trigger] child_nodes(d)[k]).len() > 0 implies has_substring(
                    j,
                    adf_text(child_nodes(d)[k]),
                ) by {
                if k < n - 1 {
                    let tk = adf_text(child_nodes(d)[k]);
                    assert(has_substring(prev, tk));
                    let i = choose|i: int| 0 <= i && i + tk.len() <= prev.len()
                        && #[trigger] prev.subrange(i, i + tk.len()) == tk;
                } else {
                    assert(adf_text(child_nodes(d)[k]) == t);
                    assert(j.subrange(0, (0 + t.len()) as int) == t);
                }
            }
        } else {
            let front = prev + seq![' '];
            assert(j == front + t);
            assert(j.subrange(0, o.len() as int) =~= prev.subrange(0, o.len() as int));
            assert(j.subrange(front.len() as int, (front.len() + t.len()) as int) =~= t);
            assert forall|k: int|
                0 <= k < n && adf_text(#[trigger] child_nodes(d)[k]).len() > 0 implies has_substring(
                    j,
                    adf_text(child_nodes(d)[k]),
                ) by {
                if k < n - 1 {
                    let tk = adf_text(child_nodes(d)[k]);
                    lemma_substring_extend(prev, seq![' '] + t, tk);
                    assert(prev + (seq![' '] + t) =~= j);
                } else {
                    assert(adf_text(child_nodes(d)[k]) == t);
                    assert(j.subrange(front.len() as int, (front.len() + t.len()) as int) == t);
                }
            }
        }
    }
}

/// The text of a node takes in its whole content: it starts with the node's
/// own `text`, and the text of every child in its `content` array that has
/// any text occurs in it.
pub proof fn law_adf_text_takes_every_child(d: JsonData)
    ensures
        own_text(d).len() <= adf_text(d).len(),
        adf_text(d).subrange(0, own_text(d).len() as int) == own_text(d),
        forall|k: int|
            0 <= k < child_nodes(d).len() && adf_text(#[trigger] child_nodes(d)[k]).len() > 0
                ==> has_substring(adf_text(d), adf_text(child_nodes(d)[k])),
{
    lemma_adf_join_holds(d, child_nodes(d).len() as int);
}

/// The workflow rank of a lowercase status goes by the words it contains,
/// checked in this order: "done", "closed" or "resolved" 4, "blocked" 3,
/// "review" 2, "progress" 1, and 0 when it holds none of them.
pub proof fn law_status_ranks(s: Seq<char>)
    ensures
        has_substring(s, "done"@) || has_substring(s, "closed"@) || has_substring(s, "resolved"@)
            ==> status_rank_of(s) == 4,
        !has_substring(s, "done"@) && !has_substring(s, "closed"@) && !has_substring(s, "resolved"@)
            && has_substring(s, "blocked"@) ==> status_rank_of(s) == 3,
        !has_substring(s, "done"@) && !has_substring(s, "closed"@) && !has_substring(s, "resolved"@)
            && !has_substring(s, "blocked"@) && has_substring(s, "review"@) ==> status_rank_of(s) == 2,
        !has_substring(s, "done"@) && !has_substring(s, "closed"@) && !has_substring(s, "resolved"@)
            && !has_substring(s, "blocked"@) && !has_substring(s, "review"@) && has_substring(s, "progress"@)
            ==> status_rank_of(s) == 1,
        !has_substring(s, "done"@) && !has_substring(s, "closed"@) && !has_substring(s, "resolved"@)
            && !has_substring(s, "blocked"@) && !has_substring(s, "review"@) && !has_substring(s, "progress"@)
            ==> status_rank_of(s) == 0,
{
    reveal_strlit("done");
    reveal_strlit("closed");
    reveal_strlit("resolved");
    reveal_strlit("blocked");
    reveal_strlit("review");
    reveal_strlit("progress");
    assert("done"@ =~= done_word());
    assert("closed"@ =~= closed_word());
    assert("resolved"@ =~= resolved_word());
    assert("blocked"@ =~= blocked_word());
    assert("review"@ =~= review_word());
    assert("progress"@ =~= progress_word());
}

/// The cache document of a sprint holds the name under `sprint_name`, the
/// goal under `sprint_goal` and the items' entries, in order, under `pbis`;
/// reading a cache document takes the name from `sprint_name` (no sprint
/// when it is not a string), the goal from `sprint_goal` (empty when it is
/// not a string) and one item per member of `pbis`, in order.
pub proof fn law_cache_document_names(name: Seq<char>, goal: Seq<char>, pbis: Seq<PbiView>, d: JsonData)
    ensures
        data_get(cache_data(name, goal, pbis), "sprint_name"@) == JsonData::Str(name),
        data_get(cache_data(name, goal, pbis), "sprint_goal"@) == JsonData::Str(goal),
        members(data_get(cache_data(name, goal, pbis), "pbis"@)) == pbis.map_values(|p: PbiView| pbi_data(p)),
        data_as_str(data_get(d, "sprint_name"@)) is None ==> cache_from_data(d) is None,
        data_as_str(data_get(d, "sprint_name"@)) matches Some(n) ==> (cache_from_data(d) matches Some(c)
            && c.0 == n && c.2.len() == members(data_get(d, "pbis"@)).len()
            && (data_as_str(data_get(d, "sprint_goal"@)) matches Some(g) ==> c.1 == g)
            && (data_as_str(data_get(d, "sprint_goal"@)) is None ==> c.1 == Seq::<char>::empty())
            && forall|k: int| 0 <= k < c.2.len() ==> #[trigger] c.2[k] == pbi_from_data(
                members(data_get(d, "pbis"@))[k],
            )),
{
    reveal_strlit("sprint_name");
    reveal_strlit("sprint_goal");
    reveal_strlit("pbis");
    reveal_strlit("");
    assert("sprint_name"@[7] != "sprint_goal"@[7]);
    assert("sprint_name"@.len() == 11 && "sprint_goal"@.len() == 11 && "pbis"@.len() == 4);
    let fields = cache_data(name, goal, pbis)->Object_0;
    assert forall|a: int, b: int| 0 <= a < b < 3 implies fields[a].0 != fields[b].0 by {
        if a == 0 {} else {}
    }
    lemma_lookup_distinct(fields);
    assert(field_value(fields, fields[0].0) == fields[0].1);
    assert(field_value(fields, fields[1].0) == fields[1].1);
    assert(field_value(fields, fields[2].0) == fields[2].1);
}

/// The active sprint is the first member of the response's `values`: its
/// `id` when that is a non-negative integer, its `name` when a string (else
/// "Active Sprint"), its `goal` when a string (else empty). No members, or
/// no array, means no active sprint; a first sprint without such an id is
/// an error of its own.
pub proof fn law_active_sprint_is_first(d: JsonData)
    ensures
        ({
            let values = data_get(d, "values"@);
            let first = data_at(values, 0);
            &&& (!data_is_array(values) || data_is_empty(values)) ==> active_sprint_of(d) == Err::<
                (u64, Seq<char>, Seq<char>),
                SprintError,
            >(SprintError::NoActiveSprint)
            &&& (data_is_array(values) && !data_is_empty(values) && data_as_u64(data_get(first, "id"@)) is None)
                ==> active_sprint_of(d) == Err::<(u64, Seq<char>, Seq<char>), SprintError>(
                SprintError::MissingSprintId,
            )
            &&& data_is_array(values) && !data_is_empty(values) ==> (data_as_u64(data_get(first, "id"@))
                matches Some(id) ==> (active_sprint_of(d) matches Ok(r) && r.0 == id
                && (data_as_str(data_get(first, "name"@)) matches Some(n) ==> r.1 == n)
                && (data_as_str(data_get(first, "name"@)) is None ==> r.1 == "Active Sprint"@)
                && (data_as_str(data_get(first, "goal"@)) matches Some(g) ==> r.2 == g)
                && (data_as_str(data_get(first, "goal"@)) is None ==> r.2 == Seq::<char>::empty())))
        }),
{
    reveal_strlit("");
}

} // verus!
