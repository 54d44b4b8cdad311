//! Sprint data from the JIRA REST API: the request paths, and what the
//! responses are made into.

use vstd::prelude::*;
use vstd::string::*;
use crate::text::{decimal, u64_to_decimal};
use crate::jira::sprint::{JsonNumber, Pbi, PbiView, pbis_view, sort_by_status, sorted_by_status};
use crate::jira::cache::{str_or, strings_in, string_or, string_opt, member_strings};
use crate::jira::adf::{adf_text, extract_adf_text};
use crate::json_doc::{
    JsonData, data_as_number, data_as_str, data_as_u64, data_at, data_get, data_is_array,
    data_is_empty, data_is_object, data_is_string, members, json_as_number, json_as_str,
    json_as_u64, json_at, json_get, json_is_array, json_is_empty, json_is_object, json_is_string,
    json_len,
};

verus! {

/// Path of the agile API request for the active sprint of a board.
pub fn active_sprint_path(board_id: &str) -> (r: String)
    ensures
        r@ == "board/"@ + board_id@ + "/sprint?state=active"@,
{
    let mut r = String::from_str("board/");
    r.append(board_id);
    r.append("/sprint?state=active");
    r
}

/// Path of the agile API request for the issues of a sprint (up to 500).
pub fn sprint_issues_path(sprint_id: u64) -> (r: String)
    ensures
        r@ == "sprint/"@ + decimal(sprint_id as nat) + "/issue?maxResults=500"@,
{
    let mut r = String::from_str("sprint/");
    let id = u64_to_decimal(sprint_id);
    r.append(id.as_str());
    r.append("/issue?maxResults=500");
    r
}

/// Path of the API request for the details of an issue.
pub fn issue_path(key: &str) -> (r: String)
    ensures
        r@ == "issue/"@ + key@,
{
    let mut r = String::from_str("issue/");
    r.append(key);
    r
}

/// Why no sprint could be read from a response.
#[derive(Clone, Copy, Debug, PartialEq, Eq, Structural)]
pub enum SprintError {
    /// The board has no active sprint.
    NoActiveSprint,
    /// The active sprint carries no integer id.
    MissingSprintId,
}

impl SprintError {
    /// The message that is shown for the error.
    pub fn message(&self) -> (r: &'static str)
        ensures
            r@ == match self {
                SprintError::NoActiveSprint => "No active sprint found for the given board."@,
                SprintError::MissingSprintId => "Could not read sprint id"@,
            },
    {
        match self {
            SprintError::NoActiveSprint => "No active sprint found for the given board.",
            SprintError::MissingSprintId => "Could not read sprint id",
        }
    }
}

/// The active sprint of a board: its id, name and goal.
pub struct ActiveSprint {
    pub id: u64,
    pub name: String,
    pub goal: String,
}

/// What the response listing a board's active sprints yields: the first
/// sprint's id, name ("Active Sprint" if it has none) and goal ("" if none).
pub open spec fn active_sprint_of(d: JsonData) -> Result<(u64, Seq<char>, Seq<char>), SprintError> {
    let sprints = data_get(d, "values"@);
    if !data_is_array(sprints) || data_is_empty(sprints) {
        Err(SprintError::NoActiveSprint)
    } else {
        let sprint = data_at(sprints, 0);
        match data_as_u64(data_get(sprint, "id"@)) {
            None => Err(SprintError::MissingSprintId),
            Some(id) => Ok(
                (
                    id,
                    str_or(data_get(sprint, "name"@), "Active Sprint"@),
                    str_or(data_get(sprint, "goal"@), ""@),
                ),
            ),
        }
    }
}

/// The active sprint from the response to the request of
/// [`active_sprint_path`].
pub fn select_active_sprint(response: &json::JsonValue) -> (r: Result<ActiveSprint, SprintError>)
    ensures
        match r {
            Ok(s) => active_sprint_of(crate::json_doc::json_data(*response)) == Ok::<
                (u64, Seq<char>, Seq<char>),
                SprintError,
            >((s.id, s.name@, s.goal@)),
            Err(e) => active_sprint_of(crate::json_doc::json_data(*response)) == Err::<
                (u64, Seq<char>, Seq<char>),
                SprintError,
            >(e),
        },
{
    let sprints = json_get(response, "values");
    if !json_is_array(sprints) || json_is_empty(sprints) {
        return Err(SprintError::NoActiveSprint);
    }
    let sprint = json_at(sprints, 0);
    let id = match json_as_u64(json_get(sprint, "id")) {
        Some(id) => id,
        None => return Err(SprintError::MissingSprintId),
    };
    let name = string_or(json_get(sprint, "name"), "Active Sprint");
    let goal = string_or(json_get(sprint, "goal"), "");
    Ok(ActiveSprint { id, name, goal })
}

/// The item that an issue of a sprint's issue list describes; its details
/// are not loaded yet.
pub open spec fn issue_pbi(issue: JsonData) -> PbiView {
    let fields = data_get(issue, "fields"@);
    PbiView {
        key: str_or(data_get(issue, "key"@), ""@),
        summary: str_or(data_get(fields, "summary"@), ""@),
        status: str_or(data_get(data_get(fields, "status"@), "name"@), "-"@),
        assignee: str_or(data_get(data_get(fields, "assignee"@), "displayName"@), "Unassigned"@),
        issue_type: str_or(data_get(data_get(fields, "issuetype"@), "name"@), "-"@),
        description: None,
        priority: None,
        story_points: None,
        labels: Seq::empty(),
        loaded: false,
    }
}

/// The items of a sprint's issue list, in workflow order.
pub open spec fn sprint_pbis_of(d: JsonData) -> Seq<PbiView> {
    sorted_by_status(members(data_get(d, "issues"@)).map_values(|i: JsonData| issue_pbi(i)))
}

/// The item that one issue of a sprint's issue list describes.
pub fn pbi_from_issue(issue: &json::JsonValue) -> (r: Pbi)
    ensures
        r@ == issue_pbi(crate::json_doc::json_data(*issue)),
{
    let fields = json_get(issue, "fields");
    let r = Pbi {
        key: string_or(json_get(issue, "key"), ""),
        summary: string_or(json_get(fields, "summary"), ""),
        status: string_or(json_get(json_get(fields, "status"), "name"), "-"),
        assignee: string_or(json_get(json_get(fields, "assignee"), "displayName"), "Unassigned"),
        issue_type: string_or(json_get(json_get(fields, "issuetype"), "name"), "-"),
        description: None,
        priority: None,
        story_points: None,
        labels: Vec::new(),
        loaded: false,
    };
    assert(r@.labels =~= Seq::<Seq<char>>::empty());
    r
}

/// The items of the response to the request of [`sprint_issues_path`],
/// sorted in workflow order.
pub fn sprint_pbis(response: &json::JsonValue) -> (r: Vec<Pbi>)
    ensures
        pbis_view(r@) == sprint_pbis_of(crate::json_doc::json_data(*response)),
{
    let issues = json_get(response, "issues");
    let ghost items = members(crate::json_doc::json_data(*issues));
    let mut pbis: Vec<Pbi> = Vec::new();
    if json_is_array(issues) {
        let n = json_len(issues);
        let mut i: usize = 0;
        while i < n
            invariant
                crate::json_doc::json_data(*issues) is Array,
                items == members(crate::json_doc::json_data(*issues)),
                n == items.len(),
                i <= n,
                pbis_view(pbis@) == items.subrange(0, i as int).map_values(|x: JsonData| issue_pbi(x)),
            decreases n - i,
        {
            let issue = json_at(issues, i);
            assert(crate::json_doc::json_data(*issue) == items[i as int]);
            let p = pbi_from_issue(issue);
            let ghost before = pbis_view(pbis@);
            pbis.push(p);
            assert(pbis_view(pbis@) =~= before.push(p@));
            i = i + 1;
            assert(pbis_view(pbis@) =~= items.subrange(0, i as int).map_values(|x: JsonData| issue_pbi(x)));
        }
        assert(items.subrange(0, n as int) =~= items);
    }
    assert(pbis_view(pbis@) =~= items.map_values(|x: JsonData| issue_pbi(x)));
    sort_by_status(&mut pbis);
    pbis
}

/// The description in an issue's `description` field: a plain string as it
/// is, an ADF document as its text, nothing otherwise.
pub open spec fn description_of(desc: JsonData) -> Option<Seq<char>> {
    if data_is_string(desc) {
        data_as_str(desc)
    } else if data_is_object(desc) {
        Some(adf_text(desc))
    } else {
        None
    }
}

/// Story points live in different fields depending on the JIRA setup: the
/// first number among `story_points`, `customfield_10016` and
/// `customfield_10028`.
pub open spec fn story_points_of(fields: JsonData) -> Option<JsonNumber> {
    match data_as_number(data_get(fields, "story_points"@)) {
        Some(n) => Some(n),
        None => match data_as_number(data_get(fields, "customfield_10016"@)) {
            Some(n) => Some(n),
            None => data_as_number(data_get(fields, "customfield_10028"@)),
        },
    }
}

/// An item after its details arrived: description, priority, story points
/// and labels replaced, status and assignee refreshed where the response
/// has them, and the item marked loaded.
pub open spec fn details_applied(p: PbiView, d: JsonData) -> PbiView {
    let fields = data_get(d, "fields"@);
    PbiView {
        key: p.key,
        summary: p.summary,
        status: match data_as_str(data_get(data_get(fields, "status"@), "name"@)) {
            Some(s) => s,
            None => p.status,
        },
        assignee: match data_as_str(data_get(data_get(fields, "assignee"@), "displayName"@)) {
            Some(a) => a,
            None => p.assignee,
        },
        issue_type: p.issue_type,
        description: description_of(data_get(fields, "description"@)),
        priority: data_as_str(data_get(data_get(fields, "priority"@), "name"@)),
        story_points: story_points_of(fields),
        labels: strings_in(members(data_get(fields, "labels"@))),
        loaded: true,
    }
}

/// Populate the rich details of an item in place from the response to the
/// request of [`issue_path`].
pub fn apply_pbi_details(pbi: &mut Pbi, response: &json::JsonValue)
    ensures
        final(pbi)@ == details_applied(old(pbi)@, crate::json_doc::json_data(*response)),
{
    let fields = json_get(response, "fields");
    let desc = json_get(fields, "description");
    pbi.description = if json_is_string(desc) {
        string_opt(desc)
    } else if json_is_object(desc) {
        Some(extract_adf_text(desc))
    } else {
        None
    };
    pbi.priority = string_opt(json_get(json_get(fields, "priority"), "name"));
    pbi.story_points = match json_as_number(json_get(fields, "story_points")) {
        Some(n) => Some(n),
        None => match json_as_number(json_get(fields, "customfield_10016")) {
            Some(n) => Some(n),
            None => json_as_number(json_get(fields, "customfield_10028")),
        },
    };
    pbi.labels = member_strings(json_get(fields, "labels"));
    match json_as_str(json_get(json_get(fields, "status"), "name")) {
        Some(s) => {
            pbi.status = String::from_str(s);
        },
        None => {},
    }
    match json_as_str(json_get(json_get(fields, "assignee"), "displayName")) {
        Some(a) => {
            pbi.assignee = String::from_str(a);
        },
        None => {},
    }
    pbi.loaded = true;
}

} // verus!
