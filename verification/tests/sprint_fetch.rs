use jira_terminal::jira::adf::extract_adf_text;
use jira_terminal::jira::fetch::{
    active_sprint_path, apply_pbi_details, issue_path, pbi_from_issue, select_active_sprint,
    sprint_issues_path, sprint_pbis, SprintError,
};
use jira_terminal::jira::sprint::Pbi;

fn fresh(key: &str) -> Pbi {
    Pbi {
        key: key.to_string(),
        summary: "s".to_string(),
        status: "To Do".to_string(),
        assignee: "Unassigned".to_string(),
        issue_type: "Story".to_string(),
        description: None,
        priority: None,
        story_points: None,
        labels: Vec::new(),
        loaded: false,
    }
}

#[test]
fn request_paths() {
    assert_eq!(active_sprint_path("12"), "board/12/sprint?state=active");
    assert_eq!(sprint_issues_path(981), "sprint/981/issue?maxResults=500");
    assert_eq!(issue_path("PRJ-4"), "issue/PRJ-4");
}

#[test]
fn active_sprint_is_the_first_listed() {
    let resp = json::parse(
        r#"{"values": [{"id": 17, "name": "Sprint 3", "goal": "Finish"}, {"id": 18}]}"#,
    )
    .unwrap();
    let s = select_active_sprint(&resp).ok().unwrap();
    assert_eq!(s.id, 17);
    assert_eq!(s.name, "Sprint 3");
    assert_eq!(s.goal, "Finish");
}

#[test]
fn active_sprint_defaults() {
    let resp = json::parse(r#"{"values": [{"id": 5, "goal": null}]}"#).unwrap();
    let s = select_active_sprint(&resp).ok().unwrap();
    assert_eq!(s.name, "Active Sprint");
    assert_eq!(s.goal, "");
}

#[test]
fn no_active_sprint() {
    for text in [r#"{"values": []}"#, r#"{}"#, r#"{"values": {"id": 1}}"#, "[]"] {
        let resp = json::parse(text).unwrap();
        assert_eq!(select_active_sprint(&resp).err(), Some(SprintError::NoActiveSprint));
    }
    assert_eq!(
        SprintError::NoActiveSprint.message(),
        "No active sprint found for the given board."
    );
}

#[test]
fn sprint_without_integer_id() {
    for text in [r#"{"values": [{"name": "x"}]}"#, r#"{"values": [{"id": "1"}]}"#, r#"{"values": [{"id": -3}]}"#, r#"{"values": [{"id": 1.5}]}"#] {
        let resp = json::parse(text).unwrap();
        assert_eq!(select_active_sprint(&resp).err(), Some(SprintError::MissingSprintId));
    }
    assert_eq!(SprintError::MissingSprintId.message(), "Could not read sprint id");
}

#[test]
fn issues_become_sorted_items() {
    let resp = json::parse(
        r#"{"issues": [
            {"key": "P-1", "fields": {"summary": "one", "status": {"name": "Done"},
              "assignee": {"displayName": "Ada"}, "issuetype": {"name": "Bug"}}},
            {"key": "P-2", "fields": {"summary": "two", "status": {"name": "In Progress"},
              "assignee": null, "issuetype": {"name": "Story"}}},
            {"fields": {}}
        ]}"#,
    )
    .unwrap();
    let pbis = sprint_pbis(&resp);
    let keys: Vec<&str> = pbis.iter().map(|p| p.key.as_str()).collect();
    // The issue without status reads "-", which ranks with To Do.
    assert_eq!(keys, vec!["", "P-2", "P-1"]);
    assert_eq!(pbis[1].assignee, "Unassigned");
    assert_eq!(pbis[0].status, "-");
    assert_eq!(pbis[0].issue_type, "-");
    assert_eq!(pbis[0].summary, "");
    assert_eq!(pbis[2].assignee, "Ada");
    assert_eq!(pbis[2].issue_type, "Bug");
    assert!(pbis.iter().all(|p| !p.loaded && p.labels.is_empty() && p.description.is_none()));
}

#[test]
fn issue_list_missing_gives_no_items() {
    let resp = json::parse(r#"{"issues": "none"}"#).unwrap();
    assert!(sprint_pbis(&resp).is_empty());
    let single = json::parse(r#"{"key": "Q-1", "fields": {"status": {"name": "Blocked"}}}"#).unwrap();
    assert_eq!(pbi_from_issue(&single).status, "Blocked");
}

#[test]
fn details_fill_the_item() {
    let resp = json::parse(
        r#"{"fields": {"description": "plain text", "priority": {"name": "High"},
            "customfield_10016": 3, "labels": ["a", 1, "b"],
            "status": {"name": "In Review"}, "assignee": {"displayName": "Bo"}}}"#,
    )
    .unwrap();
    let mut p = fresh("P-9");
    apply_pbi_details(&mut p, &resp);
    assert_eq!(p.key, "P-9");
    assert_eq!(p.summary, "s");
    assert_eq!(p.description.as_deref(), Some("plain text"));
    assert_eq!(p.priority.as_deref(), Some("High"));
    let sp = p.story_points.unwrap();
    assert_eq!((sp.positive, sp.mantissa, sp.exponent), (true, 3, 0));
    assert_eq!(p.labels, vec!["a", "b"]);
    assert_eq!(p.status, "In Review");
    assert_eq!(p.assignee, "Bo");
    assert!(p.loaded);
}

#[test]
fn details_keep_status_and_assignee_when_absent() {
    let resp = json::parse(r#"{"fields": {"story_points": 8, "customfield_10016": 3}}"#).unwrap();
    let mut p = fresh("P-1");
    p.description = Some("old".to_string());
    p.labels = vec!["old".to_string()];
    apply_pbi_details(&mut p, &resp);
    assert_eq!(p.status, "To Do");
    assert_eq!(p.assignee, "Unassigned");
    assert_eq!(p.description, None);
    assert_eq!(p.priority, None);
    assert!(p.labels.is_empty());
    assert_eq!(p.story_points.unwrap().mantissa, 8);
    assert!(p.loaded);
}

#[test]
fn details_story_points_from_last_field() {
    let resp = json::parse(r#"{"fields": {"story_points": "x", "customfield_10028": 13}}"#).unwrap();
    let mut p = fresh("P-1");
    apply_pbi_details(&mut p, &resp);
    assert_eq!(p.story_points.unwrap().mantissa, 13);
    let none = json::parse(r#"{}"#).unwrap();
    apply_pbi_details(&mut p, &none);
    assert!(p.story_points.is_none());
}

#[test]
fn details_with_document_description() {
    let resp = json::parse(
        r#"{"fields": {"description": {"type": "doc", "content": [
            {"type": "paragraph", "content": [{"type": "text", "text": "Hello"},
                                              {"type": "text", "text": "world"}]},
            {"type": "rule"},
            {"type": "paragraph", "content": [{"type": "text", "text": "Bye"}]}
        ]}}}"#,
    )
    .unwrap();
    let mut p = fresh("P-3");
    apply_pbi_details(&mut p, &resp);
    assert_eq!(p.description.as_deref(), Some("Hello world Bye"));
}

#[test]
fn adf_text_joins_non_empty_parts() {
    let node = json::parse(r#"{"text": "a", "content": [{"text": ""}, {"content": [{"text": "b"}]}, {"text": "c"}]}"#).unwrap();
    assert_eq!(extract_adf_text(&node), "a b c");
    let leaf = json::parse(r#"{"text": "only"}"#).unwrap();
    assert_eq!(extract_adf_text(&leaf), "only");
    let empty = json::parse(r#"{"content": "x"}"#).unwrap();
    assert_eq!(extract_adf_text(&empty), "");
    let no_own = json::parse(r#"{"content": [{"text": "x"}, {"text": "y"}]}"#).unwrap();
    assert_eq!(extract_adf_text(&no_own), "x y");
    let scalar = json::parse("5").unwrap();
    assert_eq!(extract_adf_text(&scalar), "");
}

#[test]
fn loading_details_twice_changes_nothing_more() {
    let resp = json::parse(
        r#"{"fields": {"description": {"content": [{"text": "d"}]}, "priority": {"name": "Low"},
            "story_points": 2, "labels": ["x"], "status": {"name": "Done"}}}"#,
    )
    .unwrap();
    let mut once = fresh("P-5");
    apply_pbi_details(&mut once, &resp);
    let mut twice = once.duplicate();
    apply_pbi_details(&mut twice, &resp);
    assert_eq!(once.description, twice.description);
    assert_eq!(once.description.as_deref(), Some("d"));
    assert_eq!(once.priority, twice.priority);
    assert_eq!(once.labels, twice.labels);
    assert_eq!(once.status, twice.status);
    assert_eq!(once.assignee, twice.assignee);
    assert_eq!(once.story_points.map(|n| n.mantissa), twice.story_points.map(|n| n.mantissa));
    assert_eq!(twice.key, "P-5");
    assert!(twice.loaded);
}

#[test]
fn fetched_items_are_in_workflow_order() {
    let resp = json::parse(
        r#"{"issues": [
            {"key": "A", "fields": {"status": {"name": "Closed"}}},
            {"key": "B", "fields": {"status": {"name": "Blocked"}}},
            {"key": "C", "fields": {"status": {"name": "In Review"}}},
            {"key": "D", "fields": {"status": {"name": "In Progress"}}},
            {"key": "E", "fields": {"status": {"name": "To Do"}}}
        ]}"#,
    )
    .unwrap();
    let keys: Vec<String> = sprint_pbis(&resp).into_iter().map(|p| p.key).collect();
    assert_eq!(keys, vec!["E", "D", "C", "B", "A"]);
}
