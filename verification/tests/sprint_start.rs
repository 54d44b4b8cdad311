use jira_terminal::jira::sprint::Pbi;
use jira_terminal::jira::start::{fetching_notice, sprint_start, SprintStart};

fn item(key: &str) -> Pbi {
    Pbi {
        key: key.to_string(),
        summary: "Summary".to_string(),
        status: "To Do".to_string(),
        assignee: "Unassigned".to_string(),
        issue_type: "Task".to_string(),
        description: None,
        priority: None,
        story_points: None,
        labels: Vec::new(),
        loaded: false,
    }
}

#[test]
fn missing_board_stops_the_command() {
    assert!(matches!(sprint_start("", None), SprintStart::MissingBoard));
    let cached = ("S".to_string(), "G".to_string(), vec![item("A-1")]);
    assert!(matches!(sprint_start("", Some(cached)), SprintStart::MissingBoard));
}

#[test]
fn cached_sprint_is_shown_as_saved() {
    let cached = ("Sprint 4".to_string(), "Ship".to_string(), vec![item("A-1"), item("A-2")]);
    match sprint_start("12", Some(cached)) {
        SprintStart::FromCache(name, goal, pbis) => {
            assert_eq!(name, "Sprint 4");
            assert_eq!(goal, "Ship");
            assert_eq!(pbis.len(), 2);
            assert_eq!(pbis[0].key, "A-1");
            assert_eq!(pbis[1].key, "A-2");
        }
        _ => panic!("expected the cached sprint"),
    }
}

#[test]
fn without_cache_the_active_sprint_is_fetched() {
    assert!(matches!(sprint_start("12", None), SprintStart::FetchActive));
    assert_eq!(fetching_notice("12"), "Fetching active sprint for board 12...");
    assert_eq!(fetching_notice(""), "Fetching active sprint for board ...");
}
