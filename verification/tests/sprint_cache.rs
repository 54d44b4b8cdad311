use jira_terminal::jira::cache::{
    cache_path, cache_path_in, parse_sprint_cache, pbi_cache_entry, pbi_from_cache_entry,
    sprint_cache_from_json, sprint_cache_json, sprint_cache_text,
};
use jira_terminal::jira::sprint::{JsonNumber, Pbi};

fn pbi(key: &str, status: &str) -> Pbi {
    Pbi {
        key: key.to_string(),
        summary: format!("summary of {key}"),
        status: status.to_string(),
        assignee: "Ada".to_string(),
        issue_type: "Bug".to_string(),
        description: None,
        priority: None,
        story_points: None,
        labels: Vec::new(),
        loaded: false,
    }
}

fn rich_pbi() -> Pbi {
    let mut p = pbi("PRJ-7", "In Review");
    p.description = Some("Fix the \"quoted\" thing\nsecond line".to_string());
    p.priority = Some("High".to_string());
    p.story_points = Some(JsonNumber { positive: true, mantissa: 5, exponent: 0 });
    p.labels = vec!["backend".to_string(), "urgent".to_string()];
    p.loaded = true;
    p
}

fn same(a: &Pbi, b: &Pbi) -> bool {
    a.key == b.key
        && a.summary == b.summary
        && a.status == b.status
        && a.assignee == b.assignee
        && a.issue_type == b.issue_type
        && a.description == b.description
        && a.priority == b.priority
        && a.story_points.map(|n| (n.positive, n.mantissa, n.exponent))
            == b.story_points.map(|n| (n.positive, n.mantissa, n.exponent))
        && a.labels == b.labels
        && a.loaded == b.loaded
}

#[test]
fn cache_text_round_trips() {
    let pbis = vec![pbi("PRJ-1", "To Do"), rich_pbi()];
    let text = sprint_cache_text("Sprint 12", "Ship it", &pbis);
    let (name, goal, back) = parse_sprint_cache(&text).expect("cache parses");
    assert_eq!(name, "Sprint 12");
    assert_eq!(goal, "Ship it");
    assert_eq!(back.len(), 2);
    assert!(same(&back[0], &pbis[0]));
    assert!(same(&back[1], &pbis[1]));
}

#[test]
fn cache_round_trip_normalizes_story_points() {
    let mut p = pbi("PRJ-2", "Done");
    p.story_points = Some(JsonNumber { positive: true, mantissa: 150, exponent: -2 });
    let text = sprint_cache_text("S", "", &[p]);
    let (_, _, back) = parse_sprint_cache(&text).unwrap();
    let n = back[0].story_points.unwrap();
    assert_eq!((n.positive, n.mantissa, n.exponent), (true, 15, -1));
}

#[test]
fn cache_text_is_pretty_printed_with_two_spaces() {
    let text = sprint_cache_text("S", "G", &[]);
    assert_eq!(text, "{\n  \"sprint_name\": \"S\",\n  \"sprint_goal\": \"G\",\n  \"pbis\": []\n}");
}

#[test]
fn cache_entry_writes_fields_in_order() {
    let entry = pbi_cache_entry(&rich_pbi());
    let keys: Vec<&str> = entry.entries().map(|(k, _)| k).collect();
    assert_eq!(
        keys,
        vec![
            "key", "summary", "status", "assignee", "issue_type", "loaded", "labels",
            "description", "priority", "story_points"
        ]
    );
    assert_eq!(entry["story_points"].as_u64(), Some(5));
    assert!(pbi_cache_entry(&pbi("X", "Y"))["description"].is_null());
}

#[test]
fn cache_json_names_sprint_and_items() {
    let data = sprint_cache_json("Name", "Goal", &[pbi("A-1", "Done")]);
    assert_eq!(data["sprint_name"].as_str(), Some("Name"));
    assert_eq!(data["sprint_goal"].as_str(), Some("Goal"));
    assert_eq!(data["pbis"].len(), 1);
    assert_eq!(data["pbis"][0]["key"].as_str(), Some("A-1"));
}

#[test]
fn cache_without_sprint_name_is_rejected() {
    assert!(parse_sprint_cache("{\"sprint_goal\": \"x\", \"pbis\": []}").is_none());
    assert!(parse_sprint_cache("{\"sprint_name\": 3}").is_none());
}

#[test]
fn malformed_cache_is_rejected() {
    assert!(parse_sprint_cache("not json").is_none());
    assert!(parse_sprint_cache("").is_none());
    assert!(parse_sprint_cache("{\"sprint_name\": \"a\"").is_none());
}

#[test]
fn cache_entries_fall_back_to_defaults() {
    let data = json::parse(
        r#"{"sprint_name": "S", "pbis": [{"labels": ["x", 3, "y"], "story_points": 2.5}, 7]}"#,
    )
    .unwrap();
    let (name, goal, pbis) = sprint_cache_from_json(&data).unwrap();
    assert_eq!(name, "S");
    assert_eq!(goal, "");
    assert_eq!(pbis.len(), 2);
    let p = &pbis[0];
    assert_eq!(p.key, "");
    assert_eq!(p.summary, "");
    assert_eq!(p.status, "");
    assert_eq!(p.assignee, "Unassigned");
    assert_eq!(p.issue_type, "");
    assert_eq!(p.description, None);
    assert_eq!(p.priority, None);
    assert_eq!(p.labels, vec!["x", "y"]);
    let sp = p.story_points.unwrap();
    assert_eq!((sp.positive, sp.mantissa, sp.exponent), (true, 25, -1));
    assert!(!p.loaded);
    assert_eq!(pbis[1].assignee, "Unassigned");
}

#[test]
fn cache_pbis_that_are_no_list_give_no_items() {
    let data = json::parse(r#"{"sprint_name": "S", "sprint_goal": "G", "pbis": {"a": 1}}"#).unwrap();
    let (_, goal, pbis) = sprint_cache_from_json(&data).unwrap();
    assert_eq!(goal, "G");
    assert!(pbis.is_empty());
}

#[test]
fn cache_entry_reads_every_field() {
    let item = json::parse(
        r#"{"key":"K","summary":"S","status":"Done","assignee":"Bo","issue_type":"Task",
            "description":"d","priority":null,"story_points":null,"labels":[],"loaded":true}"#,
    )
    .unwrap();
    let p = pbi_from_cache_entry(&item);
    assert_eq!(p.key, "K");
    assert_eq!(p.assignee, "Bo");
    assert_eq!(p.description.as_deref(), Some("d"));
    assert_eq!(p.priority, None);
    assert!(p.story_points.is_none());
    assert!(p.loaded);
}

#[test]
fn cache_path_sits_beside_the_config_file() {
    assert_eq!(
        cache_path("/home/ada/.config/jira/config.yml", "42"),
        "/home/ada/.config/jira/sprint_cache_42.json"
    );
    assert_eq!(cache_path("config.yml", "7"), "sprint_cache_7.json");
    assert_eq!(cache_path("", "7"), "sprint_cache_7.json");
    assert_eq!(cache_path("/config", "7"), "/sprint_cache_7.json");
}

#[test]
fn cache_path_in_joins_with_one_separator() {
    assert_eq!(cache_path_in(Some("/tmp/"), "b"), "/tmp/sprint_cache_b.json");
    assert_eq!(cache_path_in(Some("/tmp"), "b"), "/tmp/sprint_cache_b.json");
    assert_eq!(cache_path_in(Some(""), "b"), "sprint_cache_b.json");
    assert_eq!(cache_path_in(None, "b"), "sprint_cache_b.json");
}

#[test]
fn boards_have_their_own_cache_files() {
    let config = "/home/ada/.config/jira/config.yml";
    let boards = ["1", "12", "2", "112", "1.jsonsprint", "a b"];
    for (i, a) in boards.iter().enumerate() {
        let pa = cache_path(config, a);
        assert!(pa.ends_with(&format!("sprint_cache_{a}.json")));
        for b in boards.iter().skip(i + 1) {
            assert_ne!(pa, cache_path(config, b));
        }
    }
}
