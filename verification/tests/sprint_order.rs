use jira_terminal::jira::sprint::{sort_by_status, status_rank, status_sort_key, JsonNumber, Pbi};
use jira_terminal::text::{chars_of, contains_str, u64_to_decimal};

fn pbi(key: &str, status: &str) -> Pbi {
    Pbi {
        key: key.to_string(),
        summary: String::new(),
        status: status.to_string(),
        assignee: "Unassigned".to_string(),
        issue_type: "Story".to_string(),
        description: None,
        priority: None,
        story_points: None,
        labels: Vec::new(),
        loaded: false,
    }
}

fn keys(pbis: &[Pbi]) -> Vec<String> {
    pbis.iter().map(|p| p.key.clone()).collect()
}

#[test]
fn status_sort_key_follows_the_workflow() {
    assert_eq!(status_sort_key("To Do"), 0);
    assert_eq!(status_sort_key("Open"), 0);
    assert_eq!(status_sort_key("Backlog"), 0);
    assert_eq!(status_sort_key("In Progress"), 1);
    assert_eq!(status_sort_key("In Review"), 2);
    assert_eq!(status_sort_key("Code Review"), 2);
    assert_eq!(status_sort_key("Blocked"), 3);
    assert_eq!(status_sort_key("Done"), 4);
    assert_eq!(status_sort_key("CLOSED"), 4);
    assert_eq!(status_sort_key("Resolved"), 4);
    assert_eq!(status_sort_key(""), 0);
}

#[test]
fn status_sort_key_checks_done_before_the_other_stages() {
    // A status naming several stages takes the latest of the checks in order.
    assert_eq!(status_sort_key("Review done"), 4);
    assert_eq!(status_sort_key("Blocked in review"), 3);
    assert_eq!(status_sort_key("Review in progress"), 2);
}

#[test]
fn status_rank_reads_lowercase_text_only() {
    assert_eq!(status_rank("in progress"), 1);
    assert_eq!(status_rank("In Progress"), 0);
    assert_eq!(status_rank("DONE"), 0);
    assert_eq!(status_rank("done"), 4);
}

#[test]
fn sort_by_status_orders_by_stage_and_keeps_ties_in_order() {
    let mut pbis = vec![
        pbi("A", "Done"),
        pbi("B", "To Do"),
        pbi("C", "In Progress"),
        pbi("D", "Blocked"),
        pbi("E", "In Review"),
        pbi("F", "To Do"),
        pbi("G", "Closed"),
        pbi("H", "In Progress"),
    ];
    sort_by_status(&mut pbis);
    assert_eq!(keys(&pbis), vec!["B", "F", "C", "H", "E", "D", "A", "G"]);
}

#[test]
fn sort_by_status_is_idempotent() {
    let mut pbis = vec![pbi("A", "Done"), pbi("B", "Open"), pbi("C", "review"), pbi("D", "open")];
    sort_by_status(&mut pbis);
    let once = keys(&pbis);
    sort_by_status(&mut pbis);
    assert_eq!(keys(&pbis), once);
    assert_eq!(once, vec!["B", "D", "C", "A"]);
}

#[test]
fn sort_by_status_of_nothing_is_nothing() {
    let mut pbis: Vec<Pbi> = Vec::new();
    sort_by_status(&mut pbis);
    assert!(pbis.is_empty());
}

#[test]
fn duplicate_copies_every_field() {
    let mut p = pbi("K-1", "Done");
    p.description = Some("text".to_string());
    p.labels = vec!["a".to_string(), "b".to_string()];
    p.story_points = Some(JsonNumber { positive: true, mantissa: 35, exponent: -1 });
    p.loaded = true;
    let q = p.duplicate();
    assert_eq!(q.key, "K-1");
    assert_eq!(q.description.as_deref(), Some("text"));
    assert_eq!(q.labels, vec!["a", "b"]);
    assert_eq!(q.story_points.map(|n| (n.positive, n.mantissa, n.exponent)), Some((true, 35, -1)));
    assert!(q.loaded);
}

#[test]
fn contains_str_finds_substrings() {
    assert!(contains_str("in progress", "progress"));
    assert!(contains_str("abc", ""));
    assert!(!contains_str("ab", "abc"));
    assert!(!contains_str("reviwe", "review"));
    assert!(contains_str("ärger done", "done"));
}

#[test]
fn u64_to_decimal_writes_digits() {
    assert_eq!(u64_to_decimal(0), "0");
    assert_eq!(u64_to_decimal(7), "7");
    assert_eq!(u64_to_decimal(10), "10");
    assert_eq!(u64_to_decimal(500), "500");
    assert_eq!(u64_to_decimal(u64::MAX), "18446744073709551615");
}

#[test]
fn chars_of_splits_into_characters() {
    assert_eq!(chars_of("a⟳b"), vec!['a', '⟳', 'b']);
    assert!(chars_of("").is_empty());
}

#[test]
fn sort_by_status_keeps_every_item() {
    let mut pbis = vec![pbi("A", "Done"), pbi("B", "Done"), pbi("C", "blocked"), pbi("D", "x")];
    sort_by_status(&mut pbis);
    let mut got = keys(&pbis);
    got.sort();
    assert_eq!(got, vec!["A", "B", "C", "D"]);
    assert_eq!(keys(&pbis), vec!["D", "C", "A", "B"]);
}

#[test]
fn status_sort_key_ignores_ascii_case() {
    for s in ["done", "DONE", "Done", "dONE"] {
        assert_eq!(status_sort_key(s), 4);
    }
    assert_eq!(status_sort_key("IN PROGRESS"), 1);
    assert_eq!(status_sort_key("in progress"), 1);
    assert_eq!(status_sort_key("BLOCKED"), 3);
    assert_eq!(status_sort_key("code REVIEW"), 2);
}
