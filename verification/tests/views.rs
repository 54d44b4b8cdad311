use jira_terminal::app::App;
use jira_terminal::input::{Key, KeyKind};
use jira_terminal::jira::commands::{comments_command, detail_command, transition_command, JiraCommand};
use jira_terminal::jira::sprint::Pbi;
use jira_terminal::ui::sprint_list::{
    lowered_color, status_color, KeyAction, LoadMsg, RowIndicator, SprintApp, StatusColor,
};

fn pbi(key: &str, status: &str) -> Pbi {
    Pbi {
        key: key.to_string(),
        summary: String::new(),
        status: status.to_string(),
        assignee: "Unassigned".to_string(),
        issue_type: "Task".to_string(),
        description: None,
        priority: None,
        story_points: None,
        labels: Vec::new(),
        loaded: false,
    }
}

fn sprint(n: usize) -> SprintApp {
    let pbis = (0..n).map(|i| pbi(&format!("K-{i}"), "To Do")).collect();
    SprintApp::new("Sprint".to_string(), "Goal".to_string(), "9".to_string(), pbis)
}

fn press(app: &mut SprintApp, key: Key) -> KeyAction {
    app.handle_key(KeyKind::Press, key)
}

#[test]
fn new_selects_first_item() {
    let app = sprint(3);
    assert_eq!(app.selected, Some(0));
    assert_eq!(app.status_msg, "");
    assert_eq!(app.loading_idx, None);
    assert!(!app.loading_all && !app.exit);
    assert_eq!(sprint(0).selected, None);
}

#[test]
fn down_wraps_to_first_and_up_to_last() {
    let mut app = sprint(3);
    press(&mut app, Key::Down);
    assert_eq!(app.selected, Some(1));
    press(&mut app, Key::Char('j'));
    assert_eq!(app.selected, Some(2));
    press(&mut app, Key::Down);
    assert_eq!(app.selected, Some(0));
    press(&mut app, Key::Up);
    assert_eq!(app.selected, Some(2));
    press(&mut app, Key::Char('k'));
    assert_eq!(app.selected, Some(1));
}

#[test]
fn down_then_up_returns() {
    let mut app = sprint(5);
    for start in 0..5 {
        app.selected = Some(start);
        press(&mut app, Key::Down);
        press(&mut app, Key::Up);
        assert_eq!(app.selected, Some(start));
    }
}

#[test]
fn moving_down_len_times_cycles() {
    let mut app = sprint(4);
    app.selected = Some(2);
    for _ in 0..4 {
        press(&mut app, Key::Down);
    }
    assert_eq!(app.selected, Some(2));
}

#[test]
fn navigation_clears_status_and_works_on_empty_list() {
    let mut app = sprint(0);
    app.status_msg = "old".to_string();
    press(&mut app, Key::Down);
    assert_eq!(app.selected, Some(0));
    assert_eq!(app.status_msg, "");
    press(&mut app, Key::Up);
    assert_eq!(app.selected, Some(0));
}

#[test]
fn releases_and_other_keys_change_nothing() {
    let mut app = sprint(2);
    assert!(matches!(app.handle_key(KeyKind::Release, Key::Char('q')), KeyAction::Nothing));
    assert!(matches!(app.handle_key(KeyKind::Repeat, Key::Down), KeyAction::Nothing));
    assert!(matches!(press(&mut app, Key::Char('x')), KeyAction::Nothing));
    assert!(matches!(press(&mut app, Key::Left), KeyAction::Nothing));
    assert!(!app.exit);
    assert_eq!(app.selected, Some(0));
}

#[test]
fn quit_keys() {
    for key in [Key::Char('q'), Key::Char('Q'), Key::Esc] {
        let mut app = sprint(1);
        press(&mut app, key);
        assert!(app.exit);
    }
}

#[test]
fn load_selected_starts_and_finishes() {
    let mut app = SprintApp::new(
        "S".to_string(),
        String::new(),
        "1".to_string(),
        vec![pbi("A-1", "To Do"), pbi("A-2", "To Do")],
    );
    press(&mut app, Key::Down);
    let (index, key) = match press(&mut app, Key::Char('l')) {
        KeyAction::LoadItem { index, key } => (index, key),
        _ => panic!("expected a load"),
    };
    assert_eq!((index, key.as_str()), (1, "A-2"));
    assert_eq!(app.loading_idx, Some(1));
    assert_eq!(app.status_msg, "Loading A-2…");
    let resp = json::parse(r#"{"fields": {"status": {"name": "Done"}}}"#).unwrap();
    let mut moved = SprintApp::new("S".to_string(), String::new(), "1".to_string(), vec![pbi("A-1", "Done"), pbi("A-2", "To Do")]);
    assert!(moved.finish_load_selected(0, "A-1", Ok(&resp)));
    // A-1 is Done now and moves behind A-2.
    assert_eq!(moved.pbis[0].key, "A-2");
    assert_eq!(moved.pbis[1].key, "A-1");
    assert!(moved.pbis[1].loaded);
    assert!(app.finish_load_selected(index, &key, Ok(&resp)));
    assert_eq!(app.status_msg, "Loaded A-2");
    assert_eq!(app.loading_idx, None);
    assert_eq!(app.pbis[1].status, "Done");
}

#[test]
fn load_selected_error_leaves_items() {
    let mut app = sprint(2);
    press(&mut app, Key::Char('l'));
    assert!(!app.finish_load_selected(0, "K-0", Err("timeout")));
    assert_eq!(app.status_msg, "Error loading K-0: timeout");
    assert_eq!(app.loading_idx, None);
    assert!(!app.pbis[0].loaded);
}

#[test]
fn load_with_nothing_selected_does_nothing() {
    let mut app = sprint(0);
    assert!(matches!(press(&mut app, Key::Char('l')), KeyAction::Nothing));
    assert_eq!(app.loading_idx, None);
}

#[test]
fn load_all_starts_once() {
    let mut app = sprint(3);
    let items = match press(&mut app, Key::Char('L')) {
        KeyAction::LoadAll(items) => items,
        _ => panic!("expected load all"),
    };
    assert_eq!(items.len(), 3);
    assert_eq!(items[2].0, 2);
    assert_eq!(items[2].1.key, "K-2");
    assert_eq!(app.status_msg, "Loading all 3 items…");
    assert!(app.loading_all);
    assert!(matches!(press(&mut app, Key::Char('L')), KeyAction::Nothing));
}

#[test]
fn load_messages_update_the_view() {
    let mut app = sprint(2);
    press(&mut app, Key::Char('L'));
    assert!(!app.apply_load_message(LoadMsg::Progress(0)));
    assert_eq!(app.loading_idx, Some(0));
    let mut done = pbi("K-0", "Done");
    done.loaded = true;
    assert!(!app.apply_load_message(LoadMsg::ItemDone(0, done)));
    assert_eq!(app.status_msg, "Loaded 1/2");
    assert!(app.pbis[0].loaded);
    assert_eq!(app.pbis[1].key, "K-1");
    assert!(!app.apply_load_message(LoadMsg::ItemError(1, "boom".to_string())));
    assert_eq!(app.status_msg, "Error K-1: boom");
    assert!(!app.apply_load_message(LoadMsg::ItemError(7, "gone".to_string())));
    assert_eq!(app.status_msg, "Error ?: gone");
    assert!(!app.apply_load_message(LoadMsg::ItemDone(9, pbi("Z", "Done"))));
    assert_eq!(app.status_msg, "Loaded 10/2");
    assert_eq!(app.pbis.len(), 2);
    assert!(app.apply_load_message(LoadMsg::AllDone));
    assert_eq!(app.status_msg, "All 2 items loaded");
    assert_eq!(app.loading_idx, None);
    assert!(!app.loading_all);
    assert_eq!(app.pbis[0].key, "K-1");
    assert_eq!(app.pbis[1].key, "K-0");
}

#[test]
fn drawing_decisions() {
    let mut app = sprint(2);
    assert_eq!(app.goal_height(), 3);
    app.sprint_goal.clear();
    assert_eq!(app.goal_height(), 0);
    assert_eq!(app.items_title(), " 2 items ");
    assert_eq!(app.footer_status(), "");
    app.status_msg = "hi".to_string();
    assert_eq!(app.footer_status(), "  [hi]");
    app.loading_idx = Some(1);
    app.pbis[0].loaded = true;
    app.pbis[1].loaded = true;
    assert_eq!(app.row_indicator(0), RowIndicator::Loaded);
    assert_eq!(app.row_indicator(1), RowIndicator::Loading);
    app.pbis[0].loaded = false;
    assert_eq!(app.row_indicator(0), RowIndicator::Blank);
}

#[test]
fn status_colors() {
    assert_eq!(status_color("Done"), StatusColor::Green);
    assert_eq!(status_color("CLOSED"), StatusColor::Green);
    assert_eq!(status_color("Resolved"), StatusColor::White);
    assert_eq!(status_color("In Progress"), StatusColor::Blue);
    assert_eq!(status_color("In Review"), StatusColor::Magenta);
    assert_eq!(status_color("Blocked"), StatusColor::Red);
    assert_eq!(status_color("Review in progress"), StatusColor::Blue);
    assert_eq!(status_color("To Do"), StatusColor::White);
}

#[test]
fn counter_app_keys() {
    let mut app = App::default();
    assert_eq!(app.counter, 0);
    app.handle_key_event(KeyKind::Press, Key::Left);
    assert_eq!(app.counter, 0);
    app.handle_key_event(KeyKind::Press, Key::Right);
    app.handle_key_event(KeyKind::Press, Key::Right);
    assert_eq!(app.counter, 2);
    app.handle_key_event(KeyKind::Release, Key::Right);
    assert_eq!(app.counter, 2);
    app.handle_key_event(KeyKind::Press, Key::Left);
    assert_eq!(app.counter, 1);
    app.counter = 255;
    app.handle_key_event(KeyKind::Press, Key::Right);
    assert_eq!(app.counter, 255);
    app.handle_key_event(KeyKind::Press, Key::Esc);
    assert!(!app.exit);
    app.handle_key_event(KeyKind::Press, Key::Char('Q'));
    assert!(app.exit);
    app.handle_key_event(KeyKind::Press, Key::Left);
    assert!(app.exit);
}

#[test]
fn counter_right_then_left_returns() {
    for start in [0u8, 1, 100, 254] {
        let mut app = App::default();
        app.counter = start;
        app.handle_key_event(KeyKind::Press, Key::Right);
        app.handle_key_event(KeyKind::Press, Key::Left);
        assert_eq!(app.counter, start);
    }
}

#[test]
fn commands() {
    assert!(matches!(transition_command("T-1".to_string(), true, None),
        JiraCommand::ListTransitions { ticket } if ticket == "T-1"));
    assert!(matches!(transition_command("T-1".to_string(), false, Some("Done".to_string())),
        JiraCommand::MoveTicket { ticket, status } if ticket == "T-1" && status == "Done"));
    assert!(matches!(detail_command("T-2".to_string(), None),
        JiraCommand::ShowDetails { fields, .. } if fields == "key,summary,description"));
    assert!(matches!(detail_command("T-2".to_string(), Some("key".to_string())),
        JiraCommand::ShowDetails { fields, .. } if fields == "key"));
    assert!(matches!(comments_command("T-3".to_string(), true), JiraCommand::ListComments { .. }));
    assert!(matches!(comments_command("T-3".to_string(), false), JiraCommand::AddComment { .. }));
}

#[test]
fn status_colors_ignore_ascii_case() {
    for s in ["done", "DONE", "Done", "dOnE"] {
        assert_eq!(status_color(s), StatusColor::Green);
    }
    assert_eq!(status_color("IN PROGRESS"), StatusColor::Blue);
    assert_eq!(status_color("in review"), StatusColor::Magenta);
    assert_eq!(status_color("BLOCKED"), StatusColor::Red);
}

#[test]
fn lowered_color_reads_lowercase_text() {
    assert_eq!(lowered_color("done"), StatusColor::Green);
    assert_eq!(lowered_color("closed"), StatusColor::Green);
    assert_eq!(lowered_color("in progress"), StatusColor::Blue);
    assert_eq!(lowered_color("in review"), StatusColor::Magenta);
    assert_eq!(lowered_color("blocked"), StatusColor::Red);
    assert_eq!(lowered_color("to do"), StatusColor::White);
    assert_eq!(lowered_color("Done"), StatusColor::White);
}

#[test]
fn pending_messages_without_all_done_keep_the_worker() {
    let mut app = sprint(3);
    press(&mut app, Key::Char('L'));
    let mut done = pbi("K-2", "Done");
    done.loaded = true;
    let save = app.process_load_messages(vec![
        LoadMsg::Progress(2),
        LoadMsg::ItemDone(2, done),
        LoadMsg::ItemError(0, "boom".to_string()),
    ]);
    assert!(!save);
    assert!(app.loading_all);
    assert_eq!(app.pbis.len(), 3);
    assert_eq!(app.pbis[0].key, "K-0");
    assert_eq!(app.pbis[1].key, "K-1");
    assert_eq!(app.pbis[2].key, "K-2");
    assert!(app.pbis[2].loaded && !app.pbis[0].loaded);
    assert_eq!(app.status_msg, "Error K-0: boom");
    assert!(!app.process_load_messages(Vec::new()));
    assert!(app.loading_all);
}

#[test]
fn pending_messages_stop_at_all_done() {
    let mut app = sprint(2);
    press(&mut app, Key::Char('L'));
    let mut done = pbi("K-0", "Done");
    done.loaded = true;
    let save = app.process_load_messages(vec![
        LoadMsg::Progress(0),
        LoadMsg::ItemDone(0, done),
        LoadMsg::AllDone,
        LoadMsg::ItemError(1, "late".to_string()),
    ]);
    assert!(save);
    assert!(!app.loading_all);
    assert_eq!(app.loading_idx, None);
    assert_eq!(app.status_msg, "All 2 items loaded");
    assert_eq!(app.pbis.len(), 2);
    assert_eq!(app.pbis[0].key, "K-1");
    assert_eq!(app.pbis[1].key, "K-0");
}

#[test]
fn sync_selection_follows_the_table() {
    let mut app = sprint(3);
    app.selected = Some(7);
    app.sync_selection();
    assert_eq!(app.selected, Some(2));
    app.sync_selection();
    assert_eq!(app.selected, Some(2));
    app.selected = Some(1);
    app.sync_selection();
    assert_eq!(app.selected, Some(1));
    app.selected = None;
    app.sync_selection();
    assert_eq!(app.selected, None);
    assert_eq!(app.pbis.len(), 3);

    let mut empty = sprint(0);
    press(&mut empty, Key::Char('j'));
    assert_eq!(empty.selected, Some(0));
    empty.sync_selection();
    assert_eq!(empty.selected, None);
    assert!(matches!(press(&mut empty, Key::Char('l')), KeyAction::Nothing));
}

#[test]
fn pending_messages_follow_each_message_in_order() {
    let mut app = sprint(3);
    press(&mut app, Key::Char('L'));
    let before = app.status_msg.clone();
    assert!(!app.process_load_messages(Vec::new()));
    assert_eq!(app.status_msg, before);
    assert_eq!(app.loading_idx, None);

    assert!(!app.process_load_messages(vec![
        LoadMsg::Progress(1),
        LoadMsg::ItemError(5, "gone".to_string()),
    ]));
    assert_eq!(app.loading_idx, Some(1));
    assert_eq!(app.status_msg, "Error ?: gone");

    let mut loaded = pbi("NEW-1", "In Progress");
    loaded.loaded = true;
    assert!(!app.process_load_messages(vec![LoadMsg::ItemDone(1, loaded)]));
    assert_eq!(app.status_msg, "Loaded 2/3");
    assert_eq!(app.pbis[1].key, "NEW-1");
    assert!(app.pbis[1].loaded);
    assert_eq!(app.loading_idx, Some(1));

    assert!(!app.process_load_messages(vec![LoadMsg::ItemDone(8, pbi("X", "Done"))]));
    assert_eq!(app.status_msg, "Loaded 9/3");
    let keys: Vec<&str> = app.pbis.iter().map(|p| p.key.as_str()).collect();
    assert_eq!(keys, vec!["K-0", "NEW-1", "K-2"]);

    assert!(app.process_load_messages(vec![LoadMsg::AllDone]));
    let keys: Vec<&str> = app.pbis.iter().map(|p| p.key.as_str()).collect();
    assert_eq!(keys, vec!["K-0", "K-2", "NEW-1"]);
    assert_eq!(app.status_msg, "All 3 items loaded");
}
