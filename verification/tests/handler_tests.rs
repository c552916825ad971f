use todoclist::app::App;
use todoclist::handler::{handle_key_events, KeyAction, KeyInput};
use todoclist::todoist::{PendingChange, Task};

fn task(id: &str, completed: bool) -> Task {
    Task {
        id: id.to_string(),
        content: id.to_string(),
        description: String::new(),
        is_completed: completed,
        labels: Vec::new(),
        due: None,
    }
}

fn today() -> String {
    "2024-05-01".to_string()
}

#[test]
fn onboarding_edits_input_buffer() {
    let mut app = App::new();
    let t = today();
    for c in ['a', 'b', 'c'] {
        let action = handle_key_events(KeyInput::Char(c), &mut app, &t);
        assert!(matches!(action, KeyAction::NoAction));
    }
    assert_eq!(app.input_buffer, "abc");
    handle_key_events(KeyInput::Backspace, &mut app, &t);
    assert_eq!(app.input_buffer, "ab");
}

#[test]
fn onboarding_enter_asks_to_save_a_nonempty_key() {
    let mut app = App::new();
    let t = today();
    let action = handle_key_events(KeyInput::Enter, &mut app, &t);
    assert!(matches!(action, KeyAction::NoAction));
    handle_key_events(KeyInput::Char('k'), &mut app, &t);
    let action = handle_key_events(KeyInput::Enter, &mut app, &t);
    assert!(matches!(action, KeyAction::SaveKey));
    app.complete_onboarding();
    assert_eq!(app.api_key, Some("k".to_string()));
    assert!(app.onboarding_complete);
}

#[test]
fn quit_key_drains_queue_and_stops() {
    let mut app = App::new();
    app.onboarding_complete = true;
    app.enqueue(PendingChange::TaskCompletion { task_id: "1".to_string(), completed: true });
    app.enqueue(PendingChange::TaskCompletion { task_id: "2".to_string(), completed: true });
    let action = handle_key_events(KeyInput::Char('q'), &mut app, &today());
    match action {
        KeyAction::Deliver(changes) => assert_eq!(changes.len(), 2),
        _ => panic!("expected the drained changes"),
    }
    assert!(!app.running);
    assert!(app.pending_changes.is_empty());
}

#[test]
fn arrow_keys_navigate() {
    let mut app = App { tasks: vec![task("a", false), task("b", false)], ..Default::default() };
    app.onboarding_complete = true;
    let t = today();
    handle_key_events(KeyInput::Right, &mut app, &t);
    assert_eq!(app.general_index, Some(0));
    handle_key_events(KeyInput::Down, &mut app, &t);
    assert_eq!(app.general_index, Some(1));
    assert_eq!(app.selected_task, Some("b".to_string()));
    handle_key_events(KeyInput::Up, &mut app, &t);
    assert_eq!(app.general_index, Some(0));
    assert_eq!(app.selected_task, Some("a".to_string()));
    handle_key_events(KeyInput::Left, &mut app, &t);
    assert_eq!(app.general_index, None);
}

#[test]
fn space_toggles_the_selected_task() {
    let mut app = App { tasks: vec![task("a", false), task("b", false)], ..Default::default() };
    app.onboarding_complete = true;
    app.selected_task = Some("a".to_string());
    let action = handle_key_events(KeyInput::Char(' '), &mut app, &today());
    assert!(matches!(action, KeyAction::NoAction));
    assert!(app.tasks[0].is_completed);
    assert_eq!(app.pending_changes.len(), 1);
}

#[test]
fn space_with_a_stale_selection_changes_nothing() {
    let mut app = App { tasks: vec![task("a", false)], ..Default::default() };
    app.onboarding_complete = true;
    app.selected_task = Some("vanished".to_string());
    handle_key_events(KeyInput::Char(' '), &mut app, &today());
    assert!(!app.tasks[0].is_completed);
    assert!(app.pending_changes.is_empty());
}

#[test]
fn other_keys_do_nothing() {
    let mut app = App { tasks: vec![task("a", false)], ..Default::default() };
    app.onboarding_complete = true;
    let action = handle_key_events(KeyInput::Other, &mut app, &today());
    assert!(matches!(action, KeyAction::NoAction));
    assert!(app.running);
    assert_eq!(app.general_index, None);
}
