use todoclist::app::{App, AppError};
use todoclist::todoist::{DueDate, PendingChange, Task};

fn task(id: &str, content: &str, completed: bool) -> Task {
    Task {
        id: id.to_string(),
        content: content.to_string(),
        description: String::new(),
        is_completed: completed,
        labels: Vec::new(),
        due: None,
    }
}

fn due_task(id: &str, date: &str) -> Task {
    Task {
        id: id.to_string(),
        content: id.to_string(),
        description: String::new(),
        is_completed: false,
        labels: Vec::new(),
        due: Some(DueDate { string: date.to_string(), date: date.to_string() }),
    }
}

fn today() -> String {
    "2024-05-01".to_string()
}

#[test]
fn test_toggle_task_completion() {
    let mut app = App {
        tasks: vec![Task {
            id: "1".to_string(),
            content: "Test task".to_string(),
            description: "".to_string(),
            is_completed: false,
            labels: vec![],
            due: None,
        }],
        ..Default::default()
    };

    // Initial state
    assert!(!app.tasks[0].is_completed);

    // First toggle
    app.toggle_task_completion("1".to_string(), &today()).unwrap();
    assert!(app.tasks[0].is_completed);

    // Test error case
    assert!(app.toggle_task_completion("999".to_string(), &today()).is_err());
}

#[test]
fn toggle_missing_id_fails_without_mutation() {
    let mut app = App { tasks: vec![task("1", "one", false)], ..Default::default() };
    app.selected_task = Some("1".to_string());
    let r = app.toggle_task_completion("999".to_string(), &today());
    match r {
        Err(AppError::TaskNotFound(id)) => assert_eq!(id, "999"),
        _ => panic!("expected TaskNotFound"),
    }
    assert_eq!(app.tasks.len(), 1);
    assert!(!app.tasks[0].is_completed);
    assert!(app.pending_changes.is_empty());
    assert_eq!(app.selected_task, Some("1".to_string()));
}

#[test]
fn toggle_enqueues_change_and_reselects() {
    let mut app = App {
        tasks: vec![task("a", "one", false), task("b", "two", false), task("c", "three", false)],
        ..Default::default()
    };
    app.selected_task = Some("b".to_string());
    app.toggle_task_completion("b".to_string(), &today()).unwrap();
    assert!(app.tasks[1].is_completed);
    assert_eq!(app.pending_changes.len(), 1);
    match &app.pending_changes[0] {
        PendingChange::TaskCompletion { task_id, completed } => {
            assert_eq!(task_id, "b");
            assert!(*completed);
        },
    }
    // The row now occupying the toggled task's place in the general view.
    assert_eq!(app.selected_task, Some("c".to_string()));
}

#[test]
fn toggle_last_visible_task_wraps_selection_to_first() {
    let mut app = App {
        tasks: vec![task("a", "one", false), task("b", "two", false)],
        ..Default::default()
    };
    app.toggle_task_completion("b".to_string(), &today()).unwrap();
    assert_eq!(app.selected_task, Some("a".to_string()));
}

#[test]
fn toggle_only_task_leaves_no_selection() {
    let mut app = App { tasks: vec![task("a", "one", false)], ..Default::default() };
    app.toggle_task_completion("a".to_string(), &today()).unwrap();
    assert_eq!(app.selected_task, None);
}

#[test]
fn toggle_in_today_view_reselects_there() {
    let t = today();
    let mut app = App {
        tasks: vec![due_task("d1", &t), task("a", "plain", false), due_task("d2", &t)],
        ..Default::default()
    };
    app.today_index = Some(0);
    app.selected_task = Some("d1".to_string());
    app.toggle_task_completion("d1".to_string(), &t).unwrap();
    // The due-today view now holds only "d2", which takes the vacated row.
    assert_eq!(app.selected_task, Some("d2".to_string()));
}

#[test]
fn toggle_emptying_the_today_view_clears_selection() {
    let t = today();
    let mut app = App {
        tasks: vec![due_task("d", &t), task("a", "plain", false)],
        ..Default::default()
    };
    app.today_index = Some(0);
    app.selected_task = Some("d".to_string());
    app.toggle_task_completion("d".to_string(), &t).unwrap();
    assert!(app.tasks[0].is_completed);
    // The due-today view became empty: the selection does not jump to the
    // remaining general-view task.
    assert_eq!(app.selected_task, None);
}

#[test]
fn restore_session_adopts_the_stored_credential() {
    let mut app = App::new();
    app.restore_session("stored-key".to_string(), 30);
    assert_eq!(app.api_key, Some("stored-key".to_string()));
    assert!(app.onboarding_complete);
    assert_eq!(app.refresh_interval, 30);
    assert!(app.running);
    assert!(app.tasks.is_empty());
}

#[test]
fn navigation_wraps_forward() {
    let mut app = App {
        tasks: vec![task("a", "one", false), task("b", "two", false), task("c", "three", false)],
        ..Default::default()
    };
    app.general_index = Some(2);
    app.next(&today());
    assert_eq!(app.general_index, Some(0));
    assert_eq!(app.selected_task, Some("a".to_string()));
}

#[test]
fn navigation_wraps_backward() {
    let mut app = App {
        tasks: vec![task("a", "one", false), task("b", "two", false), task("c", "three", false)],
        ..Default::default()
    };
    app.general_index = Some(0);
    app.previous(&today());
    assert_eq!(app.general_index, Some(2));
    assert_eq!(app.selected_task, Some("c".to_string()));
}

#[test]
fn navigation_on_empty_view_clears_selection() {
    let mut app = App::new();
    app.general_index = Some(1);
    app.selected_task = Some("ghost".to_string());
    app.next(&today());
    assert_eq!(app.general_index, None);
    assert_eq!(app.selected_task, None);

    let mut app = App::new();
    app.general_index = Some(0);
    app.previous(&today());
    assert_eq!(app.general_index, None);
    assert_eq!(app.selected_task, None);
}

#[test]
fn navigation_defaults_to_today_view() {
    let t = today();
    let mut app = App {
        tasks: vec![task("a", "one", false), due_task("d", &t)],
        ..Default::default()
    };
    app.next(&t);
    assert_eq!(app.today_index, Some(0));
    assert_eq!(app.general_index, None);
    assert_eq!(app.selected_task, Some("d".to_string()));
}

#[test]
fn navigation_falls_back_to_general_view() {
    let mut app = App { tasks: vec![task("a", "one", false)], ..Default::default() };
    app.next(&today());
    assert_eq!(app.general_index, Some(0));
    assert_eq!(app.today_index, None);
    assert_eq!(app.selected_task, Some("a".to_string()));
}

#[test]
fn navigation_skips_completed_tasks() {
    let mut app = App {
        tasks: vec![task("a", "one", true), task("b", "two", false), task("c", "three", false)],
        ..Default::default()
    };
    app.general_index = Some(0);
    app.next(&today());
    // The general view holds only "b" and "c"; from row 0 the next row is 1.
    assert_eq!(app.general_index, Some(1));
    assert_eq!(app.selected_task, Some("c".to_string()));
}

#[test]
fn focus_right_clears_today_cursor_and_seeds_general() {
    let mut app = App {
        tasks: vec![task("a", "one", false), task("b", "two", false)],
        ..Default::default()
    };
    app.today_index = Some(1);
    app.focus_right();
    assert_eq!(app.today_index, None);
    assert_eq!(app.general_index, Some(0));
    assert_eq!(app.selected_task, Some("a".to_string()));
}

#[test]
fn focus_right_on_empty_store_sets_no_cursor() {
    let mut app = App::new();
    app.today_index = Some(0);
    app.focus_right();
    assert_eq!(app.today_index, None);
    assert_eq!(app.general_index, None);
}

#[test]
fn focus_left_clears_general_cursor_and_seeds_today() {
    let t = today();
    let mut app = App {
        tasks: vec![task("a", "one", false), due_task("d", &t)],
        ..Default::default()
    };
    app.general_index = Some(0);
    app.focus_left(&t);
    assert_eq!(app.general_index, None);
    assert_eq!(app.today_index, Some(0));
    assert_eq!(app.selected_task, Some("d".to_string()));
}

#[test]
fn drain_is_atomic_and_total() {
    let mut app = App::new();
    app.enqueue(PendingChange::TaskCompletion { task_id: "1".to_string(), completed: true });
    app.enqueue(PendingChange::TaskCompletion { task_id: "2".to_string(), completed: false });
    app.enqueue(PendingChange::TaskCompletion { task_id: "1".to_string(), completed: false });
    let drained = app.drain();
    assert_eq!(drained.len(), 3);
    let expected = [("1", true), ("2", false), ("1", false)];
    for (change, (id, completed)) in drained.iter().zip(expected.iter()) {
        match change {
            PendingChange::TaskCompletion { task_id, completed: c } => {
                assert_eq!(task_id, id);
                assert_eq!(c, completed);
            },
        }
    }
    assert!(app.pending_changes.is_empty());
    assert!(app.drain().is_empty());
}

#[test]
fn apply_snapshot_merges_into_store() {
    let mut app = App { tasks: vec![task("1", "A", true)], ..Default::default() };
    let fetched = vec![task("1", "A'", false), task("2", "B", false)];
    app.apply_snapshot(&fetched);
    assert_eq!(app.tasks.len(), 2);
    assert!(app.tasks[0].is_completed);
    assert_eq!(app.tasks[0].content, "A'");
    assert_eq!(app.tasks[1].id, "2");
}

#[test]
fn today_tasks_filters_by_date() {
    let t = today();
    let mut with_other_date = due_task("other", "2030-12-31");
    with_other_date.id = "other".to_string();
    let app = App {
        tasks: vec![due_task("d1", &t), task("plain", "no due", false), with_other_date, due_task("d2", &t)],
        ..Default::default()
    };
    let todays = app.today_tasks(&t);
    assert_eq!(todays.len(), 2);
    assert_eq!(todays[0].id, "d1");
    assert_eq!(todays[1].id, "d2");
}

#[test]
fn counter_saturates_at_bounds() {
    let mut app = App::new();
    assert_eq!(app.counter, 0);
    app.decrement_counter();
    assert_eq!(app.counter, 0);
    app.increment_counter();
    assert_eq!(app.counter, 1);
    app.counter = 255;
    app.increment_counter();
    assert_eq!(app.counter, 255);
    app.decrement_counter();
    assert_eq!(app.counter, 254);
}

#[test]
fn quit_and_defaults() {
    let mut app = App::new();
    assert!(app.running);
    assert!(!app.onboarding_complete);
    assert_eq!(app.refresh_interval, 10);
    assert_eq!(app.api_key, None);
    assert!(app.tasks.is_empty());
    assert!(app.pending_changes.is_empty());
    app.quit();
    assert!(!app.running);
}

#[test]
fn error_message_names_the_task() {
    let e = AppError::TaskNotFound("42".to_string());
    assert_eq!(e.message(), "Task with id 42 not found");
}
