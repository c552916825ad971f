use todoclist::reconcile::merge;
use todoclist::todoist::Task;

fn task(id: &str, content: &str, completed: bool) -> Task {
    Task {
        id: id.to_string(),
        content: content.to_string(),
        description: String::new(),
        is_completed: completed,
        labels: Vec::new(),
        due: None,
    }
}

#[test]
fn merge_preserves_local_completion() {
    let current = vec![task("1", "A", true)];
    let fetched = vec![task("1", "A'", false)];
    let merged = merge(&current, &fetched);
    assert_eq!(merged.len(), 1);
    assert_eq!(merged[0].id, "1");
    assert_eq!(merged[0].content, "A'");
    assert!(merged[0].is_completed);
}

#[test]
fn merge_drops_vanished_tasks() {
    let current = vec![task("1", "one", false), task("2", "two", false)];
    let fetched = vec![task("1", "one", false)];
    let merged = merge(&current, &fetched);
    assert_eq!(merged.len(), 1);
    assert_eq!(merged[0].id, "1");
}

#[test]
fn merge_inserts_new_tasks() {
    let current: Vec<Task> = Vec::new();
    let fetched = vec![task("X", "fresh", false)];
    let merged = merge(&current, &fetched);
    assert_eq!(merged.len(), 1);
    assert_eq!(merged[0].id, "X");
    assert_eq!(merged[0].content, "fresh");
    assert!(!merged[0].is_completed);
}

#[test]
fn merge_empty_snapshot_collapses_store() {
    let current = vec![task("1", "one", false), task("2", "two", true)];
    let fetched: Vec<Task> = Vec::new();
    let merged = merge(&current, &fetched);
    assert!(merged.is_empty());
}

#[test]
fn merge_keeps_fetch_order_and_other_fields() {
    let mut with_desc = task("2", "two", false);
    with_desc.description = "newer words".to_string();
    with_desc.labels = vec!["urgent".to_string()];
    let current = vec![task("2", "old", true), task("3", "three", false)];
    let fetched = vec![task("3", "three", false), with_desc];
    let merged = merge(&current, &fetched);
    assert_eq!(merged.len(), 2);
    assert_eq!(merged[0].id, "3");
    assert!(!merged[0].is_completed);
    assert_eq!(merged[1].id, "2");
    assert_eq!(merged[1].content, "two");
    assert_eq!(merged[1].description, "newer words");
    assert_eq!(merged[1].labels, vec!["urgent".to_string()]);
    assert!(merged[1].is_completed);
}
