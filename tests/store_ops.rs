use todo::store::{add, clear_completed, complete, id_space_left, list, next_id, remove};
use todo::task::Task;

fn task(id: u64, text: &str, done: bool, created_at: u64) -> Task {
    Task { id, text: text.to_string(), done, created_at }
}

#[test]
fn adds_from_empty_count_from_one() {
    let mut tasks: Vec<Task> = Vec::new();
    let a = add(&mut tasks, "buy milk".to_string(), 100);
    let b = add(&mut tasks, "walk dog".to_string(), 200);
    let c = add(&mut tasks, "write letter".to_string(), 300);
    assert_eq!((a, b, c), (1, 2, 3));
    assert_eq!(
        tasks,
        vec![
            task(1, "buy milk", false, 100),
            task(2, "walk dog", false, 200),
            task(3, "write letter", false, 300),
        ]
    );
}

#[test]
fn next_id_of_empty_is_one() {
    assert_eq!(next_id(&[]), 1);
}

#[test]
fn next_id_is_one_past_the_largest() {
    let tasks = vec![task(5, "a", false, 0), task(3, "b", true, 0), task(4, "c", false, 0)];
    assert_eq!(next_id(&tasks), 6);
}

#[test]
fn id_space_runs_out_at_the_largest_id() {
    assert!(id_space_left(&[]));
    assert!(id_space_left(&[task(u64::MAX - 1, "a", false, 0)]));
    assert!(!id_space_left(&[task(3, "a", false, 0), task(u64::MAX, "b", false, 0)]));
}

#[test]
fn add_accepts_empty_text() {
    let mut tasks = vec![task(7, "x", true, 1)];
    let id = add(&mut tasks, String::new(), 9);
    assert_eq!(id, 8);
    assert_eq!(tasks[1], task(8, "", false, 9));
}

#[test]
fn list_filters_completed_unless_asked() {
    let tasks = vec![task(1, "a", true, 0), task(2, "b", false, 0), task(3, "c", false, 0)];
    assert_eq!(list(&tasks, false), vec![task(2, "b", false, 0), task(3, "c", false, 0)]);
    assert_eq!(list(&tasks, true), tasks);
}

#[test]
fn list_twice_gives_the_same_sequence() {
    let tasks = vec![task(1, "a", true, 0), task(2, "b", false, 0)];
    for include_done in [false, true] {
        let first = list(&tasks, include_done);
        let second = list(&tasks, include_done);
        assert_eq!(first, second);
    }
}

#[test]
fn list_of_only_done_tasks_is_empty_without_all() {
    let tasks = vec![task(1, "a", true, 0)];
    assert!(list(&tasks, false).is_empty());
    assert_eq!(list(&tasks, true).len(), 1);
}

#[test]
fn complete_twice_keeps_done_and_succeeds() {
    let mut tasks = vec![task(1, "a", false, 0), task(2, "b", false, 0)];
    assert!(complete(&mut tasks, 2));
    assert!(tasks[1].done);
    assert!(complete(&mut tasks, 2));
    assert!(tasks[1].done);
    assert!(!tasks[0].done);
}

#[test]
fn complete_missing_id_changes_nothing() {
    let mut tasks = vec![task(1, "a", false, 0)];
    assert!(!complete(&mut tasks, 9));
    assert_eq!(tasks, vec![task(1, "a", false, 0)]);
}

#[test]
fn complete_marks_only_the_first_duplicate() {
    let mut tasks = vec![task(4, "a", false, 0), task(4, "b", false, 0)];
    assert!(complete(&mut tasks, 4));
    assert_eq!(tasks, vec![task(4, "a", true, 0), task(4, "b", false, 0)]);
}

#[test]
fn remove_twice_reports_then_misses() {
    let mut tasks = vec![task(1, "a", false, 0), task(2, "b", true, 0), task(3, "c", false, 0)];
    assert!(remove(&mut tasks, 2));
    assert_eq!(tasks.len(), 2);
    assert!(!remove(&mut tasks, 2));
    assert_eq!(tasks, vec![task(1, "a", false, 0), task(3, "c", false, 0)]);
}

#[test]
fn remove_drops_every_duplicate() {
    let mut tasks = vec![task(4, "a", false, 0), task(5, "b", false, 0), task(4, "c", false, 0)];
    assert!(remove(&mut tasks, 4));
    assert_eq!(tasks, vec![task(5, "b", false, 0)]);
}

#[test]
fn clear_completed_keeps_open_tasks() {
    let mut tasks = vec![task(1, "a", true, 0), task(2, "b", false, 0), task(3, "c", true, 0)];
    assert_eq!(clear_completed(&mut tasks), 2);
    assert_eq!(tasks, vec![task(2, "b", false, 0)]);
}

#[test]
fn clear_completed_with_nothing_done_removes_none() {
    let mut tasks = vec![task(1, "a", false, 0)];
    assert_eq!(clear_completed(&mut tasks), 0);
    assert_eq!(tasks, vec![task(1, "a", false, 0)]);
    let mut empty: Vec<Task> = Vec::new();
    assert_eq!(clear_completed(&mut empty), 0);
}

#[test]
fn removed_largest_id_is_handed_out_again() {
    let mut tasks: Vec<Task> = Vec::new();
    assert_eq!(add(&mut tasks, "a".to_string(), 0), 1);
    assert_eq!(add(&mut tasks, "b".to_string(), 0), 2);
    assert!(remove(&mut tasks, 2));
    let id = add(&mut tasks, "c".to_string(), 0);
    assert_eq!(id, 2);
    assert!(tasks.iter().take(tasks.len() - 1).all(|t| t.id < id));
}

#[test]
fn copy_keeps_every_field() {
    let t = task(3, "x", true, 42);
    assert_eq!(t.copy(), t);
    assert_eq!(Task::new(3, "x".to_string(), 42), task(3, "x", false, 42));
}
