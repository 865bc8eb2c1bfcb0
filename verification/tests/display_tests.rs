//! Tests of the display engine: recompute, path resolution, focus, folding
//! and the scenarios the engine's contract promises.

use cyberorganism::display_container::{DisplayContainerState, TaskIndex};
use cyberorganism::tasks::{find_nearest_sibling, Task, TaskContainer, TaskStatus};

fn task(id: u32, content: &str) -> Task {
    Task::new(id, content.to_string())
}

fn child_task(id: u32, content: &str, parent: u32) -> Task {
    Task {
        id,
        content: content.to_string(),
        created_at: 0,
        container: TaskContainer::Taskpad,
        status: TaskStatus::Todo,
        parent_id: Some(parent),
        child_ids: Vec::new(),
    }
}

/// Tasks [A(top), B(top), C(child of A)], collection order A, B, C.
fn abc_tasks() -> Vec<Task> {
    let mut a = task(1, "A");
    a.child_ids.push(3);
    let b = task(2, "B");
    let c = child_task(3, "C", 1);
    vec![a, b, c]
}

#[test]
fn test_task_index_from_str() {
    let ti = TaskIndex::from_str("1.2.3").unwrap();
    assert_eq!(ti.path, vec![1, 2, 3]);

    // Trailing dots are ignored, however many
    let ti = TaskIndex::from_str("1.2.").unwrap();
    assert_eq!(ti.path, vec![1, 2]);
    let ti = TaskIndex::from_str("1...").unwrap();
    assert_eq!(ti.path, vec![1]);

    // `str::parse` accepts a leading plus
    let ti = TaskIndex::from_str("+2").unwrap();
    assert_eq!(ti.path, vec![2]);

    // Zero positions are rejected
    assert_eq!(
        TaskIndex::from_str("1.0").unwrap_err(),
        "Task indices must be positive".to_string()
    );

    // Non-numeric segments are rejected
    assert_eq!(
        TaskIndex::from_str("1.x").unwrap_err(),
        "Invalid task index format".to_string()
    );
    assert_eq!(TaskIndex::from_str("").unwrap_err(), "Invalid task index format".to_string());
    assert_eq!(
        TaskIndex::from_str("1..2").unwrap_err(),
        "Invalid task index format".to_string()
    );

    // Values beyond the machine word are rejected like any malformed number
    assert_eq!(
        TaskIndex::from_str("99999999999999999999999999").unwrap_err(),
        "Invalid task index format".to_string()
    );
}

#[test]
fn test_task_index_path_string() {
    let ti = TaskIndex::from_str("1.2.3").unwrap();
    assert_eq!(ti.to_path_string(), "1.2.3");
    let ti = TaskIndex::from_str("12").unwrap();
    assert_eq!(ti.to_path_string(), "12");
}

#[test]
fn test_first_path_resolves_to_first_task() {
    // After a recompute, path "1" names the first top-level task.
    let tasks = abc_tasks();
    let mut state = DisplayContainerState::new();
    state.update_display_order(&tasks);
    assert_eq!(state.get_task_id_by_path("1", &tasks), Some(1));
    assert_eq!(state.display_to_id[0], 1);
}

#[test]
fn test_recompute_is_idempotent() {
    let tasks = abc_tasks();
    let mut state = DisplayContainerState::new();
    state.update_display_order(&tasks);
    let first = state.display_to_id.clone();
    state.update_display_order(&tasks);
    assert_eq!(state.display_to_id, first);
}

#[test]
fn test_fold_hides_descendants_and_unfold_restores() {
    // Deeper tree: A(1) -> C(3) -> D(4); B(2) top-level.
    let mut a = task(1, "A");
    a.child_ids.push(3);
    let b = task(2, "B");
    let mut c = child_task(3, "C", 1);
    c.child_ids.push(4);
    let d = child_task(4, "D", 3);
    let tasks = vec![a, b, c, d];

    let mut state = DisplayContainerState::new();
    state.update_display_order(&tasks);
    assert_eq!(state.display_to_id, vec![1, 3, 4, 2]);

    // Folding A hides its whole subtree.
    state.toggle_task_expansion(1, &tasks);
    assert_eq!(state.display_to_id, vec![1, 2]);
    assert!(!state.display_to_id.contains(&3));
    assert!(!state.display_to_id.contains(&4));

    // Unfolding restores the display exactly.
    state.toggle_task_expansion(1, &tasks);
    assert_eq!(state.display_to_id, vec![1, 3, 4, 2]);

    // Fold state is sticky per task: folding D's parent C, then folding A,
    // then unfolding A, keeps C folded.
    state.toggle_task_expansion(3, &tasks);
    assert_eq!(state.display_to_id, vec![1, 3, 2]);
    state.toggle_task_expansion(1, &tasks);
    assert_eq!(state.display_to_id, vec![1, 2]);
    state.toggle_task_expansion(1, &tasks);
    assert_eq!(state.display_to_id, vec![1, 3, 2]);
}

#[test]
fn test_path_below_childless_or_folded_head_fails() {
    // First top-level task has no children: "1.1" resolves to nothing.
    let tasks = vec![task(1, "A"), task(2, "B")];
    let mut state = DisplayContainerState::new();
    state.update_display_order(&tasks);
    assert_eq!(state.get_task_id_by_path("1.1", &tasks), None);

    // First top-level task folded: "1.1" resolves to nothing.
    let tasks = abc_tasks();
    let mut state = DisplayContainerState::new();
    state.update_display_order(&tasks);
    assert_eq!(state.get_task_id_by_path("1.1", &tasks), Some(3));
    state.toggle_task_expansion(1, &tasks);
    assert_eq!(state.get_task_id_by_path("1.1", &tasks), None);
}

#[test]
fn test_focus_wrap() {
    // Three visible tasks: slots 0..=3; focus_next from 3 wraps to 0,
    // focus_previous from 0 wraps to 3.
    let tasks = vec![task(1, "A"), task(2, "B"), task(3, "C")];
    let mut state = DisplayContainerState::new();
    state.update_display_order(&tasks);
    assert_eq!(state.display_to_id.len(), 3);

    state.focused_index = Some(3);
    state.focus_next();
    assert_eq!(state.focused_index, Some(0));

    state.focused_index = Some(0);
    state.focus_previous();
    assert_eq!(state.focused_index, Some(3));
}

#[test]
fn test_scenario_three_tasks_with_child() {
    // Tasks [A(top), B(top), C(child of A)], A unfolded.
    let tasks = abc_tasks();
    let mut state = DisplayContainerState::new();
    state.update_display_order(&tasks);

    assert_eq!(state.display_to_id, vec![1, 3, 2]);
    assert_eq!(state.get_task_id_by_path("1.1", &tasks), Some(3));
    assert_eq!(state.get_task_id_by_path("2", &tasks), Some(2));

    // Fold A: display shrinks to [A, B] and "1.1" no longer resolves.
    state.toggle_task_expansion(1, &tasks);
    assert_eq!(state.display_to_id, vec![1, 2]);
    assert_eq!(state.get_task_id_by_path("1.1", &tasks), None);
}

#[test]
fn test_scenario_focus_hidden_task_fails() {
    // focus(Some(C)) while A is folded (C hidden) returns false and leaves
    // focus unchanged.
    let tasks = abc_tasks();
    let mut state = DisplayContainerState::new();
    state.update_display_order(&tasks);
    state.toggle_task_expansion(1, &tasks);
    let focus_before = state.focused_index;

    let ok = state.focus_task_and_update_input(Some(3), &tasks);
    assert!(!ok);
    assert_eq!(state.focused_index, focus_before);
}

#[test]
fn test_scenario_deleting_focused_task_resets_focus() {
    // Focus the last task, delete it, recompute: focus falls back to slot 0
    // and the input buffer is cleared.
    let mut tasks = vec![task(1, "A"), task(2, "B"), task(3, "C")];
    let mut state = DisplayContainerState::new();
    state.update_display_order(&tasks);

    let ok = state.focus_task_and_update_input(Some(3), &tasks);
    assert!(ok);
    assert_eq!(state.focused_index, Some(3));
    assert_eq!(state.input_value(), "C");

    tasks.pop();
    state.update_display_order(&tasks);
    assert_eq!(state.focused_index, Some(0));
    assert_eq!(state.input_value(), "");
}

#[test]
fn test_update_input_for_focus_resyncs() {
    let tasks = abc_tasks();
    let mut state = DisplayContainerState::new();
    state.update_display_order(&tasks);
    state.focused_index = Some(1);
    state.update_input_for_focus(&tasks);
    assert_eq!(state.input_value(), "A");
    assert_eq!(state.input_cursor(), 1);

    // Slot 0 clears the input.
    state.focused_index = Some(0);
    state.update_input_for_focus(&tasks);
    assert_eq!(state.input_value(), "");

    // An empty container resets focus to slot 0.
    let none: Vec<Task> = Vec::new();
    state.focused_index = Some(2);
    state.update_input_for_focus(&none);
    assert_eq!(state.focused_index, Some(0));
}

#[test]
fn test_get_display_index_and_len() {
    let tasks = abc_tasks();
    let mut state = DisplayContainerState::new();
    state.update_display_order(&tasks);
    assert_eq!(state.len(), 3);
    assert!(!state.is_empty());
    assert_eq!(state.get_display_index(1), Some(1));
    assert_eq!(state.get_display_index(3), Some(2));
    assert_eq!(state.get_display_index(2), Some(3));
    assert_eq!(state.get_display_index(99), None);
}

#[test]
fn test_collapse_all_and_fold_helpers() {
    let tasks = abc_tasks();
    let mut state = DisplayContainerState::new();
    state.update_display_order(&tasks);

    state.collapse_all();
    assert!(state.folded_tasks.contains(&1));
    assert!(state.folded_tasks.contains(&2));
    assert!(state.folded_tasks.contains(&3));

    let mut state = DisplayContainerState::new();
    state.fold_task(2);
    assert!(state.folded_tasks.contains(&2));
    state.fold_tasks(&vec![1, 3]);
    assert!(state.folded_tasks.contains(&1));
    assert!(state.folded_tasks.contains(&3));
}

#[test]
fn test_nearest_sibling_prefers_previous() {
    // Parent 1 with children 2, 3, 4.
    let mut p = task(1, "P");
    p.child_ids.push(2);
    p.child_ids.push(3);
    p.child_ids.push(4);
    let tasks = vec![
        p,
        child_task(2, "x", 1),
        child_task(3, "y", 1),
        child_task(4, "z", 1),
    ];
    assert_eq!(find_nearest_sibling(&tasks, 3), Some(2));
    assert_eq!(find_nearest_sibling(&tasks, 2), Some(3));
    assert_eq!(find_nearest_sibling(&tasks, 1), None);
}

#[test]
fn test_nearest_task_at_same_level_top_level() {
    // Top-level tasks around a subtask: scanning prefers the nearest
    // top-level task above, then below.
    let tasks = abc_tasks();
    let mut state = DisplayContainerState::new();
    state.update_display_order(&tasks);
    // Display is [1, 3, 2]; for top-level task 2 the nearest top-level
    // above is 1.
    assert_eq!(state.find_nearest_task_at_same_level(&tasks, 2), Some(1));
    // For task 1 there is nothing above; the next top-level below is 2.
    assert_eq!(state.find_nearest_task_at_same_level(&tasks, 1), Some(2));
    // The subtask's nearest is its sibling; C has none.
    assert_eq!(state.find_nearest_task_at_same_level(&tasks, 3), None);
}

#[test]
fn test_activity_log_latest_first() {
    let mut log = cyberorganism::display_container::ActivityLog::new();
    assert_eq!(log.latest_message(), None);
    log.add_message("one".to_string());
    log.add_message("two".to_string());
    assert_eq!(log.latest_message(), Some("two"));
}

#[test]
fn test_input_editing_helpers() {
    let mut state = DisplayContainerState::new();
    state.set_input("hello");
    assert_eq!(state.input_value(), "hello");
    assert_eq!(state.input_cursor(), 5);
    state.set_cursor_position(2);
    assert_eq!(state.input_cursor(), 2);
    state.set_cursor_position(100);
    assert_eq!(state.input_cursor(), 5);
    {
        let (text, cursor) = state.get_input_mut();
        text.push_str(" world");
        *cursor = 0;
    }
    assert_eq!(state.input_value(), "hello world");
    assert_eq!(state.input_cursor(), 0);
    state.reset_input();
    assert_eq!(state.input_value(), "");
    assert_eq!(state.input_cursor(), 0);
}
