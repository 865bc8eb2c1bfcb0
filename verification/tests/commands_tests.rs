//! Tests of the command layer: parsing, finding, completing, deleting,
//! moving, focusing, subtasks and fold toggling.

use cyberorganism::commands::{
    complete_task, execute_add_subtask, execute_command, execute_create_command,
    execute_move_to_backburner_command, execute_move_to_shelved_command,
    execute_move_to_taskpad_command, execute_show_command, find_task, focus_task, parse_command,
    App, Command, CommandResult, FocusResult,
};
use cyberorganism::tasks::{Task, TaskContainer};

fn setup_test_app() -> App {
    let mut app = App::new();
    app.add_task(Task::new(1, "Buy groceries".to_string()));
    app.add_task(Task::new(2, "Call dentist".to_string()));
    app.add_task(Task::new(3, "Write report".to_string()));
    app.next_id = 4;
    app
}

#[test]
fn test_parse_command() {
    // Create command (default)
    let cmd = parse_command("Buy milk".to_string());
    assert!(matches!(cmd, Command::Create(content) if content == "Buy milk"));

    // Complete command
    let cmd = parse_command("complete Test task".to_string());
    assert!(matches!(cmd, Command::Complete(content) if content == "Test task"));

    // Delete command
    let cmd = parse_command("delete Test task".to_string());
    assert!(matches!(cmd, Command::Delete(content) if content == "Test task"));

    // Move to taskpad command
    let cmd = parse_command("move to taskpad Test task".to_string());
    assert!(matches!(cmd, Command::MoveToTaskpad(content) if content == "Test task"));

    // Move to backburner command
    let cmd = parse_command("move to backburner Test task".to_string());
    assert!(matches!(cmd, Command::MoveToBackburner(content) if content == "Test task"));

    // Move to shelved command
    let cmd = parse_command("move to shelved Test task".to_string());
    assert!(matches!(cmd, Command::MoveToShelved(content) if content == "Test task"));

    // Focus command
    let cmd = parse_command("focus Test task".to_string());
    assert!(matches!(cmd, Command::Focus(content) if content == "Test task"));

    // Show command
    let cmd = parse_command("show taskpad".to_string());
    assert!(matches!(cmd, Command::Show(container) if container == TaskContainer::Taskpad));

    // Trailing spaces in task content stay
    let cmd = parse_command("complete Test task  ".to_string());
    assert!(matches!(cmd, Command::Complete(content) if content == "Test task  "));

    // Toggle command
    let cmd = parse_command("toggle Test task".to_string());
    assert!(matches!(cmd, Command::Toggle(content) if content == "Test task"));

    // Subtask command
    let cmd = parse_command("subtask 1 subtask content".to_string());
    assert!(matches!(cmd, Command::AddSubtask(parent, content)
        if parent == "1" && content == "subtask content"));
}

#[test]
fn test_find_task_by_partial_content() {
    let app = setup_test_app();

    // Exact content matches
    let index = find_task(&app, "Buy groceries");
    assert!(index.is_some());
    assert_eq!(app.tasks[index.unwrap()].content, "Buy groceries");

    // Partial content does not match
    assert!(find_task(&app, "groceries").is_none());
}

#[test]
fn test_find_task_by_exact_content() {
    let app = setup_test_app();

    let index = find_task(&app, "Buy groceries");
    assert!(index.is_some());
    assert_eq!(app.tasks[index.unwrap()].content, "Buy groceries");
}

#[test]
fn test_find_task_by_display_index() {
    let mut app = setup_test_app();
    app.display_container_state.update_display_order(&app.tasks);

    let index = find_task(&app, "1");
    assert!(index.is_some());
}

#[test]
fn test_find_nonexistent_task() {
    let app = setup_test_app();
    assert!(find_task(&app, "nonexistent task").is_none());
}

#[test]
fn test_find_deleted_task() {
    let mut app = setup_test_app();
    let initial_count = app.tasks.len();

    // First find and delete a task
    let index = find_task(&app, "Buy groceries").unwrap();
    app.tasks.remove(index);
    assert_eq!(app.tasks.len(), initial_count - 1);

    // It cannot be found any more
    assert!(find_task(&app, "Buy groceries").is_none());
}

#[test]
fn test_complete_task_success() {
    let mut app = setup_test_app();
    let result = complete_task(&mut app, "Buy groceries", None);
    assert!(
        matches!(result, CommandResult::TaskCompleted { content } if content == "Buy groceries")
    );
}

#[test]
fn test_complete_already_archived_task() {
    let mut app = setup_test_app();

    // First complete the task
    let _ = complete_task(&mut app, "Buy groceries", None);

    // Completing it again reports it as archived
    let result = complete_task(&mut app, "Buy groceries", None);
    assert!(
        matches!(result, CommandResult::TaskAlreadyArchived(content) if content == "Buy groceries")
    );
}

#[test]
fn test_complete_nonexistent_task() {
    let mut app = setup_test_app();
    let result = complete_task(&mut app, "nonexistent task", None);
    assert!(matches!(result, CommandResult::NoMatchingTask));
}

#[test]
fn test_delete_task_by_content() {
    let mut app = setup_test_app();
    let initial_count = app.tasks.len();

    execute_command(&mut app, Some(Command::Delete("Buy groceries".to_string())));
    assert_eq!(app.tasks.len(), initial_count - 1);
    assert!(app.tasks.iter().all(|t| t.content != "Buy groceries"));
}

#[test]
fn test_delete_task_by_index() {
    let mut app = setup_test_app();
    let initial_count = app.tasks.len();

    app.display_container_state.update_display_order(&app.tasks);

    execute_command(&mut app, Some(Command::Delete("1".to_string())));
    assert_eq!(app.tasks.len(), initial_count - 1);
}

#[test]
fn test_delete_nonexistent_task() {
    let mut app = setup_test_app();
    let initial_count = app.tasks.len();

    execute_command(&mut app, Some(Command::Delete("nonexistent task".to_string())));
    assert_eq!(app.tasks.len(), initial_count);
}

#[test]
fn test_delete_completed_task() {
    let mut app = setup_test_app();
    let initial_count = app.tasks.len();

    let _ = complete_task(&mut app, "Buy groceries", None);

    execute_command(&mut app, Some(Command::Delete("Buy groceries".to_string())));
    assert_eq!(app.tasks.len(), initial_count - 1);
    assert!(app.tasks.iter().all(|t| t.content != "Buy groceries"));
}

#[test]
fn test_move_to_taskpad_success() {
    let mut app = setup_test_app();
    let task = &mut app.tasks[0];
    task.container = TaskContainer::Backburner;
    let content = task.content.clone();

    execute_move_to_taskpad_command(&mut app, &content);

    assert_eq!(app.tasks[0].container, TaskContainer::Taskpad);
    assert_eq!(
        app.activity_log.latest_message().unwrap(),
        &format!("Moved task to taskpad: {content}")
    );
}

#[test]
fn test_move_to_taskpad_already_there() {
    let mut app = setup_test_app();
    let task = &app.tasks[0];
    let content = task.content.clone();

    execute_move_to_taskpad_command(&mut app, &content);

    assert_eq!(app.tasks[0].container, TaskContainer::Taskpad);
    assert_eq!(app.activity_log.latest_message().unwrap(), "Task already in taskpad");
}

#[test]
fn test_move_to_backburner_success() {
    let mut app = setup_test_app();
    let task = &app.tasks[0];
    let content = task.content.clone();

    execute_move_to_backburner_command(&mut app, &content);

    assert_eq!(app.tasks[0].container, TaskContainer::Backburner);
    assert_eq!(
        app.activity_log.latest_message().unwrap(),
        &format!("Moved task to backburner: {content}")
    );
}

#[test]
fn test_move_to_backburner_already_there() {
    let mut app = setup_test_app();
    let task = &mut app.tasks[0];
    task.container = TaskContainer::Backburner;
    let content = task.content.clone();

    execute_move_to_backburner_command(&mut app, &content);

    assert_eq!(app.tasks[0].container, TaskContainer::Backburner);
    assert_eq!(app.activity_log.latest_message().unwrap(), "Task already in backburner");
}

#[test]
fn test_move_to_shelved_success() {
    let mut app = setup_test_app();
    let task = &app.tasks[0];
    let content = task.content.clone();

    execute_move_to_shelved_command(&mut app, &content);

    assert_eq!(app.tasks[0].container, TaskContainer::Shelved);
    assert_eq!(
        app.activity_log.latest_message().unwrap(),
        &format!("Moved task to shelved: {content}")
    );
}

#[test]
fn test_move_to_shelved_already_there() {
    let mut app = setup_test_app();
    let task = &mut app.tasks[0];
    task.container = TaskContainer::Shelved;
    let content = task.content.clone();

    execute_move_to_shelved_command(&mut app, &content);

    assert_eq!(app.tasks[0].container, TaskContainer::Shelved);
    assert_eq!(app.activity_log.latest_message().unwrap(), "Task already in shelved");
}

#[test]
fn test_move_nonexistent_task() {
    let mut app = setup_test_app();

    execute_move_to_taskpad_command(&mut app, "Nonexistent task");
    assert_eq!(app.activity_log.latest_message().unwrap(), format!("No matching task found"));

    execute_move_to_backburner_command(&mut app, "Nonexistent task");
    assert_eq!(app.activity_log.latest_message().unwrap(), format!("No matching task found"));

    execute_move_to_shelved_command(&mut app, "Nonexistent task");
    assert_eq!(app.activity_log.latest_message().unwrap(), format!("No matching task found"));
}

#[test]
fn test_focus_task_by_content() {
    let mut app = setup_test_app();
    app.display_container_state.update_display_order(&app.tasks);
    let result = focus_task(&mut app, "Buy groceries");
    assert!(matches!(result, FocusResult::Focused { content } if content == "Buy groceries"));
}

#[test]
fn test_focus_task_by_index_updates_state() {
    let mut app = setup_test_app();
    app.display_container_state.update_display_order(&app.tasks);

    let result = focus_task(&mut app, "1");
    assert!(matches!(result, FocusResult::Focused { .. }));

    // State is updated
    assert_eq!(app.display_container_state.focused_index, Some(1));
    assert_eq!(app.display_container_state.input_value(), "Buy groceries");
}

#[test]
fn test_focus_task_updates_input() {
    let mut app = setup_test_app();
    app.display_container_state.update_display_order(&app.tasks);

    // Set initial input
    app.display_container_state.set_input("previous input");

    // Focus on first task
    let result = focus_task(&mut app, "1");
    assert!(matches!(result, FocusResult::Focused { .. }));

    // Input is updated
    assert_eq!(app.display_container_state.input_value(), "Buy groceries");
}

#[test]
fn test_focus_nonexistent_task() {
    let mut app = setup_test_app();
    let result = focus_task(&mut app, "nonexistent task");
    assert!(matches!(result, FocusResult::NoMatchingTask));
}

#[test]
fn test_show_command() {
    let mut app = setup_test_app();
    assert_eq!(app.display_container_state.active_container, TaskContainer::Taskpad);

    execute_show_command(&mut app, TaskContainer::Backburner);
    assert_eq!(app.display_container_state.active_container, TaskContainer::Backburner);
    assert_eq!(app.activity_log.latest_message(), Some("Showing backburner tasks"));
}

#[test]
fn test_add_subtask_success() {
    let mut app = setup_test_app();
    let query = "Buy groceries";
    let content = "Subtask content";

    execute_add_subtask(&mut app, query, content);

    // The subtask was created with the correct parent reference
    let subtask = app.tasks.last().unwrap();
    assert!(
        app.tasks.iter().any(|t| t.content == query && t.child_ids.contains(&subtask.id))
    );
    assert_eq!(subtask.content, content);

    // The parent's child list was updated
    let parent = app.tasks.iter().find(|t| t.content == query).unwrap();
    assert!(parent.child_ids.contains(&subtask.id));
}

#[test]
fn test_add_subtask_nonexistent_parent() {
    let mut app = setup_test_app();
    let invalid_parent_query = "nonexistent task";
    let content = "Subtask content";
    let initial_task_count = app.tasks.len();

    execute_add_subtask(&mut app, invalid_parent_query, content);

    // No task was created
    assert_eq!(app.tasks.len(), initial_task_count);
    assert_eq!(
        app.activity_log.latest_message(),
        Some(format!("No task found matching '{}'", invalid_parent_query).as_str())
    );
}

#[test]
fn test_delete_subtask_updates_parent() {
    let mut app = setup_test_app();

    // Create a parent task
    execute_create_command(&mut app, "Parent task");
    let parent_id = app.tasks.last().unwrap().id;

    // Create a child task
    execute_add_subtask(&mut app, "Parent task", "Child task");

    // The child is in the parent's child list
    let parent_index = app.tasks.iter().position(|t| t.id == parent_id).unwrap();
    assert!(
        app.tasks[parent_index].child_ids.contains(&app.tasks.last().unwrap().id),
        "Child task should be in parent's child_ids"
    );

    // Delete the child task
    cyberorganism::commands::execute_delete_command(&mut app, "Child task");

    // The child is removed from the parent's child list
    let parent_index = app.tasks.iter().position(|t| t.id == parent_id).unwrap();
    assert!(
        !app.tasks[parent_index].child_ids.contains(&app.tasks.last().unwrap().id),
        "Child task should be removed from parent's child_ids"
    );

    // The child task itself is gone
    assert!(
        !app.tasks.iter().any(|t| t.content == "Child task"),
        "Child task should be deleted"
    );
}

#[test]
fn test_toggle_task_expansion() {
    let mut app = setup_test_app();
    let query = "Buy groceries";

    // Initially the task is not folded
    let task_index = find_task(&app, query).unwrap();
    let task_id = app.tasks[task_index].id;
    assert!(!app.display_container_state.folded_tasks.contains(&task_id));

    // Toggle the task expansion
    cyberorganism::commands::execute_toggle_command(&mut app, query);

    // Now the task is folded
    assert!(app.display_container_state.folded_tasks.contains(&task_id));

    // Toggle again
    cyberorganism::commands::execute_toggle_command(&mut app, query);

    // Not folded any more
    assert!(!app.display_container_state.folded_tasks.contains(&task_id));

    // Activity log message
    assert_eq!(
        app.activity_log.latest_message(),
        Some(format!("Toggled task: {}", app.tasks[task_index].content).as_str())
    );
}

#[test]
fn test_toggle_nonexistent_task() {
    let mut app = setup_test_app();
    let invalid_query = "nonexistent task";

    cyberorganism::commands::execute_toggle_command(&mut app, invalid_query);

    assert_eq!(app.activity_log.latest_message(), Some("No matching task found"));
}

#[test]
fn test_edit_command_updates_content() {
    let mut app = setup_test_app();
    execute_command(&mut app, Some(Command::Edit(2, "Call the dentist".to_string())));
    let edited = app.tasks.iter().find(|t| t.id == 2).unwrap();
    assert_eq!(edited.content, "Call the dentist");
    assert_eq!(app.activity_log.latest_message(), Some("Task updated"));

    execute_command(&mut app, Some(Command::Edit(99, "missing".to_string())));
    assert_eq!(app.activity_log.latest_message(), Some("No task found with ID 99"));
}

#[test]
fn test_invalid_command_logs_message() {
    let mut app = setup_test_app();
    execute_command(&mut app, None);
    assert_eq!(app.activity_log.latest_message(), Some("Invalid command"));
}

#[test]
fn test_create_via_execute_command_returns_id() {
    let mut app = setup_test_app();
    let r = execute_command(&mut app, Some(Command::Create("New one".to_string())));
    assert_eq!(r, Some(4));
    assert_eq!(app.tasks.last().unwrap().content, "New one");
    assert_eq!(app.next_id, 5);
}
