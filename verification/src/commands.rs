//! Command processing: translates user input into task management
//! operations and applies them to the application state.

use vstd::prelude::*;

use crate::display_container::{
    spec_byte_len, spec_corrected_focus, spec_display_order, spec_parse_index, spec_resolve_path,
    spec_resync_focus, spec_resync_input, spec_same_flags, spec_strip_trailing_dots,
    strip_trailing_dots, ActivityLog, DisplayContainerState,
};
use crate::strutil::{
    find_char_from, parse_u32_str, spec_eq_ignore_ascii_case, spec_find_char_from, spec_is_digit,
    spec_parse_uint, spec_starts_with, spec_trim, str_eq_ignore_ascii_case, strip_prefix_str,
    trim_spaces, u32_to_string,
};
use crate::tasks::{
    find_task_by_id, find_task_by_content, spec_container_name, spec_find_by_content,
    spec_find_index, Task, TaskContainer, TaskStatus,
};

verus! {

/// The application interaction mode.
#[derive(Debug, Clone, Copy, PartialEq, Eq, Structural)]
pub enum AppMode {
    /// Default mode for task management.
    Pkm,
}

impl Default for AppMode {
    /// The one and only mode.
    fn default() -> (r: Self)
        ensures
            r == AppMode::Pkm,
    {
        AppMode::Pkm
    }
}

/// A command the user can issue.
pub enum Command {
    Create(String),
    Complete(String),
    CompleteById(u32),
    Delete(String),
    MoveToTaskpad(String),
    MoveToBackburner(String),
    MoveToShelved(String),
    /// Task id and new content.
    Edit(u32, String),
    /// Focus a task by display index or content.
    Focus(String),
    /// Switch the active container.
    Show(TaskContainer),
    /// Parent query and subtask content.
    AddSubtask(String, String),
    /// Toggle a task's expansion state.
    Toggle(String),
    /// Toggle the application mode.
    ToggleAppMode,
}

/// The whole application state the command layer works on.
pub struct App {
    /// The task collection.
    pub tasks: Vec<Task>,
    /// The id the next created task receives.
    pub next_id: u32,
    /// The display engine.
    pub display_container_state: DisplayContainerState,
    /// The log of user-visible messages.
    pub activity_log: ActivityLog,
    /// The current interaction mode.
    pub app_mode: AppMode,
    /// Whether the help panel is shown.
    pub show_help: bool,
}

impl Default for App {
    /// Same as `new`: a fresh application.
    fn default() -> (a: App)
        ensures
            a.tasks@ == Seq::<Task>::empty(),
            a.next_id == 1,
            a.app_mode == AppMode::Pkm,
            !a.show_help,
    {
        App::new()
    }
}

impl App {
    /// A fresh application: no tasks, ids from 1, taskpad displayed.
    pub fn new() -> (a: App)
        ensures
            a.tasks@ == Seq::<Task>::empty(),
            a.next_id == 1,
            a.display_container_state.display_to_id@ == Seq::<u32>::empty(),
            a.display_container_state.focused_index == Some(0usize),
            a.display_container_state.active_container == TaskContainer::Taskpad,
            a.display_container_state.folded_tasks@ == Set::<u32>::empty(),
            a.activity_log.messages@ == Seq::<String>::empty(),
            a.app_mode == AppMode::Pkm,
            !a.show_help,
    {
        let tasks: Vec<Task> = Vec::new();
        proof {
            assert(tasks@ =~= Seq::<Task>::empty());
        }
        App {
            tasks,
            next_id: 1,
            display_container_state: DisplayContainerState::new(),
            activity_log: ActivityLog::new(),
            app_mode: AppMode::Pkm,
            show_help: false,
        }
    }

    /// Append a task to the collection.
    pub fn add_task(&mut self, task: Task)
        ensures
            final(self).tasks@ == old(self).tasks@.push(task),
            final(self).next_id == old(self).next_id,
            final(self).display_container_state == old(self).display_container_state,
            final(self).activity_log == old(self).activity_log,
            final(self).app_mode == old(self).app_mode,
            final(self).show_help == old(self).show_help,
    {
        self.tasks.push(task);
    }

    /// Record an activity message.
    pub fn log_activity(&mut self, message: String)
        ensures
            final(self).activity_log.messages@ == seq![message] + old(self).activity_log.messages@,
            spec_logged(
                old(self).activity_log.messages@,
                final(self).activity_log.messages@,
                message@,
            ),
            final(self).tasks == old(self).tasks,
            final(self).next_id == old(self).next_id,
            final(self).display_container_state == old(self).display_container_state,
            final(self).app_mode == old(self).app_mode,
            final(self).show_help == old(self).show_help,
    {
        self.activity_log.add_message(message);
    }

    /// Remove the task at a collection position.
    pub fn remove_task(&mut self, index: usize)
        requires
            index < old(self).tasks@.len(),
        ensures
            final(self).tasks@ == old(self).tasks@.remove(index as int),
            final(self).next_id == old(self).next_id,
            final(self).display_container_state == old(self).display_container_state,
            final(self).activity_log == old(self).activity_log,
            final(self).app_mode == old(self).app_mode,
            final(self).show_help == old(self).show_help,
    {
        let _ = self.tasks.remove(index);
    }

    /// Drop every occurrence of a child id from a parent's child list.
    pub fn remove_child_from_parent(&mut self, parent_index: usize, child_id: u32)
        requires
            parent_index < old(self).tasks@.len(),
        ensures
            final(self).tasks@.len() == old(self).tasks@.len(),
            final(self).tasks@[parent_index as int].child_ids@ == spec_ids_without(
                old(self).tasks@[parent_index as int].child_ids@,
                child_id,
            ),
            spec_same_but_children(
                final(self).tasks@[parent_index as int],
                old(self).tasks@[parent_index as int],
            ),
            forall|q: int|
                0 <= q < old(self).tasks@.len() && q != parent_index ==> final(self).tasks@[q]
                    == old(self).tasks@[q],
            final(self).next_id == old(self).next_id,
            final(self).display_container_state == old(self).display_container_state,
            final(self).activity_log == old(self).activity_log,
            final(self).app_mode == old(self).app_mode,
            final(self).show_help == old(self).show_help,
    {
        let ghost old_tasks = self.tasks@;
        let mut parent = self.tasks.remove(parent_index);
        let ghost kids = parent.child_ids@;
        let mut filtered: Vec<u32> = Vec::new();
        proof {
            assert(filtered@ =~= Seq::<u32>::empty());
            assert(Seq::<u32>::empty() + spec_ids_without_from(kids, child_id, 0)
                =~= spec_ids_without_from(kids, child_id, 0));
        }
        let n = parent.child_ids.len();
        let mut j: usize = 0;
        while j < n
            invariant
                j <= n,
                n == kids.len(),
                kids == parent.child_ids@,
                spec_ids_without_from(kids, child_id, 0) == filtered@ + spec_ids_without_from(
                    kids,
                    child_id,
                    j as int,
                ),
            decreases n - j,
        {
            let ghost fb = filtered@;
            let cid = parent.child_ids[j];
            if cid != child_id {
                filtered.push(cid);
                proof {
                    assert((fb + seq![cid]) + spec_ids_without_from(kids, child_id, j as int + 1)
                        =~= fb + (seq![cid] + spec_ids_without_from(kids, child_id, j as int + 1)));
                }
            } else {
                proof {
                    assert(Seq::<u32>::empty() + spec_ids_without_from(kids, child_id, j as int + 1)
                        =~= spec_ids_without_from(kids, child_id, j as int + 1));
                }
            }
            j = j + 1;
        }
        proof {
            assert(filtered@ + spec_ids_without_from(kids, child_id, n as int) =~= filtered@);
        }
        parent.child_ids = filtered;
        self.tasks.insert(parent_index, parent);
        proof {
            assert(forall|q: int|
                0 <= q < old_tasks.len() && q != parent_index ==> self.tasks@[q] == old_tasks[q]);
        }
    }
}

/// `ids` from position `j` on, with every occurrence of `id` removed.
pub open spec fn spec_ids_without_from(ids: Seq<u32>, id: u32, j: int) -> Seq<u32>
    decreases ids.len() - j,
{
    if j < 0 || j >= ids.len() {
        Seq::empty()
    } else {
        (if ids[j] == id {
            Seq::<u32>::empty()
        } else {
            seq![ids[j]]
        }) + spec_ids_without_from(ids, id, j + 1)
    }
}

/// `ids` with every occurrence of `id` removed.
pub open spec fn spec_ids_without(ids: Seq<u32>, id: u32) -> Seq<u32> {
    spec_ids_without_from(ids, id, 0)
}

/// Two tasks agree on everything but the child list.
pub open spec fn spec_same_but_children(a: Task, b: Task) -> bool {
    a.id == b.id && a.content == b.content && a.created_at == b.created_at && a.container
        == b.container && a.status == b.status && a.parent_id == b.parent_id
}

/// The task marked done and archived.
pub open spec fn spec_completed(t: Task) -> Task {
    Task { status: TaskStatus::Done, container: TaskContainer::Archived, ..t }
}

/// The task moved to another container.
pub open spec fn spec_moved(t: Task, c: TaskContainer) -> Task {
    Task { container: c, ..t }
}

/// A new log state: one message, with the given characters, in front of the
/// old ones.
pub open spec fn spec_logged(old_msgs: Seq<String>, new_msgs: Seq<String>, m: Seq<char>) -> bool {
    new_msgs.len() == old_msgs.len() + 1 && new_msgs[0]@ == m && new_msgs.drop_first() == old_msgs
}

/// A query that addresses a task by display position: digit runs separated
/// by single dots, optionally ending in one dot.
pub open spec fn spec_is_display_path(s: Seq<char>) -> bool {
    s.len() > 0 && spec_is_digit(s[0]) && (forall|i: int|
        0 <= i < s.len() ==> spec_is_digit(#[trigger] s[i]) || s[i] == '.') && (forall|i: int|
        0 <= i < s.len() - 1 ==> (#[trigger] s[i] == '.' ==> spec_is_digit(s[i + 1])))
}

/// Relies on `regex::Regex::is_match` with the fixed pattern
/// `^[0-9]+(\.[0-9]+)*\.?$`: it matches exactly the strings of one or more
/// digit runs separated by single dots, with at most one trailing dot.
/// The fixed pattern is valid, so `Regex::new` cannot fail.
#[verifier::external_body]
fn is_display_path_query(query: &str) -> (r: bool)
    ensures
        r == spec_is_display_path(query@),
{
    let pattern = regex::Regex::new(r"^[0-9]+(\.[0-9]+)*\.?$").unwrap();
    pattern.is_match(query)
}

/// Where a query leads: a display path resolves through the display engine
/// (falling back to a content search when it resolves to nothing); anything
/// else is an exact content search, preferring the active container.
pub open spec fn spec_find_task(
    tasks: Seq<Task>,
    c: TaskContainer,
    folded: Set<u32>,
    q: Seq<char>,
) -> Option<int> {
    let tq = spec_trim(q);
    if spec_is_display_path(tq) {
        match (match spec_parse_index(spec_strip_trailing_dots(tq)) {
            Some(p) => spec_resolve_path(tasks, c, folded, p),
            None => None::<u32>,
        }) {
            Some(tid) => spec_find_index(tasks, tid),
            None => spec_find_by_content(tasks, tq, c),
        }
    } else {
        spec_find_by_content(tasks, tq, c)
    }
}

/// Find a task by display index (dot notation included) or by exact
/// content.
pub fn find_task(app: &App, query: &str) -> (r: Option<usize>)
    ensures
        match r {
            Some(i) => spec_find_task(
                app.tasks@,
                app.display_container_state.active_container,
                app.display_container_state.folded_tasks@,
                query@,
            ) == Some(i as int) && i < app.tasks@.len(),
            None => spec_find_task(
                app.tasks@,
                app.display_container_state.active_container,
                app.display_container_state.folded_tasks@,
                query@,
            ) is None,
        },
{
    let trimmed = trim_spaces(query);
    if is_display_path_query(trimmed.as_str()) {
        let clean = strip_trailing_dots(trimmed.as_str());
        match app.display_container_state.get_task_id_by_path(clean.as_str(), &app.tasks) {
            Some(task_id) => {
                return find_task_by_id(&app.tasks, task_id);
            },
            None => {},
        }
    }
    find_task_by_content(
        &app.tasks,
        trimmed.as_str(),
        app.display_container_state.active_container,
    )
}

/// What a command did to a task.
pub enum CommandResult {
    /// The task was completed; its content, for the log message.
    TaskCompleted { content: String },
    /// The task was already archived; its content.
    TaskAlreadyArchived(String),
    /// No task matched the query.
    NoMatchingTask,
}

/// The position `complete_task` works on: the id when one is given, else
/// whatever the query finds.
pub open spec fn spec_complete_target(
    tasks: Seq<Task>,
    c: TaskContainer,
    folded: Set<u32>,
    q: Seq<char>,
    task_id: Option<u32>,
) -> Option<int> {
    match task_id {
        Some(id) => spec_find_index(tasks, id),
        None => spec_find_task(tasks, c, folded, q),
    }
}

/// Complete a task found by id or by query: archived tasks are reported,
/// anything else is marked done, archived, and the display recomputed.
pub fn complete_task(app: &mut App, query: &str, task_id: Option<u32>) -> (r: CommandResult)
    ensures
        ({
            let target = spec_complete_target(
                old(app).tasks@,
                old(app).display_container_state.active_container,
                old(app).display_container_state.folded_tasks@,
                query@,
                task_id,
            );
            match target {
                Some(i) => {
                    if old(app).tasks@[i].container == TaskContainer::Archived {
                        r == CommandResult::TaskAlreadyArchived(old(app).tasks@[i].content)
                            && *final(app) == *old(app)
                    } else {
                        r == (CommandResult::TaskCompleted { content: old(app).tasks@[i].content })
                            && final(app).tasks@ == old(app).tasks@.update(
                            i,
                            spec_completed(old(app).tasks@[i]),
                        ) && spec_dcs_after_recompute(
                            old(app).display_container_state,
                            final(app).tasks@,
                            final(app).display_container_state,
                        ) && final(app).next_id == old(app).next_id && final(app).activity_log
                            == old(app).activity_log && final(app).app_mode == old(app).app_mode
                            && final(app).show_help == old(app).show_help
                    }
                },
                None => r == CommandResult::NoMatchingTask && *final(app) == *old(app),
            }
        }),
{
    let found = match task_id {
        Some(id) => find_task_by_id(&app.tasks, id),
        None => find_task(app, query),
    };
    match found {
        Some(i) => {
            if app.tasks[i].container == TaskContainer::Archived {
                return CommandResult::TaskAlreadyArchived(app.tasks[i].content.clone());
            }
            let ghost pre = app.tasks@;
            let content = app.tasks[i].content.clone();
            let mut task = app.tasks.remove(i);
            task.complete();
            app.tasks.insert(i, task);
            proof {
                assert(app.tasks@ =~= pre.update(i as int, spec_completed(pre[i as int])));
            }
            app.display_container_state.update_display_order(&app.tasks);
            CommandResult::TaskCompleted { content }
        },
        None => CommandResult::NoMatchingTask,
    }
}

/// The display engine's state after `update_display_order` against `tasks`
/// with `c` as the active container: the list rebuilt, out-of-range focus
/// reset, the input re-derived; fold state and flags untouched.
pub open spec fn spec_dcs_after_recompute_in(
    pre: DisplayContainerState,
    c: TaskContainer,
    tasks: Seq<Task>,
    post: DisplayContainerState,
) -> bool {
    let display = spec_display_order(tasks, c, pre.folded_tasks@);
    let f1 = spec_corrected_focus(pre.focused_index, display.len());
    post.display_to_id@ == display && post.focused_index == spec_resync_focus(
        tasks,
        c,
        f1,
        display,
    ) && post.spec_input() == spec_resync_input(tasks, c, f1, display) && post.spec_cursor()
        == spec_byte_len(post.spec_input()) && post.active_container == c && post.folded_tasks
        == pre.folded_tasks && post.original_focus == pre.original_focus && spec_same_flags(
        post,
        pre,
    )
}

/// The display engine's state after `update_display_order` against `tasks`,
/// the active container unchanged.
pub open spec fn spec_dcs_after_recompute(
    pre: DisplayContainerState,
    tasks: Seq<Task>,
    post: DisplayContainerState,
) -> bool {
    spec_dcs_after_recompute_in(pre, pre.active_container, tasks, post)
}

/// Law (recompute is idempotent): a second `update_display_order` against
/// the same task collection, with container and fold state untouched in
/// between, leaves `display_to_id` exactly as the first call left it.
pub proof fn lemma_recompute_twice_identical(
    pre: DisplayContainerState,
    mid: DisplayContainerState,
    post: DisplayContainerState,
    tasks: Seq<Task>,
)
    requires
        spec_dcs_after_recompute(pre, tasks, mid),
        spec_dcs_after_recompute(mid, tasks, post),
    ensures
        post.display_to_id@ == mid.display_to_id@,
{
}

/// What the parser decides, over character sequences.
pub enum SpecCommand {
    Create(Seq<char>),
    Complete(Seq<char>),
    Delete(Seq<char>),
    MoveToTaskpad(Seq<char>),
    MoveToBackburner(Seq<char>),
    MoveToShelved(Seq<char>),
    Focus(Seq<char>),
    Show(TaskContainer),
    AddSubtask(Seq<char>, Seq<char>),
    Toggle(Seq<char>),
    ToggleAppMode,
}

/// How an input line parses: the first matching keyword prefix wins, a
/// `show` of an unknown container and a `subtask` without content fall back
/// to task creation, and anything unrecognised creates a task.
pub open spec fn spec_parse_command(v: Seq<char>) -> SpecCommand {
    if spec_starts_with(v, "complete "@) {
        SpecCommand::Complete(v.skip("complete "@.len() as int))
    } else if spec_starts_with(v, "delete "@) {
        SpecCommand::Delete(v.skip("delete "@.len() as int))
    } else if spec_starts_with(v, "move to taskpad "@) {
        SpecCommand::MoveToTaskpad(v.skip("move to taskpad "@.len() as int))
    } else if spec_starts_with(v, "move to backburner "@) {
        SpecCommand::MoveToBackburner(v.skip("move to backburner "@.len() as int))
    } else if spec_starts_with(v, "move to shelved "@) {
        SpecCommand::MoveToShelved(v.skip("move to shelved "@.len() as int))
    } else if spec_starts_with(v, "focus "@) {
        SpecCommand::Focus(v.skip("focus "@.len() as int))
    } else if spec_starts_with(v, "toggle "@) {
        SpecCommand::Toggle(v.skip("toggle "@.len() as int))
    } else if spec_starts_with(v, "show "@) {
        let rest = v.skip("show "@.len() as int);
        if rest == "taskpad"@ {
            SpecCommand::Show(TaskContainer::Taskpad)
        } else if rest == "backburner"@ {
            SpecCommand::Show(TaskContainer::Backburner)
        } else if rest == "shelved"@ {
            SpecCommand::Show(TaskContainer::Shelved)
        } else if rest == "archived"@ {
            SpecCommand::Show(TaskContainer::Archived)
        } else {
            SpecCommand::Create(v)
        }
    } else if spec_starts_with(v, "subtask "@) {
        let rest = v.skip("subtask "@.len() as int);
        match spec_find_char_from(rest, ' ', 0) {
            Some(sp) => SpecCommand::AddSubtask(rest.take(sp), rest.skip(sp + 1)),
            None => SpecCommand::Create(v),
        }
    } else if spec_eq_ignore_ascii_case(v, "toggle app mode"@) {
        SpecCommand::ToggleAppMode
    } else {
        SpecCommand::Create(v)
    }
}

/// The executable command carries the strings the parsed form describes.
pub open spec fn spec_command_matches(r: Command, s: SpecCommand) -> bool {
    match (r, s) {
        (Command::Create(a), SpecCommand::Create(b)) => a@ == b,
        (Command::Complete(a), SpecCommand::Complete(b)) => a@ == b,
        (Command::Delete(a), SpecCommand::Delete(b)) => a@ == b,
        (Command::MoveToTaskpad(a), SpecCommand::MoveToTaskpad(b)) => a@ == b,
        (Command::MoveToBackburner(a), SpecCommand::MoveToBackburner(b)) => a@ == b,
        (Command::MoveToShelved(a), SpecCommand::MoveToShelved(b)) => a@ == b,
        (Command::Focus(a), SpecCommand::Focus(b)) => a@ == b,
        (Command::Show(a), SpecCommand::Show(b)) => a == b,
        (Command::AddSubtask(a1, a2), SpecCommand::AddSubtask(b1, b2)) => a1@ == b1 && a2@ == b2,
        (Command::Toggle(a), SpecCommand::Toggle(b)) => a@ == b,
        (Command::ToggleAppMode, SpecCommand::ToggleAppMode) => true,
        _ => false,
    }
}

/// Parse an input line into a command.
pub fn parse_command(input: String) -> (r: Command)
    ensures
        spec_command_matches(r, spec_parse_command(input@)),
{
    if let Some(q) = strip_prefix_str(input.as_str(), "complete ") {
        return Command::Complete(q);
    }
    if let Some(q) = strip_prefix_str(input.as_str(), "delete ") {
        return Command::Delete(q);
    }
    if let Some(q) = strip_prefix_str(input.as_str(), "move to taskpad ") {
        return Command::MoveToTaskpad(q);
    }
    if let Some(q) = strip_prefix_str(input.as_str(), "move to backburner ") {
        return Command::MoveToBackburner(q);
    }
    if let Some(q) = strip_prefix_str(input.as_str(), "move to shelved ") {
        return Command::MoveToShelved(q);
    }
    if let Some(q) = strip_prefix_str(input.as_str(), "focus ") {
        return Command::Focus(q);
    }
    if let Some(q) = strip_prefix_str(input.as_str(), "toggle ") {
        return Command::Toggle(q);
    }
    if let Some(container) = strip_prefix_str(input.as_str(), "show ") {
        if container == "taskpad".to_owned() {
            return Command::Show(TaskContainer::Taskpad);
        }
        if container == "backburner".to_owned() {
            return Command::Show(TaskContainer::Backburner);
        }
        if container == "shelved".to_owned() {
            return Command::Show(TaskContainer::Shelved);
        }
        if container == "archived".to_owned() {
            return Command::Show(TaskContainer::Archived);
        }
        return Command::Create(input);
    }
    if let Some(rest) = strip_prefix_str(input.as_str(), "subtask ") {
        let n = rest.as_str().unicode_len();
        match find_char_from(rest.as_str(), ' ', 0) {
            Some(sp) => {
                let parent = rest.as_str().substring_char(0, sp).to_owned();
                let content = rest.as_str().substring_char(sp + 1, n).to_owned();
                proof {
                    assert(parent@ =~= rest@.take(sp as int));
                    assert(content@ =~= rest@.skip(sp as int + 1));
                }
                return Command::AddSubtask(parent, content);
            },
            None => {
                return Command::Create(input);
            },
        }
    }
    if str_eq_ignore_ascii_case(input.as_str(), "toggle app mode") {
        return Command::ToggleAppMode;
    }
    Command::Create(input)
}

/// Create a new top-level task from the input text and log it.
pub fn execute_create_command(app: &mut App, content: &str) -> (r: u32)
    requires
        old(app).next_id < u32::MAX,
    ensures
        r == old(app).next_id,
        final(app).next_id == old(app).next_id + 1,
        final(app).tasks@.len() == old(app).tasks@.len() + 1,
        final(app).tasks@.take(old(app).tasks@.len() as int) == old(app).tasks@,
        ({
            let t = final(app).tasks@.last();
            t.id == old(app).next_id && t.content@ == content@ && t.container
                == TaskContainer::Taskpad && t.status == TaskStatus::Todo && t.parent_id is None
                && t.child_ids@.len() == 0
        }),
        spec_logged(
            old(app).activity_log.messages@,
            final(app).activity_log.messages@,
            "Task added"@,
        ),
        final(app).display_container_state == old(app).display_container_state,
        final(app).app_mode == old(app).app_mode,
        final(app).show_help == old(app).show_help,
{
    let task = Task::new(app.next_id, content.to_owned());
    let task_id = task.id;
    app.next_id = app.next_id + 1;
    let ghost pre = app.tasks@;
    app.add_task(task);
    proof {
        assert(app.tasks@.take(pre.len() as int) =~= pre);
    }
    app.log_activity("Task added".to_owned());
    task_id
}

/// Complete the task a query names and log what happened.
pub fn execute_complete_command(app: &mut App, query: &str)
    ensures
        ({
            let target = spec_complete_target(
                old(app).tasks@,
                old(app).display_container_state.active_container,
                old(app).display_container_state.folded_tasks@,
                query@,
                None,
            );
            match target {
                Some(i) => {
                    let content = old(app).tasks@[i].content@;
                    if old(app).tasks@[i].container == TaskContainer::Archived {
                        final(app).tasks == old(app).tasks && final(app).display_container_state
                            == old(app).display_container_state && spec_logged(
                            old(app).activity_log.messages@,
                            final(app).activity_log.messages@,
                            "Task '"@ + content + "' is already archived"@,
                        )
                    } else {
                        final(app).tasks@ == old(app).tasks@.update(
                            i,
                            spec_completed(old(app).tasks@[i]),
                        ) && spec_dcs_after_recompute(
                            old(app).display_container_state,
                            final(app).tasks@,
                            final(app).display_container_state,
                        ) && spec_logged(
                            old(app).activity_log.messages@,
                            final(app).activity_log.messages@,
                            "Completed task: "@ + content,
                        )
                    }
                },
                None => final(app).tasks == old(app).tasks && final(app).display_container_state
                    == old(app).display_container_state && spec_logged(
                    old(app).activity_log.messages@,
                    final(app).activity_log.messages@,
                    "No matching task found"@,
                ),
            }
        }),
        final(app).next_id == old(app).next_id,
        final(app).app_mode == old(app).app_mode,
        final(app).show_help == old(app).show_help,
{
    match complete_task(app, query, None) {
        CommandResult::TaskCompleted { content } => {
            let mut m = "Completed task: ".to_owned();
            m.append(content.as_str());
            app.log_activity(m);
        },
        CommandResult::TaskAlreadyArchived(content) => {
            let mut m = "Task '".to_owned();
            m.append(content.as_str());
            m.append("' is already archived");
            app.log_activity(m);
        },
        CommandResult::NoMatchingTask => {
            app.log_activity("No matching task found".to_owned());
        },
    }
}

/// Complete the task with the given id and log what happened.
pub fn execute_complete_by_id_command(app: &mut App, task_id: u32)
    ensures
        ({
            let target = spec_find_index(old(app).tasks@, task_id);
            match target {
                Some(i) => {
                    let content = old(app).tasks@[i].content@;
                    if old(app).tasks@[i].container == TaskContainer::Archived {
                        final(app).tasks == old(app).tasks && final(app).display_container_state
                            == old(app).display_container_state && spec_logged(
                            old(app).activity_log.messages@,
                            final(app).activity_log.messages@,
                            "Task '"@ + content + "' is already archived"@,
                        )
                    } else {
                        final(app).tasks@ == old(app).tasks@.update(
                            i,
                            spec_completed(old(app).tasks@[i]),
                        ) && spec_dcs_after_recompute(
                            old(app).display_container_state,
                            final(app).tasks@,
                            final(app).display_container_state,
                        ) && spec_logged(
                            old(app).activity_log.messages@,
                            final(app).activity_log.messages@,
                            "Completed task: "@ + content,
                        )
                    }
                },
                None => final(app).tasks == old(app).tasks && final(app).display_container_state
                    == old(app).display_container_state && spec_logged(
                    old(app).activity_log.messages@,
                    final(app).activity_log.messages@,
                    "No matching task found"@,
                ),
            }
        }),
        final(app).next_id == old(app).next_id,
        final(app).app_mode == old(app).app_mode,
        final(app).show_help == old(app).show_help,
{
    match complete_task(app, "", Some(task_id)) {
        CommandResult::TaskCompleted { content } => {
            let mut m = "Completed task: ".to_owned();
            m.append(content.as_str());
            app.log_activity(m);
        },
        CommandResult::TaskAlreadyArchived(content) => {
            let mut m = "Task '".to_owned();
            m.append(content.as_str());
            m.append("' is already archived");
            app.log_activity(m);
        },
        CommandResult::NoMatchingTask => {
            app.log_activity("No matching task found".to_owned());
        },
    }
}

/// A collection equals another with one task's child list cleaned of an id.
pub open spec fn spec_child_unlinked(pre: Seq<Task>, post: Seq<Task>, p: int, cid: u32) -> bool {
    post.len() == pre.len() && post[p].child_ids@ == spec_ids_without(pre[p].child_ids@, cid)
        && spec_same_but_children(post[p], pre[p]) && (forall|q: int|
        0 <= q < pre.len() && q != p ==> post[q] == pre[q])
}

/// Delete the task a query names, unlinking it from its parent first.
pub fn execute_delete_command(app: &mut App, query: &str)
    ensures
        ({
            let target = spec_find_task(
                old(app).tasks@,
                old(app).display_container_state.active_container,
                old(app).display_container_state.folded_tasks@,
                query@,
            );
            match target {
                Some(i) => {
                    let t0 = old(app).tasks@[i];
                    (match t0.parent_id {
                        Some(pid) => match spec_find_index(old(app).tasks@, pid) {
                            Some(p) => exists|mid: Seq<Task>|
                                #[trigger] spec_child_unlinked(old(app).tasks@, mid, p, t0.id)
                                    && final(app).tasks@ == mid.remove(i),
                            None => final(app).tasks@ == old(app).tasks@.remove(i),
                        },
                        None => final(app).tasks@ == old(app).tasks@.remove(i),
                    }) && spec_logged(
                        old(app).activity_log.messages@,
                        final(app).activity_log.messages@,
                        "Deleted task: "@ + t0.content@,
                    )
                },
                None => final(app).tasks == old(app).tasks && spec_logged(
                    old(app).activity_log.messages@,
                    final(app).activity_log.messages@,
                    "No matching task found"@,
                ),
            }
        }),
        final(app).display_container_state == old(app).display_container_state,
        final(app).next_id == old(app).next_id,
        final(app).app_mode == old(app).app_mode,
        final(app).show_help == old(app).show_help,
{
    match find_task(app, query) {
        Some(index) => {
            let content = app.tasks[index].content.clone();
            let task_id = app.tasks[index].id;
            let parent = app.tasks[index].parent_id;
            let ghost pre = app.tasks@;
            if let Some(parent_id) = parent {
                match find_task_by_id(&app.tasks, parent_id) {
                    Some(parent_index) => {
                        app.remove_child_from_parent(parent_index, task_id);
                        proof {
                            assert(spec_child_unlinked(
                                pre,
                                app.tasks@,
                                parent_index as int,
                                task_id,
                            ));
                        }
                    },
                    None => {},
                }
            }
            let ghost mid = app.tasks@;
            app.remove_task(index);
            let mut m = "Deleted task: ".to_owned();
            m.append(content.as_str());
            app.log_activity(m);
            proof {
                let t0 = old(app).tasks@[index as int];
                assert(app.tasks@ == mid.remove(index as int));
                match t0.parent_id {
                    Some(pid) => {
                        match spec_find_index(old(app).tasks@, pid) {
                            Some(p) => {
                                assert(spec_child_unlinked(old(app).tasks@, mid, p, t0.id));
                                assert(exists|m2: Seq<Task>|
                                    #[trigger] spec_child_unlinked(old(app).tasks@, m2, p, t0.id)
                                        && app.tasks@ == m2.remove(index as int));
                            },
                            None => {
                                assert(app.tasks@ == old(app).tasks@.remove(index as int));
                            },
                        }
                    },
                    None => {
                        assert(app.tasks@ == old(app).tasks@.remove(index as int));
                    },
                }
            }
        },
        None => {
            app.log_activity("No matching task found".to_owned());
        },
    }
}

/// Move the task a query names into a container, and say so.
pub fn execute_move_command(app: &mut App, query: &str, target_container: TaskContainer)
    ensures
        ({
            let target = spec_find_task(
                old(app).tasks@,
                old(app).display_container_state.active_container,
                old(app).display_container_state.folded_tasks@,
                query@,
            );
            match target {
                Some(i) => {
                    let t0 = old(app).tasks@[i];
                    if t0.container == target_container {
                        final(app).tasks == old(app).tasks && spec_logged(
                            old(app).activity_log.messages@,
                            final(app).activity_log.messages@,
                            "Task already in "@ + spec_container_name(target_container),
                        )
                    } else {
                        final(app).tasks@ == old(app).tasks@.update(
                            i,
                            spec_moved(t0, target_container),
                        ) && spec_logged(
                            old(app).activity_log.messages@,
                            final(app).activity_log.messages@,
                            "Moved task to "@ + spec_container_name(target_container) + ": "@
                                + t0.content@,
                        )
                    }
                },
                None => final(app).tasks == old(app).tasks && spec_logged(
                    old(app).activity_log.messages@,
                    final(app).activity_log.messages@,
                    "No matching task found"@,
                ),
            }
        }),
        final(app).display_container_state == old(app).display_container_state,
        final(app).next_id == old(app).next_id,
        final(app).app_mode == old(app).app_mode,
        final(app).show_help == old(app).show_help,
{
    match find_task(app, query) {
        Some(index) => {
            if app.tasks[index].container == target_container {
                let mut m = "Task already in ".to_owned();
                m.append(target_container.display_name());
                app.log_activity(m);
            } else {
                let ghost pre = app.tasks@;
                let content = app.tasks[index].content.clone();
                let container_name = target_container.display_name();
                let mut task = app.tasks.remove(index);
                task.container = target_container;
                app.tasks.insert(index, task);
                proof {
                    assert(app.tasks@ =~= pre.update(
                        index as int,
                        spec_moved(pre[index as int], target_container),
                    ));
                }
                let mut m = "Moved task to ".to_owned();
                m.append(container_name);
                m.append(": ");
                m.append(content.as_str());
                app.log_activity(m);
            }
        },
        None => {
            app.log_activity("No matching task found".to_owned());
        },
    }
}

/// Move the task a query names to the taskpad.
pub fn execute_move_to_taskpad_command(app: &mut App, query: &str)
    ensures
        ({
            let target = spec_find_task(
                old(app).tasks@,
                old(app).display_container_state.active_container,
                old(app).display_container_state.folded_tasks@,
                query@,
            );
            match target {
                Some(i) => {
                    let t0 = old(app).tasks@[i];
                    if t0.container == TaskContainer::Taskpad {
                        final(app).tasks == old(app).tasks && spec_logged(
                            old(app).activity_log.messages@,
                            final(app).activity_log.messages@,
                            "Task already in "@ + spec_container_name(TaskContainer::Taskpad),
                        )
                    } else {
                        final(app).tasks@ == old(app).tasks@.update(
                            i,
                            spec_moved(t0, TaskContainer::Taskpad),
                        ) && spec_logged(
                            old(app).activity_log.messages@,
                            final(app).activity_log.messages@,
                            "Moved task to "@ + spec_container_name(TaskContainer::Taskpad) + ": "@
                                + t0.content@,
                        )
                    }
                },
                None => final(app).tasks == old(app).tasks && spec_logged(
                    old(app).activity_log.messages@,
                    final(app).activity_log.messages@,
                    "No matching task found"@,
                ),
            }
        }),
        final(app).display_container_state == old(app).display_container_state,
        final(app).next_id == old(app).next_id,
        final(app).app_mode == old(app).app_mode,
        final(app).show_help == old(app).show_help,
{
    execute_move_command(app, query, TaskContainer::Taskpad);
}

/// Move the task a query names to the backburner.
pub fn execute_move_to_backburner_command(app: &mut App, query: &str)
    ensures
        ({
            let target = spec_find_task(
                old(app).tasks@,
                old(app).display_container_state.active_container,
                old(app).display_container_state.folded_tasks@,
                query@,
            );
            match target {
                Some(i) => {
                    let t0 = old(app).tasks@[i];
                    if t0.container == TaskContainer::Backburner {
                        final(app).tasks == old(app).tasks && spec_logged(
                            old(app).activity_log.messages@,
                            final(app).activity_log.messages@,
                            "Task already in "@ + spec_container_name(TaskContainer::Backburner),
                        )
                    } else {
                        final(app).tasks@ == old(app).tasks@.update(
                            i,
                            spec_moved(t0, TaskContainer::Backburner),
                        ) && spec_logged(
                            old(app).activity_log.messages@,
                            final(app).activity_log.messages@,
                            "Moved task to "@ + spec_container_name(TaskContainer::Backburner)
                                + ": "@ + t0.content@,
                        )
                    }
                },
                None => final(app).tasks == old(app).tasks && spec_logged(
                    old(app).activity_log.messages@,
                    final(app).activity_log.messages@,
                    "No matching task found"@,
                ),
            }
        }),
        final(app).display_container_state == old(app).display_container_state,
        final(app).next_id == old(app).next_id,
        final(app).app_mode == old(app).app_mode,
        final(app).show_help == old(app).show_help,
{
    execute_move_command(app, query, TaskContainer::Backburner);
}

/// Move the task a query names to the shelved container.
pub fn execute_move_to_shelved_command(app: &mut App, query: &str)
    ensures
        ({
            let target = spec_find_task(
                old(app).tasks@,
                old(app).display_container_state.active_container,
                old(app).display_container_state.folded_tasks@,
                query@,
            );
            match target {
                Some(i) => {
                    let t0 = old(app).tasks@[i];
                    if t0.container == TaskContainer::Shelved {
                        final(app).tasks == old(app).tasks && spec_logged(
                            old(app).activity_log.messages@,
                            final(app).activity_log.messages@,
                            "Task already in "@ + spec_container_name(TaskContainer::Shelved),
                        )
                    } else {
                        final(app).tasks@ == old(app).tasks@.update(
                            i,
                            spec_moved(t0, TaskContainer::Shelved),
                        ) && spec_logged(
                            old(app).activity_log.messages@,
                            final(app).activity_log.messages@,
                            "Moved task to "@ + spec_container_name(TaskContainer::Shelved) + ": "@
                                + t0.content@,
                        )
                    }
                },
                None => final(app).tasks == old(app).tasks && spec_logged(
                    old(app).activity_log.messages@,
                    final(app).activity_log.messages@,
                    "No matching task found"@,
                ),
            }
        }),
        final(app).display_container_state == old(app).display_container_state,
        final(app).next_id == old(app).next_id,
        final(app).app_mode == old(app).app_mode,
        final(app).show_help == old(app).show_help,
{
    execute_move_command(app, query, TaskContainer::Shelved);
}

/// Switch the displayed container, rebuild the display, and say so.
pub fn execute_show_command(app: &mut App, container: TaskContainer)
    ensures
        final(app).tasks == old(app).tasks,
        spec_dcs_after_recompute_in(
            old(app).display_container_state,
            container,
            old(app).tasks@,
            final(app).display_container_state,
        ),
        spec_logged(
            old(app).activity_log.messages@,
            final(app).activity_log.messages@,
            "Showing "@ + spec_container_name(container) + " tasks"@,
        ),
        final(app).next_id == old(app).next_id,
        final(app).app_mode == old(app).app_mode,
        final(app).show_help == old(app).show_help,
{
    let display_name = container.display_name();
    app.display_container_state.active_container = container;
    app.display_container_state.update_display_order(&app.tasks);
    let mut m = "Showing ".to_owned();
    m.append(display_name);
    m.append(" tasks");
    app.activity_log.add_message(m);
}

/// What focusing achieved.
pub enum FocusResult {
    /// Focus moved to the task; its content, for the log message.
    Focused { content: String },
    /// No visible task matched.
    NoMatchingTask,
}

/// Focus the task a query names and mirror its content into the input.
pub fn focus_task(app: &mut App, query: &str) -> (r: FocusResult)
    ensures
        ({
            let target = spec_find_task(
                old(app).tasks@,
                old(app).display_container_state.active_container,
                old(app).display_container_state.folded_tasks@,
                query@,
            );
            match target {
                Some(i) => {
                    let id = old(app).tasks@[i].id;
                    match crate::tasks::spec_position_in(
                        old(app).display_container_state.display_to_id@,
                        id,
                    ) {
                        Some(p) => r == (FocusResult::Focused {
                            content: old(app).tasks@[i].content,
                        }) && final(app).display_container_state.focused_index == Some(
                            (p + 1) as usize,
                        ) && final(app).display_container_state.spec_input() == (
                        match spec_find_index(old(app).tasks@, id) {
                            Some(ti) => old(app).tasks@[ti].content@,
                            None => Seq::<char>::empty(),
                        }) && final(app).display_container_state.request_focus_next_frame && final(app).display_container_state.request_cursor_at_end && final(app).display_container_state.sync_input_with_gui && final(app).display_container_state.display_to_id == old(app).display_container_state.display_to_id && final(app).display_container_state.active_container == old(app).display_container_state.active_container && final(app).display_container_state.folded_tasks == old(app).display_container_state.folded_tasks,
                        None => r == FocusResult::NoMatchingTask && *final(app) == *old(app),
                    }
                },
                None => r == FocusResult::NoMatchingTask && *final(app) == *old(app),
            }
        }),
        final(app).tasks == old(app).tasks,
        final(app).next_id == old(app).next_id,
        final(app).activity_log == old(app).activity_log,
        final(app).app_mode == old(app).app_mode,
        final(app).show_help == old(app).show_help,
{
    match find_task(app, query) {
        Some(index) => {
            let content = app.tasks[index].content.clone();
            let task_id = app.tasks[index].id;
            if app.display_container_state.focus_task_and_update_input(
                Some(task_id),
                &app.tasks,
            ) {
                FocusResult::Focused { content }
            } else {
                FocusResult::NoMatchingTask
            }
        },
        None => FocusResult::NoMatchingTask,
    }
}

/// Focus the task a query names and log what happened.
pub fn execute_focus_command(app: &mut App, query: &str)
    ensures
        ({
            let target = spec_find_task(
                old(app).tasks@,
                old(app).display_container_state.active_container,
                old(app).display_container_state.folded_tasks@,
                query@,
            );
            match target {
                Some(i) => {
                    let id = old(app).tasks@[i].id;
                    match crate::tasks::spec_position_in(
                        old(app).display_container_state.display_to_id@,
                        id,
                    ) {
                        Some(p) => spec_logged(
                            old(app).activity_log.messages@,
                            final(app).activity_log.messages@,
                            "Focused on task: "@ + old(app).tasks@[i].content@,
                        ) && final(app).display_container_state.focused_index == Some(
                            (p + 1) as usize,
                        ),
                        None => spec_logged(
                            old(app).activity_log.messages@,
                            final(app).activity_log.messages@,
                            "No matching task found"@,
                        ) && final(app).display_container_state == old(app).display_container_state,
                    }
                },
                None => spec_logged(
                    old(app).activity_log.messages@,
                    final(app).activity_log.messages@,
                    "No matching task found"@,
                ) && final(app).display_container_state == old(app).display_container_state,
            }
        }),
        final(app).tasks == old(app).tasks,
        final(app).next_id == old(app).next_id,
        final(app).app_mode == old(app).app_mode,
        final(app).show_help == old(app).show_help,
{
    match focus_task(app, query) {
        FocusResult::Focused { content } => {
            let mut m = "Focused on task: ".to_owned();
            m.append(content.as_str());
            app.log_activity(m);
        },
        FocusResult::NoMatchingTask => {
            app.log_activity("No matching task found".to_owned());
        },
    }
}

/// Replace a task's content, found by id, and log the outcome.
pub fn execute_edit_command(app: &mut App, task_id: u32, content: String)
    ensures
        ({
            match spec_find_index(old(app).tasks@, task_id) {
                Some(i) => final(app).tasks@ == old(app).tasks@.update(
                    i,
                    spec_with_content(old(app).tasks@[i], content),
                ) && spec_logged(
                    old(app).activity_log.messages@,
                    final(app).activity_log.messages@,
                    "Task updated"@,
                ),
                None => final(app).tasks == old(app).tasks && spec_logged(
                    old(app).activity_log.messages@,
                    final(app).activity_log.messages@,
                    "No task found with ID "@ + crate::strutil::spec_decimal(task_id as nat),
                ),
            }
        }),
        final(app).display_container_state == old(app).display_container_state,
        final(app).next_id == old(app).next_id,
        final(app).app_mode == old(app).app_mode,
        final(app).show_help == old(app).show_help,
{
    match find_task_by_id(&app.tasks, task_id) {
        Some(i) => {
            let ghost pre = app.tasks@;
            let mut task = app.tasks.remove(i);
            task.update_content(content);
            app.tasks.insert(i, task);
            proof {
                assert(app.tasks@ =~= pre.update(
                    i as int,
                    spec_with_content(pre[i as int], app.tasks@[i as int].content),
                ));
            }
            app.activity_log.add_message("Task updated".to_owned());
        },
        None => {
            let mut m = "No task found with ID ".to_owned();
            let digits = u32_to_string(task_id);
            m.append(digits.as_str());
            app.activity_log.add_message(m);
        },
    }
}

/// The task with its content replaced.
pub open spec fn spec_with_content(t: Task, content: String) -> Task {
    Task { content, ..t }
}

/// Add a subtask under the task a query or id names; the new task starts in
/// the taskpad and is linked into the parent's child list.
pub fn execute_add_subtask(app: &mut App, query_or_id: &str, content: &str) -> (r: Option<u32>)
    requires
        old(app).next_id < u32::MAX,
    ensures
        ({
            let target = (match spec_parse_uint(query_or_id@, u32::MAX as nat) {
                Some(v) => spec_find_index(old(app).tasks@, v as u32),
                None => spec_find_task(
                    old(app).tasks@,
                    old(app).display_container_state.active_container,
                    old(app).display_container_state.folded_tasks@,
                    query_or_id@,
                ),
            });
            match target {
                Some(p) => {
                    let parent0 = old(app).tasks@[p];
                    r == Some(old(app).next_id) && final(app).next_id == old(app).next_id + 1
                        && final(app).tasks@.len() == old(app).tasks@.len() + 1 && (forall|q: int|
                        0 <= q < old(app).tasks@.len() && q != p ==> final(app).tasks@[q] == old(app).tasks@[q]) && final(app).tasks@[p].child_ids@
                        == parent0.child_ids@.push(old(app).next_id) && spec_same_but_children(
                        final(app).tasks@[p],
                        parent0,
                    ) && ({
                        let t = final(app).tasks@.last();
                        t.id == old(app).next_id && t.content@ == content@ && t.container
                            == TaskContainer::Taskpad && t.status == TaskStatus::Todo
                            && t.parent_id == Some(parent0.id) && t.child_ids@.len() == 0
                    }) && spec_logged(
                        old(app).activity_log.messages@,
                        final(app).activity_log.messages@,
                        if content@.len() == 0 {
                            "Added subtask to task '"@ + parent0.content@ + "'"@
                        } else {
                            "Added subtask to task '"@ + parent0.content@ + "': "@ + content@
                        },
                    )
                },
                None => r is None && final(app).tasks == old(app).tasks && final(app).next_id
                    == old(app).next_id && spec_logged(
                    old(app).activity_log.messages@,
                    final(app).activity_log.messages@,
                    "No task found matching '"@ + query_or_id@ + "'"@,
                ),
            }
        }),
        final(app).display_container_state == old(app).display_container_state,
        final(app).app_mode == old(app).app_mode,
        final(app).show_help == old(app).show_help,
{
    let parent_idx = match parse_u32_str(query_or_id) {
        Some(parent_id) => find_task_by_id(&app.tasks, parent_id),
        None => find_task(app, query_or_id),
    };
    match parent_idx {
        Some(parent_idx) => {
            let ghost pre = app.tasks@;
            let parent_id = app.tasks[parent_idx].id;
            let parent_content = app.tasks[parent_idx].content.clone();
            let mut subtask = Task::new(app.next_id, content.to_owned());
            subtask.parent_id = Some(parent_id);
            let subtask_id = subtask.id;
            app.next_id = app.next_id + 1;
            let mut parent = app.tasks.remove(parent_idx);
            parent.add_subtask(subtask_id);
            app.tasks.insert(parent_idx, parent);
            proof {
                assert(forall|q: int|
                    0 <= q < pre.len() && q != parent_idx ==> app.tasks@[q] == pre[q]);
            }
            app.add_task(subtask);
            proof {
                assert(forall|q: int|
                    0 <= q < pre.len() && q != parent_idx ==> app.tasks@[q] == pre[q]);
            }
            let mut m = "Added subtask to task '".to_owned();
            m.append(parent_content.as_str());
            if content.is_empty() {
                m.append("'");
            } else {
                m.append("': ");
                m.append(content);
            }
            app.log_activity(m);
            Some(subtask_id)
        },
        None => {
            let mut m = "No task found matching '".to_owned();
            m.append(query_or_id);
            m.append("'");
            app.log_activity(m);
            None
        },
    }
}

/// Toggle the expansion state of the task a query names and rebuild the
/// display.
pub fn execute_toggle_command(app: &mut App, query: &str)
    ensures
        ({
            let target = spec_find_task(
                old(app).tasks@,
                old(app).display_container_state.active_container,
                old(app).display_container_state.folded_tasks@,
                query@,
            );
            match target {
                Some(i) => {
                    let id = old(app).tasks@[i].id;
                    final(app).display_container_state.folded_tasks@
                        == crate::display_container::spec_toggled(
                        old(app).display_container_state.folded_tasks@,
                        id,
                    ) && final(app).display_container_state.display_to_id@ == spec_display_order(
                        old(app).tasks@,
                        old(app).display_container_state.active_container,
                        crate::display_container::spec_toggled(
                            old(app).display_container_state.folded_tasks@,
                            id,
                        ),
                    ) && spec_logged(
                        old(app).activity_log.messages@,
                        final(app).activity_log.messages@,
                        "Toggled task: "@ + old(app).tasks@[i].content@,
                    )
                },
                None => final(app).display_container_state == old(app).display_container_state
                    && spec_logged(
                    old(app).activity_log.messages@,
                    final(app).activity_log.messages@,
                    "No matching task found"@,
                ),
            }
        }),
        final(app).tasks == old(app).tasks,
        final(app).next_id == old(app).next_id,
        final(app).app_mode == old(app).app_mode,
        final(app).show_help == old(app).show_help,
{
    match find_task(app, query) {
        Some(index) => {
            let task_id = app.tasks[index].id;
            let content = app.tasks[index].content.clone();
            app.display_container_state.toggle_task_expansion(task_id, &app.tasks);
            let mut m = "Toggled task: ".to_owned();
            m.append(content.as_str());
            app.log_activity(m);
        },
        None => {
            app.log_activity("No matching task found".to_owned());
        },
    }
}

/// Toggle the application mode; with a single mode this always lands on the
/// default.
pub fn toggle_app_mode(app: &mut App, current_mode: AppMode) -> (r: AppMode)
    ensures
        r == AppMode::Pkm,
        *final(app) == *old(app),
{
    let _ = current_mode;
    AppMode::Pkm
}

/// Execute a command against the application state. After any command the
/// display list is rebuilt, so it always equals the display order of the
/// resulting task collection, and the help panel is hidden. Only `Create`
/// yields a value: the id of the new task.
pub fn execute_command(app: &mut App, command: Option<Command>) -> (r: Option<u32>)
    requires
        old(app).next_id < u32::MAX,
    ensures
        !final(app).show_help,
        final(app).app_mode == old(app).app_mode,
        final(app).display_container_state.display_to_id@ == spec_display_order(
            final(app).tasks@,
            final(app).display_container_state.active_container,
            final(app).display_container_state.folded_tasks@,
        ),
        match command {
            Some(Command::Create(_)) => r == Some(old(app).next_id),
            _ => r is None,
        },
{
    let result = match command {
        Some(Command::Create(content)) => Some(execute_create_command(app, content.as_str())),
        Some(Command::Complete(query)) => {
            execute_complete_command(app, query.as_str());
            None
        },
        Some(Command::CompleteById(id)) => {
            execute_complete_by_id_command(app, id);
            None
        },
        Some(Command::Delete(query)) => {
            execute_delete_command(app, query.as_str());
            None
        },
        Some(Command::MoveToTaskpad(query)) => {
            execute_move_to_taskpad_command(app, query.as_str());
            None
        },
        Some(Command::MoveToBackburner(query)) => {
            execute_move_to_backburner_command(app, query.as_str());
            None
        },
        Some(Command::MoveToShelved(query)) => {
            execute_move_to_shelved_command(app, query.as_str());
            None
        },
        Some(Command::Focus(query)) => {
            execute_focus_command(app, query.as_str());
            None
        },
        Some(Command::Show(container)) => {
            execute_show_command(app, container);
            None
        },
        Some(Command::Edit(task_id, content)) => {
            execute_edit_command(app, task_id, content);
            None
        },
        Some(Command::AddSubtask(query, content)) => {
            execute_add_subtask(app, query.as_str(), content.as_str());
            None
        },
        Some(Command::Toggle(query)) => {
            execute_toggle_command(app, query.as_str());
            None
        },
        Some(Command::ToggleAppMode) => {
            let mode = app.app_mode;
            app.app_mode = toggle_app_mode(app, mode);
            None
        },
        None => {
            app.activity_log.add_message("Invalid command".to_owned());
            None
        },
    };
    app.display_container_state.update_display_order(&app.tasks);
    app.show_help = false;
    result
}

} // verus!
