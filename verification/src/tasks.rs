//! The task store model: tasks, their containers, and lookup helpers.
//!
//! A task collection is a flat `Vec<Task>`; the tree structure is carried by
//! `parent_id` back-references and ordered `child_ids` lists, so moving or
//! deleting a task never needs graph surgery beyond editing one id list.

use vstd::prelude::*;

verus! {

/// The logical bucket a task currently belongs to.
#[derive(Debug, Clone, Copy, PartialEq, Eq, Structural)]
pub enum TaskContainer {
    Taskpad,
    Backburner,
    Shelved,
    Archived,
}

/// The lowercase container name as it appears in activity-log messages.
pub open spec fn spec_container_name(c: TaskContainer) -> Seq<char> {
    match c {
        TaskContainer::Taskpad => "taskpad"@,
        TaskContainer::Backburner => "backburner"@,
        TaskContainer::Shelved => "shelved"@,
        TaskContainer::Archived => "archived"@,
    }
}

impl TaskContainer {
    /// Lowercase name used in user-facing messages.
    pub fn display_name(&self) -> (r: &'static str)
        ensures
            r@ == spec_container_name(*self),
    {
        match self {
            TaskContainer::Taskpad => "taskpad",
            TaskContainer::Backburner => "backburner",
            TaskContainer::Shelved => "shelved",
            TaskContainer::Archived => "archived",
        }
    }
}

/// Completion state of a task.
#[derive(Debug, Clone, Copy, PartialEq, Eq, Structural)]
pub enum TaskStatus {
    Todo,
    Done,
}

/// A single task record.
#[derive(Debug, Clone)]
pub struct Task {
    /// Stable identifier, unique across the task set's lifetime.
    pub id: u32,
    /// Display text.
    pub content: String,
    /// Creation time, seconds since the Unix epoch.
    pub created_at: i64,
    /// Bucket the task currently belongs to.
    pub container: TaskContainer,
    /// Completion state.
    pub status: TaskStatus,
    /// Owning task, if this is a subtask.
    pub parent_id: Option<u32>,
    /// Ordered ids of the children, in display order.
    pub child_ids: Vec<u32>,
}

/// Relies on `chrono::Utc::now` and `chrono::DateTime::timestamp` for the
/// creation time of a task: the current time as whole seconds since the Unix
/// epoch. Nothing is assumed of the value; it depends on the system clock,
/// which must be at or after the epoch.
#[verifier::external_body]
fn current_unix_timestamp() -> i64 {
    chrono::Utc::now().timestamp()
}

impl Task {
    /// A fresh top-level todo task in the taskpad.
    pub fn new(id: u32, content: String) -> (t: Task)
        ensures
            t.id == id,
            t.content == content,
            t.container == TaskContainer::Taskpad,
            t.status == TaskStatus::Todo,
            t.parent_id is None,
            t.child_ids@ == Seq::<u32>::empty(),
    {
        let child_ids: Vec<u32> = Vec::new();
        proof {
            assert(child_ids@ =~= Seq::<u32>::empty());
        }
        Task {
            id,
            content,
            created_at: current_unix_timestamp(),
            container: TaskContainer::Taskpad,
            status: TaskStatus::Todo,
            parent_id: None,
            child_ids,
        }
    }

    /// The bucket the record currently sits in.
    pub fn container(&self) -> (c: TaskContainer)
        ensures
            c == self.container,
    {
        self.container
    }

    /// Mark the task done and archive it.
    pub fn complete(&mut self)
        ensures
            final(self).status == TaskStatus::Done,
            final(self).container == TaskContainer::Archived,
            final(self).id == old(self).id,
            final(self).content == old(self).content,
            final(self).created_at == old(self).created_at,
            final(self).parent_id == old(self).parent_id,
            final(self).child_ids == old(self).child_ids,
    {
        self.status = TaskStatus::Done;
        self.container = TaskContainer::Archived;
    }

    /// Replace the task's display text.
    pub fn update_content(&mut self, content: String)
        ensures
            final(self).content == content,
            final(self).id == old(self).id,
            final(self).created_at == old(self).created_at,
            final(self).container == old(self).container,
            final(self).status == old(self).status,
            final(self).parent_id == old(self).parent_id,
            final(self).child_ids == old(self).child_ids,
    {
        self.content = content;
    }

    /// Append a child id to the ordered child list.
    pub fn add_subtask(&mut self, subtask_id: u32)
        ensures
            final(self).child_ids@ == old(self).child_ids@.push(subtask_id),
            final(self).id == old(self).id,
            final(self).content == old(self).content,
            final(self).created_at == old(self).created_at,
            final(self).container == old(self).container,
            final(self).status == old(self).status,
            final(self).parent_id == old(self).parent_id,
    {
        self.child_ids.push(subtask_id);
    }
}

/// Index of the first task with the given id, searching from position `i`.
pub open spec fn spec_find_index_from(tasks: Seq<Task>, id: u32, i: int) -> Option<int>
    decreases tasks.len() - i,
{
    if i < 0 || i >= tasks.len() {
        None
    } else if tasks[i].id == id {
        Some(i)
    } else {
        spec_find_index_from(tasks, id, i + 1)
    }
}

/// Index of the first task with the given id, if any.
pub open spec fn spec_find_index(tasks: Seq<Task>, id: u32) -> Option<int> {
    spec_find_index_from(tasks, id, 0)
}

/// Find the position of the first task with the given id.
pub fn find_task_by_id(tasks: &Vec<Task>, id: u32) -> (r: Option<usize>)
    ensures
        match r {
            Some(i) => spec_find_index(tasks@, id) == Some(i as int) && i < tasks@.len()
                && tasks@[i as int].id == id,
            None => spec_find_index(tasks@, id) is None,
        },
{
    let n = tasks.len();
    let mut i: usize = 0;
    while i < n
        invariant
            i <= n,
            n == tasks@.len(),
            spec_find_index(tasks@, id) == spec_find_index_from(tasks@, id, i as int),
        decreases n - i,
    {
        if tasks[i].id == id {
            return Some(i);
        }
        i = i + 1;
    }
    None
}

/// Index of the first task from position `i` whose content equals `q` and,
/// when `restrict` holds, whose container is `c`.
pub open spec fn spec_find_content_from(
    tasks: Seq<Task>,
    q: Seq<char>,
    restrict: bool,
    c: TaskContainer,
    i: int,
) -> Option<int>
    decreases tasks.len() - i,
{
    if i < 0 || i >= tasks.len() {
        None
    } else if tasks[i].content@ == q && (!restrict || tasks[i].container == c) {
        Some(i)
    } else {
        spec_find_content_from(tasks, q, restrict, c, i + 1)
    }
}

/// Position of the task an exact-content search finds: the first task with
/// that content in the preferred container, else the first one anywhere.
pub open spec fn spec_find_by_content(tasks: Seq<Task>, q: Seq<char>, c: TaskContainer) -> Option<
    int,
> {
    match spec_find_content_from(tasks, q, true, c, 0) {
        Some(i) => Some(i),
        None => spec_find_content_from(tasks, q, false, c, 0),
    }
}

/// Find a task by exact content match, preferring the given container.
pub fn find_task_by_content(tasks: &Vec<Task>, query: &str, container: TaskContainer) -> (r:
    Option<usize>)
    ensures
        match r {
            Some(i) => spec_find_by_content(tasks@, query@, container) == Some(i as int) && i
                < tasks@.len() && tasks@[i as int].content@ == query@,
            None => spec_find_by_content(tasks@, query@, container) is None,
        },
{
    let q: String = query.to_owned();
    let n = tasks.len();
    let mut i: usize = 0;
    while i < n
        invariant
            i <= n,
            n == tasks@.len(),
            q@ == query@,
            spec_find_content_from(tasks@, query@, true, container, 0)
                == spec_find_content_from(tasks@, query@, true, container, i as int),
        decreases n - i,
    {
        let t = &tasks[i];
        if t.content == q && t.container == container {
            return Some(i);
        }
        i = i + 1;
    }
    let mut j: usize = 0;
    while j < n
        invariant
            j <= n,
            n == tasks@.len(),
            q@ == query@,
            spec_find_content_from(tasks@, query@, true, container, 0) is None,
            spec_find_content_from(tasks@, query@, false, container, 0)
                == spec_find_content_from(tasks@, query@, false, container, j as int),
        decreases n - j,
    {
        let t = &tasks[j];
        if t.content == q {
            return Some(j);
        }
        j = j + 1;
    }
    None
}

/// The sibling a deleted subtask's focus should move to: the child right
/// before it in the parent's list, else the one right after, else nothing.
pub open spec fn spec_nearest_sibling(tasks: Seq<Task>, task_id: u32) -> Option<u32> {
    match spec_find_index(tasks, task_id) {
        None => None,
        Some(ti) => match tasks[ti].parent_id {
            None => None,
            Some(pid) => match spec_find_index(tasks, pid) {
                None => None,
                Some(pi) => {
                    let kids = tasks[pi].child_ids@;
                    match spec_position_in(kids, task_id) {
                        None => None,
                        Some(pos) => if pos > 0 {
                            Some(kids[pos - 1])
                        } else if pos + 1 < kids.len() {
                            Some(kids[pos + 1])
                        } else {
                            None
                        },
                    }
                },
            },
        },
    }
}

/// Position of the first occurrence of `id` in `s`, searching from `i`.
pub open spec fn spec_position_in_from(s: Seq<u32>, id: u32, i: int) -> Option<int>
    decreases s.len() - i,
{
    if i < 0 || i >= s.len() {
        None
    } else if s[i] == id {
        Some(i)
    } else {
        spec_position_in_from(s, id, i + 1)
    }
}

/// Position of the first occurrence of `id` in `s`, if any.
pub open spec fn spec_position_in(s: Seq<u32>, id: u32) -> Option<int> {
    spec_position_in_from(s, id, 0)
}

/// Find the position of `id` in a list of ids.
pub fn position_of_id(ids: &Vec<u32>, id: u32) -> (r: Option<usize>)
    ensures
        match r {
            Some(i) => spec_position_in(ids@, id) == Some(i as int) && i < ids@.len() && ids@[
                i as int
            ] == id,
            None => spec_position_in(ids@, id) is None,
        },
{
    let n = ids.len();
    let mut i: usize = 0;
    while i < n
        invariant
            i <= n,
            n == ids@.len(),
            spec_position_in(ids@, id) == spec_position_in_from(ids@, id, i as int),
        decreases n - i,
    {
        if ids[i] == id {
            return Some(i);
        }
        i = i + 1;
    }
    None
}

/// For a subtask, the nearest sibling in its parent's child list: the one
/// right before it, else the one right after, else none.
pub fn find_nearest_sibling(tasks: &Vec<Task>, task_id: u32) -> (r: Option<u32>)
    ensures
        r == spec_nearest_sibling(tasks@, task_id),
{
    let ti = match find_task_by_id(tasks, task_id) {
        Some(i) => i,
        None => {
            return None;
        },
    };
    let pid = match tasks[ti].parent_id {
        Some(p) => p,
        None => {
            return None;
        },
    };
    let pi = match find_task_by_id(tasks, pid) {
        Some(i) => i,
        None => {
            return None;
        },
    };
    let kids = &tasks[pi].child_ids;
    match position_of_id(kids, task_id) {
        None => None,
        Some(pos) => {
            if pos > 0 {
                Some(kids[pos - 1])
            } else if pos + 1 < kids.len() {
                Some(kids[pos + 1])
            } else {
                None
            }
        },
    }
}

} // verus!
