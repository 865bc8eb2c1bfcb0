//! The display engine: a consistent, navigable, foldable linearization of a
//! tree-shaped task collection, plus focus and input-buffer state.
//!
//! `display_to_id` holds exactly the tasks of the active container reachable
//! from a top-level task through non-folded ancestors, in depth-first
//! pre-order. Focus lives on a virtual list whose slot 0 is the synthetic
//! "create new task or enter commands" row; slot `i >= 1` is
//! `display_to_id[i - 1]`. The input buffer always mirrors the focused task's
//! content (empty at slot 0) and is re-derived whenever focus or the task set
//! changes.

use std::collections::HashSet;
use vstd::prelude::*;

use crate::strutil::{parse_usize_range, spec_parse_uint, usize_to_string, spec_decimal};
use crate::tasks::{
    find_task_by_id, position_of_id, spec_find_index, spec_find_index_from, spec_nearest_sibling,
    spec_position_in, find_nearest_sibling, Task, TaskContainer,
};

verus! {

broadcast use vstd::std_specs::hash::group_hash_axioms;

/// A top-level task of container `c`: no parent, right bucket.
pub open spec fn spec_is_root_in(t: Task, c: TaskContainer) -> bool {
    t.container == c && t.parent_id is None
}

/// The ids a depth-first walk emits for the children of `pid`, starting at
/// child position `j`: each child id, then (when the child is not folded) its
/// own subtree. `fuel` bounds the depth of the walk; on tree-shaped data a
/// fuel of the collection size is never exhausted.
pub open spec fn spec_kids_from(
    tasks: Seq<Task>,
    folded: Set<u32>,
    kids: Seq<u32>,
    j: int,
    fuel: nat,
) -> Seq<u32>
    decreases fuel, kids.len() - j, 1int,
{
    if j < 0 || j >= kids.len() {
        Seq::empty()
    } else {
        seq![kids[j]] + (if folded.contains(kids[j]) {
            Seq::<u32>::empty()
        } else {
            spec_expand(tasks, folded, kids[j], fuel)
        }) + spec_kids_from(tasks, folded, kids, j + 1, fuel)
    }
}

/// The ids a depth-first walk emits below task `pid` (its children onward).
pub open spec fn spec_expand(tasks: Seq<Task>, folded: Set<u32>, pid: u32, fuel: nat) -> Seq<u32>
    decreases fuel, 0int, 0int,
{
    if fuel == 0 {
        Seq::empty()
    } else {
        match spec_find_index(tasks, pid) {
            Some(i) => spec_kids_from(tasks, folded, tasks[i].child_ids@, 0, (fuel - 1) as nat),
            None => Seq::empty(),
        }
    }
}

/// The display list contributed by tasks from collection position `i` on:
/// every top-level task of container `c`, followed by its subtree when it is
/// not folded.
pub open spec fn spec_roots_from(
    tasks: Seq<Task>,
    c: TaskContainer,
    folded: Set<u32>,
    i: int,
    fuel: nat,
) -> Seq<u32>
    decreases tasks.len() - i,
{
    if i < 0 || i >= tasks.len() {
        Seq::empty()
    } else {
        (if spec_is_root_in(tasks[i], c) {
            seq![tasks[i].id] + (if folded.contains(tasks[i].id) {
                Seq::<u32>::empty()
            } else {
                spec_expand(tasks, folded, tasks[i].id, fuel)
            })
        } else {
            Seq::<u32>::empty()
        }) + spec_roots_from(tasks, c, folded, i + 1, fuel)
    }
}

/// The full display list for a task collection, container and fold state:
/// depth-first pre-order over the visible hierarchy, roots in collection
/// order, children in `child_ids` order.
pub open spec fn spec_display_order(tasks: Seq<Task>, c: TaskContainer, folded: Set<u32>) -> Seq<
    u32,
> {
    spec_roots_from(tasks, c, folded, 0, tasks.len())
}

/// Some task of container `c` exists.
pub open spec fn spec_has_task_in(tasks: Seq<Task>, c: TaskContainer) -> bool {
    exists|i: int| 0 <= i < tasks.len() && #[trigger] tasks[i].container == c
}

/// The content shown for virtual slot `idx`: the content of the task at
/// `display[idx - 1]`, when the slot is a real, existing task.
pub open spec fn spec_focused_content(tasks: Seq<Task>, display: Seq<u32>, idx: usize) -> Option<
    Seq<char>,
> {
    if 1 <= idx <= display.len() {
        match spec_find_index(tasks, display[idx - 1]) {
            Some(i) => Some(tasks[i].content@),
            None => None,
        }
    } else {
        None
    }
}

/// Where focus lands after the input buffer is re-derived: slot 0 when the
/// container is empty, the focused slot vanished, or slot 0 was focused;
/// otherwise the focus is kept.
pub open spec fn spec_resync_focus(
    tasks: Seq<Task>,
    c: TaskContainer,
    f: Option<usize>,
    display: Seq<u32>,
) -> Option<usize> {
    if !spec_has_task_in(tasks, c) {
        Some(0usize)
    } else {
        match f {
            Some(idx) => if idx == 0 {
                Some(0usize)
            } else if spec_focused_content(tasks, display, idx) is Some {
                Some(idx)
            } else {
                Some(0usize)
            },
            None => Some(0usize),
        }
    }
}

/// The input buffer after it is re-derived: the focused task's content, or
/// empty whenever focus falls back to slot 0.
pub open spec fn spec_resync_input(
    tasks: Seq<Task>,
    c: TaskContainer,
    f: Option<usize>,
    display: Seq<u32>,
) -> Seq<char> {
    if !spec_has_task_in(tasks, c) {
        Seq::empty()
    } else {
        match f {
            Some(idx) => if idx == 0 {
                Seq::empty()
            } else {
                match spec_focused_content(tasks, display, idx) {
                    Some(s) => s,
                    None => Seq::empty(),
                }
            },
            None => Seq::empty(),
        }
    }
}

/// Focus kept when still within the new display list, else reset to slot 0.
pub open spec fn spec_corrected_focus(f: Option<usize>, len: nat) -> Option<usize> {
    match f {
        Some(cur) => if cur > len {
            Some(0usize)
        } else {
            Some(cur)
        },
        None => None,
    }
}

/// The byte length of a string with the given characters (a string's byte
/// length always fits a `usize`).
pub open spec fn spec_byte_len(s: Seq<char>) -> nat {
    (vstd::utf8::encode_utf8(s).len() as usize) as nat
}

/// Manages the display state of tasks in the active container: the visible
/// display list, the focused virtual slot, per-task fold state, and the
/// input buffer mirrored from the focused task.
#[derive(Debug)]
pub struct DisplayContainerState {
    /// Ids of the currently visible tasks, in display order.
    pub display_to_id: Vec<u32>,
    /// Currently focused virtual slot (0 is the "new task" row).
    pub focused_index: Option<usize>,
    /// Focus to return to after creating a subtask.
    pub original_focus: Option<usize>,
    /// Text of the input field.
    pub input_value: String,
    /// Cursor position in the input field, in bytes.
    pub input_cursor: usize,
    /// The bucket currently displayed.
    pub active_container: TaskContainer,
    /// Tasks whose children are hidden.
    pub folded_tasks: HashSet<u32>,
    /// Whether the application just started (focus the input once).
    pub initial_startup: bool,
    /// Ask the UI to focus the input widget next frame.
    pub request_focus_next_frame: bool,
    /// Ask the UI to place the cursor at the end of the input.
    pub request_cursor_at_end: bool,
    /// Ask the UI to copy the input buffer into its own text state.
    pub sync_input_with_gui: bool,
}

/// The four UI request/startup flags agree between two states.
pub open spec fn spec_same_flags(a: DisplayContainerState, b: DisplayContainerState) -> bool {
    a.initial_startup == b.initial_startup && a.request_focus_next_frame
        == b.request_focus_next_frame && a.request_cursor_at_end == b.request_cursor_at_end
        && a.sync_input_with_gui == b.sync_input_with_gui
}

impl Default for DisplayContainerState {
    /// Same as `new`: a fresh engine.
    fn default() -> (s: DisplayContainerState)
        ensures
            s.display_to_id@ == Seq::<u32>::empty(),
            s.focused_index == Some(0usize),
            s.original_focus is None,
            s.spec_input() == Seq::<char>::empty(),
            s.spec_cursor() == 0,
            s.active_container == TaskContainer::Taskpad,
            s.folded_tasks@ == Set::<u32>::empty(),
            s.initial_startup,
            !s.request_focus_next_frame,
            !s.request_cursor_at_end,
            !s.sync_input_with_gui,
    {
        DisplayContainerState::new()
    }
}

impl DisplayContainerState {
    /// The input buffer's characters.
    pub open spec fn spec_input(&self) -> Seq<char> {
        self.input_value@
    }

    /// The input cursor, a byte offset into the input buffer.
    pub open spec fn spec_cursor(&self) -> nat {
        self.input_cursor as nat
    }

    /// A fresh engine: empty display, focus on the "new task" slot, taskpad
    /// active, nothing folded.
    pub fn new() -> (s: DisplayContainerState)
        ensures
            s.display_to_id@ == Seq::<u32>::empty(),
            s.focused_index == Some(0usize),
            s.original_focus is None,
            s.spec_input() == Seq::<char>::empty(),
            s.spec_cursor() == 0,
            s.active_container == TaskContainer::Taskpad,
            s.folded_tasks@ == Set::<u32>::empty(),
            s.initial_startup,
            !s.request_focus_next_frame,
            !s.request_cursor_at_end,
            !s.sync_input_with_gui,
    {
        let display_to_id: Vec<u32> = Vec::new();
        proof {
            assert(display_to_id@ =~= Seq::<u32>::empty());
        }
        DisplayContainerState {
            display_to_id,
            focused_index: Some(0),
            original_focus: None,
            input_value: String::new(),
            input_cursor: 0,
            active_container: TaskContainer::Taskpad,
            folded_tasks: HashSet::new(),
            initial_startup: true,
            request_focus_next_frame: false,
            request_cursor_at_end: false,
            sync_input_with_gui: false,
        }
    }

    /// Whether a task currently shows its children.
    pub fn is_task_expanded(&self, task_id: u32) -> (r: bool)
        ensures
            r == !self.folded_tasks@.contains(task_id),
    {
        !self.folded_tasks.contains(&task_id)
    }

    /// Append to `display_ids` the ids a depth-first walk emits below
    /// `parent_id`, skipping the subtrees of folded tasks.
    fn add_children_recursively(
        &self,
        parent_id: u32,
        tasks: &Vec<Task>,
        display_ids: &mut Vec<u32>,
        fuel: usize,
    )
        ensures
            final(display_ids)@ == old(display_ids)@ + spec_expand(
                tasks@,
                self.folded_tasks@,
                parent_id,
                fuel as nat,
            ),
        decreases fuel,
    {
        let ghost folded = self.folded_tasks@;
        if fuel == 0 {
            proof {
                assert(display_ids@ =~= display_ids@ + spec_expand(
                    tasks@,
                    folded,
                    parent_id,
                    0nat,
                ));
            }
            return ;
        }
        match find_task_by_id(tasks, parent_id) {
            None => {
                proof {
                    assert(display_ids@ =~= display_ids@ + spec_expand(
                        tasks@,
                        folded,
                        parent_id,
                        fuel as nat,
                    ));
                }
            },
            Some(pi) => {
                let ghost kids = tasks@[pi as int].child_ids@;
                let n = tasks[pi].child_ids.len();
                let mut j: usize = 0;
                while j < n
                    invariant
                        j <= n,
                        pi < tasks@.len(),
                        n == kids.len(),
                        kids == tasks@[pi as int].child_ids@,
                        folded == self.folded_tasks@,
                        fuel >= 1,
                        spec_find_index(tasks@, parent_id) == Some(pi as int),
                        display_ids@ + spec_kids_from(
                            tasks@,
                            folded,
                            kids,
                            j as int,
                            (fuel - 1) as nat,
                        ) == old(display_ids)@ + spec_expand(
                            tasks@,
                            folded,
                            parent_id,
                            fuel as nat,
                        ),
                    decreases n - j,
                {
                    let ghost ids_before = display_ids@;
                    let cid = tasks[pi].child_ids[j];
                    display_ids.push(cid);
                    let expanded = self.is_task_expanded(cid);
                    if expanded {
                        self.add_children_recursively(cid, tasks, display_ids, fuel - 1);
                    }
                    proof {
                        let sub = if folded.contains(cid) {
                            Seq::<u32>::empty()
                        } else {
                            spec_expand(tasks@, folded, cid, (fuel - 1) as nat)
                        };
                        assert(display_ids@ =~= ids_before + (seq![cid] + sub));
                        assert(spec_kids_from(tasks@, folded, kids, j as int, (fuel - 1) as nat)
                            == (seq![cid] + sub) + spec_kids_from(
                            tasks@,
                            folded,
                            kids,
                            j as int + 1,
                            (fuel - 1) as nat,
                        ));
                        assert(ids_before + ((seq![cid] + sub) + spec_kids_from(
                            tasks@,
                            folded,
                            kids,
                            j as int + 1,
                            (fuel - 1) as nat,
                        )) =~= (ids_before + (seq![cid] + sub)) + spec_kids_from(
                            tasks@,
                            folded,
                            kids,
                            j as int + 1,
                            (fuel - 1) as nat,
                        ));
                    }
                    j = j + 1;
                }
                proof {
                    assert(display_ids@ + spec_kids_from(
                        tasks@,
                        folded,
                        kids,
                        n as int,
                        (fuel - 1) as nat,
                    ) =~= display_ids@);
                }
            },
        }
    }

    /// Rebuild `display_to_id` from the task collection: top-level tasks of
    /// the active container in collection order, each followed by its
    /// non-folded subtree. Focus beyond the new list resets to slot 0, and
    /// the input buffer is re-derived from the (possibly corrected) focus.
    pub fn update_display_order(&mut self, tasks: &Vec<Task>)
        ensures
            final(self).display_to_id@ == spec_display_order(
                tasks@,
                old(self).active_container,
                old(self).folded_tasks@,
            ),
            final(self).focused_index == spec_resync_focus(
                tasks@,
                old(self).active_container,
                spec_corrected_focus(
                    old(self).focused_index,
                    spec_display_order(
                        tasks@,
                        old(self).active_container,
                        old(self).folded_tasks@,
                    ).len(),
                ),
                spec_display_order(tasks@, old(self).active_container, old(self).folded_tasks@),
            ),
            final(self).spec_input() == spec_resync_input(
                tasks@,
                old(self).active_container,
                spec_corrected_focus(
                    old(self).focused_index,
                    spec_display_order(
                        tasks@,
                        old(self).active_container,
                        old(self).folded_tasks@,
                    ).len(),
                ),
                spec_display_order(tasks@, old(self).active_container, old(self).folded_tasks@),
            ),
            final(self).spec_cursor() == spec_byte_len(final(self).spec_input()),
            final(self).active_container == old(self).active_container,
            final(self).folded_tasks == old(self).folded_tasks,
            final(self).original_focus == old(self).original_focus,
            spec_same_flags(*final(self), *old(self)),
    {
        let ghost c = self.active_container;
        let ghost folded = self.folded_tasks@;
        let ghost total = spec_display_order(tasks@, c, folded);
        let n = tasks.len();
        let mut display_ids: Vec<u32> = Vec::new();
        proof {
            assert(display_ids@ =~= Seq::<u32>::empty());
            assert(display_ids@ + spec_roots_from(tasks@, c, folded, 0, n as nat) =~= total);
        }
        let mut i: usize = 0;
        while i < n
            invariant
                i <= n,
                n == tasks@.len(),
                c == self.active_container,
                folded == self.folded_tasks@,
                display_ids@ + spec_roots_from(tasks@, c, folded, i as int, n as nat) == total,
            decreases n - i,
        {
            let ghost ids_before = display_ids@;
            let is_root = tasks[i].parent_id.is_none() && tasks[i].container == self.active_container;
            if is_root {
                let tid = tasks[i].id;
                display_ids.push(tid);
                if self.is_task_expanded(tid) {
                    self.add_children_recursively(tid, tasks, &mut display_ids, n);
                }
                proof {
                    let sub = if folded.contains(tid) {
                        Seq::<u32>::empty()
                    } else {
                        spec_expand(tasks@, folded, tid, n as nat)
                    };
                    assert(display_ids@ =~= ids_before + (seq![tid] + sub));
                    assert(ids_before + ((seq![tid] + sub) + spec_roots_from(
                        tasks@,
                        c,
                        folded,
                        i as int + 1,
                        n as nat,
                    )) =~= (ids_before + (seq![tid] + sub)) + spec_roots_from(
                        tasks@,
                        c,
                        folded,
                        i as int + 1,
                        n as nat,
                    ));
                }
            } else {
                proof {
                    assert(spec_roots_from(tasks@, c, folded, i as int, n as nat)
                        == spec_roots_from(tasks@, c, folded, i as int + 1, n as nat)) by {
                        assert(Seq::<u32>::empty() + spec_roots_from(
                            tasks@,
                            c,
                            folded,
                            i as int + 1,
                            n as nat,
                        ) =~= spec_roots_from(tasks@, c, folded, i as int + 1, n as nat));
                    }
                }
            }
            i = i + 1;
        }
        proof {
            assert(display_ids@ + spec_roots_from(tasks@, c, folded, n as int, n as nat)
                =~= display_ids@);
            assert(display_ids@ == total);
        }
        self.display_to_id = display_ids;
        if let Some(current) = self.focused_index {
            if current > self.display_to_id.len() {
                self.focused_index = Some(0);
                self.update_input_for_focus(tasks);
            }
        }
        self.update_input_for_focus(tasks);
    }

    /// Number of visible tasks (the "new task" slot not counted).
    pub fn len(&self) -> (r: usize)
        ensures
            r == self.display_to_id@.len(),
    {
        self.display_to_id.len()
    }

    /// Whether no task is visible.
    pub fn is_empty(&self) -> (r: bool)
        ensures
            r == (self.display_to_id@.len() == 0),
    {
        self.display_to_id.is_empty()
    }

    /// The 1-based display index of a task id, when visible.
    pub fn get_display_index(&self, task_id: u32) -> (r: Option<usize>)
        ensures
            match r {
                Some(i) => 1 <= i <= self.display_to_id@.len() && spec_position_in(
                    self.display_to_id@,
                    task_id,
                ) == Some(i - 1),
                None => spec_position_in(self.display_to_id@, task_id) is None,
            },
    {
        let _ = self.display_to_id.len();
        match position_of_id(&self.display_to_id, task_id) {
            Some(p) => Some(p + 1),
            None => None,
        }
    }

    /// Move focus up one virtual slot, wrapping from slot 0 to the bottom.
    pub fn focus_previous(&mut self)
        ensures
            final(self).focused_index == (match old(self).focused_index {
                Some(cur) => if cur == 0 {
                    Some(old(self).display_to_id@.len() as usize)
                } else {
                    Some((cur - 1) as usize)
                },
                None => Some(0usize),
            }),
            final(self).display_to_id == old(self).display_to_id,
            final(self).original_focus == old(self).original_focus,
            final(self).spec_input() == old(self).spec_input(),
            final(self).spec_cursor() == old(self).spec_cursor(),
            final(self).active_container == old(self).active_container,
            final(self).folded_tasks == old(self).folded_tasks,
            spec_same_flags(*final(self), *old(self)),
    {
        let max_index = self.display_to_id.len();
        self.focused_index = Some(
            match self.focused_index {
                Some(0) => max_index,
                Some(current) => current - 1,
                None => 0,
            },
        );
    }

    /// Move focus down one virtual slot, wrapping past the bottom to slot 0.
    pub fn focus_next(&mut self)
        ensures
            final(self).focused_index == (match old(self).focused_index {
                Some(cur) => if cur >= old(self).display_to_id@.len() {
                    Some(0usize)
                } else {
                    Some((cur + 1) as usize)
                },
                None => Some(0usize),
            }),
            final(self).display_to_id == old(self).display_to_id,
            final(self).original_focus == old(self).original_focus,
            final(self).spec_input() == old(self).spec_input(),
            final(self).spec_cursor() == old(self).spec_cursor(),
            final(self).active_container == old(self).active_container,
            final(self).folded_tasks == old(self).folded_tasks,
            spec_same_flags(*final(self), *old(self)),
    {
        let max_index = self.display_to_id.len();
        self.focused_index = Some(
            match self.focused_index {
                Some(current) => if current >= max_index {
                    0
                } else {
                    current + 1
                },
                None => 0,
            },
        );
    }

    /// Drop focus entirely.
    pub fn clear_focus(&mut self)
        ensures
            final(self).focused_index is None,
            final(self).display_to_id == old(self).display_to_id,
            final(self).original_focus == old(self).original_focus,
            final(self).spec_input() == old(self).spec_input(),
            final(self).spec_cursor() == old(self).spec_cursor(),
            final(self).active_container == old(self).active_container,
            final(self).folded_tasks == old(self).folded_tasks,
            spec_same_flags(*final(self), *old(self)),
    {
        self.focused_index = None;
    }

    /// Content of the focused task; nothing at slot 0, for a stale id, or
    /// without focus.
    pub fn get_focused_task_content<'a>(&self, tasks: &'a Vec<Task>) -> (r: Option<&'a str>)
        ensures
            match r {
                Some(s) => spec_focused_content(
                    tasks@,
                    self.display_to_id@,
                    self.focused_index->Some_0,
                ) == Some(s@) && self.focused_index is Some,
                None => (match self.focused_index {
                    Some(idx) => idx == 0 || spec_focused_content(
                        tasks@,
                        self.display_to_id@,
                        idx,
                    ) is None,
                    None => true,
                }),
            },
    {
        match self.focused_index {
            Some(idx) => {
                if idx == 0 {
                    None
                } else if idx <= self.display_to_id.len() {
                    let task_id = self.display_to_id[idx - 1];
                    match find_task_by_id(tasks, task_id) {
                        Some(ti) => Some(tasks[ti].content.as_str()),
                        None => None,
                    }
                } else {
                    None
                }
            },
            None => None,
        }
    }

    /// The input field's text.
    pub fn input_value(&self) -> (r: &str)
        ensures
            r@ == self.spec_input(),
    {
        self.input_value.as_str()
    }

    /// The input cursor, a byte offset.
    pub fn input_cursor(&self) -> (r: usize)
        ensures
            r == self.spec_cursor(),
    {
        self.input_cursor
    }

    /// Clear the input field and put the cursor at the start.
    pub fn reset_input(&mut self)
        ensures
            final(self).spec_input() == Seq::<char>::empty(),
            final(self).spec_cursor() == 0,
            final(self).display_to_id == old(self).display_to_id,
            final(self).focused_index == old(self).focused_index,
            final(self).original_focus == old(self).original_focus,
            final(self).active_container == old(self).active_container,
            final(self).folded_tasks == old(self).folded_tasks,
            spec_same_flags(*final(self), *old(self)),
    {
        self.input_value = String::new();
        self.input_cursor = 0;
    }

    /// Replace the input field's text and put the cursor at its end.
    pub fn set_input(&mut self, content: &str)
        ensures
            final(self).spec_input() == content@,
            final(self).spec_cursor() == spec_byte_len(content@),
            final(self).display_to_id == old(self).display_to_id,
            final(self).focused_index == old(self).focused_index,
            final(self).original_focus == old(self).original_focus,
            final(self).active_container == old(self).active_container,
            final(self).folded_tasks == old(self).folded_tasks,
            spec_same_flags(*final(self), *old(self)),
    {
        self.input_value = content.to_owned();
        self.input_cursor = content.len();
    }

    /// Re-derive the input buffer from the focused slot; focus falls back to
    /// slot 0 when the container is empty or the focused task is gone.
    pub fn update_input_for_focus(&mut self, tasks: &Vec<Task>)
        ensures
            final(self).focused_index == spec_resync_focus(
                tasks@,
                old(self).active_container,
                old(self).focused_index,
                old(self).display_to_id@,
            ),
            final(self).spec_input() == spec_resync_input(
                tasks@,
                old(self).active_container,
                old(self).focused_index,
                old(self).display_to_id@,
            ),
            final(self).spec_cursor() == spec_byte_len(final(self).spec_input()),
            final(self).display_to_id == old(self).display_to_id,
            final(self).original_focus == old(self).original_focus,
            final(self).active_container == old(self).active_container,
            final(self).folded_tasks == old(self).folded_tasks,
            spec_same_flags(*final(self), *old(self)),
    {
        let mut has_tasks_in_container = false;
        let n = tasks.len();
        let mut i: usize = 0;
        while i < n
            invariant
                i <= n,
                n == tasks@.len(),
                has_tasks_in_container == exists|j: int|
                    0 <= j < i && #[trigger] tasks@[j].container == self.active_container,
            decreases n - i,
        {
            if tasks[i].container == self.active_container {
                has_tasks_in_container = true;
            }
            i = i + 1;
        }
        proof {
            assert(has_tasks_in_container == spec_has_task_in(tasks@, self.active_container));
        }
        if !has_tasks_in_container {
            self.focused_index = Some(0);
            self.reset_input();
            return ;
        }
        let slot0 = match self.focused_index {
            Some(idx) => idx == 0,
            None => false,
        };
        if slot0 {
            self.reset_input();
        } else {
            let content = self.get_focused_task_content(tasks);
            match content {
                Some(content) => {
                    self.set_input(content);
                },
                None => {
                    self.focused_index = Some(0);
                    self.reset_input();
                },
            }
        }
    }

    /// Resolve a display path such as `1.2` to a task id: the first number
    /// picks a top-level task of the active container, each further number
    /// picks a child of the task so far, which must be expanded. A malformed
    /// path, an out-of-range position, or a folded ancestor gives nothing.
    pub fn get_task_id_by_path(&self, display_path_str: &str, tasks: &Vec<Task>) -> (r: Option<
        u32,
    >)
        ensures
            r == (match spec_parse_index(display_path_str@) {
                Some(p) => spec_resolve_path(
                    tasks@,
                    self.active_container,
                    self.folded_tasks@,
                    p,
                ),
                None => None::<u32>,
            }),
    {
        let ghost c = self.active_container;
        let ghost folded = self.folded_tasks@;
        let ti = match TaskIndex::from_str(display_path_str) {
            Ok(t) => t,
            Err(_) => {
                proof {
                    if spec_parse_index(display_path_str@) is Some {
                        lemma_resolve_path_zero(
                            tasks@,
                            c,
                            folded,
                            spec_parse_index(display_path_str@)->Some_0,
                        );
                    }
                }
                return None;
            },
        };
        let ghost path = ti.path@;
        let n = tasks.len();
        let mut roots: Vec<usize> = Vec::new();
        proof {
            assert(roots@.map_values(|x: usize| x as int) =~= Seq::<int>::empty());
            assert(Seq::<int>::empty() + spec_root_indices_from(tasks@, c, 0)
                =~= spec_root_indices_from(tasks@, c, 0));
        }
        let mut i: usize = 0;
        while i < n
            invariant
                i <= n,
                n == tasks@.len(),
                c == self.active_container,
                spec_root_indices_from(tasks@, c, 0) == roots@.map_values(|x: usize| x as int)
                    + spec_root_indices_from(tasks@, c, i as int),
                forall|q: int| 0 <= q < roots@.len() ==> #[trigger] roots@[q] < n,
            decreases n - i,
        {
            let ghost rm = roots@.map_values(|x: usize| x as int);
            if tasks[i].parent_id.is_none() && tasks[i].container == self.active_container {
                roots.push(i);
                proof {
                    assert(roots@.map_values(|x: usize| x as int) =~= rm + seq![i as int]);
                    assert((rm + seq![i as int]) + spec_root_indices_from(
                        tasks@,
                        c,
                        i as int + 1,
                    ) =~= rm + (seq![i as int] + spec_root_indices_from(tasks@, c, i as int + 1)));
                }
            } else {
                proof {
                    assert(Seq::<int>::empty() + spec_root_indices_from(tasks@, c, i as int + 1)
                        =~= spec_root_indices_from(tasks@, c, i as int + 1));
                }
            }
            i = i + 1;
        }
        proof {
            assert(roots@.map_values(|x: usize| x as int) + spec_root_indices_from(
                tasks@,
                c,
                n as int,
            ) =~= roots@.map_values(|x: usize| x as int));
        }
        let p0 = ti.path[0];
        if p0 == 0 {
            return None;
        }
        if p0 - 1 >= roots.len() {
            proof {
                assert(spec_root_indices_from(tasks@, c, 0).len() == roots@.len());
            }
            return None;
        }
        let mut cur: usize = roots[p0 - 1];
        proof {
            assert(spec_root_indices_from(tasks@, c, 0)[p0 - 1] == roots@[p0 - 1] as int);
        }
        let m = ti.path.len();
        let mut k: usize = 1;
        while k < m
            invariant
                1 <= k <= m,
                m == path.len(),
                path == ti.path@,
                spec_parse_index(display_path_str@) == Some(path),
                cur < tasks@.len(),
                n == tasks@.len(),
                c == self.active_container,
                folded == self.folded_tasks@,
                spec_resolve_path(tasks@, c, folded, path) == spec_resolve_step(
                    tasks@,
                    folded,
                    cur as int,
                    path,
                    k as int,
                ),
            decreases m - k,
        {
            if !self.is_task_expanded(tasks[cur].id) {
                return None;
            }
            let pos = ti.path[k];
            if pos == 0 {
                return None;
            }
            let ghost kidseq = tasks@[cur as int].child_ids@;
            let mut kids: Vec<usize> = Vec::new();
            proof {
                assert(kids@.map_values(|x: usize| x as int) =~= Seq::<int>::empty());
                assert(Seq::<int>::empty() + spec_existing_from(tasks@, kidseq, 0)
                    =~= spec_existing_from(tasks@, kidseq, 0));
            }
            let kn = tasks[cur].child_ids.len();
            let mut j: usize = 0;
            while j < kn
                invariant
                    j <= kn,
                    cur < tasks@.len(),
                    n == tasks@.len(),
                    kn == kidseq.len(),
                    kidseq == tasks@[cur as int].child_ids@,
                    spec_existing_from(tasks@, kidseq, 0) == kids@.map_values(|x: usize| x as int)
                        + spec_existing_from(tasks@, kidseq, j as int),
                    forall|q: int| 0 <= q < kids@.len() ==> #[trigger] kids@[q] < n,
                decreases kn - j,
            {
                let ghost km = kids@.map_values(|x: usize| x as int);
                let cid = tasks[cur].child_ids[j];
                match find_task_by_id(tasks, cid) {
                    Some(t) => {
                        kids.push(t);
                        proof {
                            assert(kids@.map_values(|x: usize| x as int) =~= km + seq![t as int]);
                            assert((km + seq![t as int]) + spec_existing_from(
                                tasks@,
                                kidseq,
                                j as int + 1,
                            ) =~= km + (seq![t as int] + spec_existing_from(
                                tasks@,
                                kidseq,
                                j as int + 1,
                            )));
                        }
                    },
                    None => {
                        proof {
                            assert(Seq::<int>::empty() + spec_existing_from(
                                tasks@,
                                kidseq,
                                j as int + 1,
                            ) =~= spec_existing_from(tasks@, kidseq, j as int + 1));
                        }
                    },
                }
                j = j + 1;
            }
            proof {
                assert(kids@.map_values(|x: usize| x as int) + spec_existing_from(
                    tasks@,
                    kidseq,
                    kn as int,
                ) =~= kids@.map_values(|x: usize| x as int));
                assert(spec_existing_from(tasks@, kidseq, 0).len() == kids@.len());
            }
            if pos - 1 >= kids.len() {
                return None;
            }
            proof {
                assert(spec_existing_from(tasks@, kidseq, 0)[pos - 1] == kids@[pos - 1] as int);
            }
            cur = kids[pos - 1];
            k = k + 1;
        }
        Some(tasks[cur].id)
    }

    /// Focus a task (or the "new task" slot for `None`) and mirror its
    /// content into the input buffer. Fails, leaving the state untouched,
    /// when the task is not currently visible.
    pub fn focus_task_and_update_input(&mut self, task_id: Option<u32>, tasks: &Vec<Task>) -> (r:
        bool)
        ensures
            final(self).display_to_id == old(self).display_to_id,
            final(self).original_focus == old(self).original_focus,
            final(self).active_container == old(self).active_container,
            final(self).folded_tasks == old(self).folded_tasks,
            final(self).initial_startup == old(self).initial_startup,
            match task_id {
                None => r && final(self).focused_index == Some(0usize) && final(self).spec_input()
                    == Seq::<char>::empty() && final(self).spec_cursor() == 0 && final(self).request_focus_next_frame && final(self).request_cursor_at_end && final(self).sync_input_with_gui,
                Some(id) => match spec_position_in(old(self).display_to_id@, id) {
                    Some(p) => r && final(self).focused_index == Some((p + 1) as usize) && final(self).spec_input() == (match spec_find_index(tasks@, id) {
                        Some(ti) => tasks@[ti].content@,
                        None => Seq::<char>::empty(),
                    }) && final(self).spec_cursor() == spec_byte_len(final(self).spec_input())
                        && final(self).request_focus_next_frame && final(self).request_cursor_at_end
                        && final(self).sync_input_with_gui,
                    None => !r && *final(self) == *old(self),
                },
            },
    {
        let id = match task_id {
            None => {
                self.focused_index = Some(0);
                self.reset_input();
                self.request_focus_next_frame = true;
                self.request_cursor_at_end = true;
                self.sync_input_with_gui = true;
                return true;
            },
            Some(id) => id,
        };
        match self.get_display_index(id) {
            Some(display_idx) => {
                self.focused_index = Some(display_idx);
                match find_task_by_id(tasks, id) {
                    Some(ti) => {
                        let content: String = tasks[ti].content.clone();
                        self.set_input(content.as_str());
                    },
                    None => {
                        self.reset_input();
                    },
                }
                self.request_focus_next_frame = true;
                self.request_cursor_at_end = true;
                self.sync_input_with_gui = true;
                true
            },
            None => false,
        }
    }

    /// Place the cursor at `position`, clamped to the end of the input.
    pub fn set_cursor_position(&mut self, position: usize)
        ensures
            final(self).spec_cursor() == (if position as nat <= spec_byte_len(
                old(self).spec_input(),
            ) {
                position as nat
            } else {
                spec_byte_len(old(self).spec_input())
            }),
            final(self).spec_input() == old(self).spec_input(),
            final(self).display_to_id == old(self).display_to_id,
            final(self).focused_index == old(self).focused_index,
            final(self).original_focus == old(self).original_focus,
            final(self).active_container == old(self).active_container,
            final(self).folded_tasks == old(self).folded_tasks,
            spec_same_flags(*final(self), *old(self)),
    {
        let len = self.input_value.as_str().len();
        self.input_cursor = if position <= len {
            position
        } else {
            len
        };
    }

    /// Borrow the input buffer and cursor for direct editing.
    pub fn get_input_mut(&mut self) -> ((text, cursor): (&mut String, &mut usize))
        ensures
            *text == old(self).input_value,
            *cursor == old(self).input_cursor,
            final(self).input_value == *final(text),
            final(self).input_cursor == *final(cursor),
            final(self).display_to_id == old(self).display_to_id,
            final(self).focused_index == old(self).focused_index,
            final(self).original_focus == old(self).original_focus,
            final(self).active_container == old(self).active_container,
            final(self).folded_tasks == old(self).folded_tasks,
            spec_same_flags(*final(self), *old(self)),
    {
        (&mut self.input_value, &mut self.input_cursor)
    }

    /// Flip a task's fold state, then rebuild the display list so it stays
    /// in step with the new fold state.
    pub fn toggle_task_expansion(&mut self, task_id: u32, tasks: &Vec<Task>)
        ensures
            final(self).folded_tasks@ == spec_toggled(old(self).folded_tasks@, task_id),
            final(self).display_to_id@ == spec_display_order(
                tasks@,
                old(self).active_container,
                spec_toggled(old(self).folded_tasks@, task_id),
            ),
            final(self).focused_index == spec_resync_focus(
                tasks@,
                old(self).active_container,
                spec_corrected_focus(
                    old(self).focused_index,
                    spec_display_order(
                        tasks@,
                        old(self).active_container,
                        spec_toggled(old(self).folded_tasks@, task_id),
                    ).len(),
                ),
                spec_display_order(
                    tasks@,
                    old(self).active_container,
                    spec_toggled(old(self).folded_tasks@, task_id),
                ),
            ),
            final(self).spec_input() == spec_resync_input(
                tasks@,
                old(self).active_container,
                spec_corrected_focus(
                    old(self).focused_index,
                    spec_display_order(
                        tasks@,
                        old(self).active_container,
                        spec_toggled(old(self).folded_tasks@, task_id),
                    ).len(),
                ),
                spec_display_order(
                    tasks@,
                    old(self).active_container,
                    spec_toggled(old(self).folded_tasks@, task_id),
                ),
            ),
            final(self).spec_cursor() == spec_byte_len(final(self).spec_input()),
            final(self).active_container == old(self).active_container,
            final(self).original_focus == old(self).original_focus,
            spec_same_flags(*final(self), *old(self)),
    {
        if self.folded_tasks.contains(&task_id) {
            self.folded_tasks.remove(&task_id);
        } else {
            self.folded_tasks.insert(task_id);
        }
        self.update_display_order(tasks);
    }

    /// Fold every currently visible task.
    pub fn collapse_all(&mut self)
        ensures
            final(self).folded_tasks@ == old(self).display_to_id@.to_set(),
            final(self).display_to_id == old(self).display_to_id,
            final(self).focused_index == old(self).focused_index,
            final(self).original_focus == old(self).original_focus,
            final(self).spec_input() == old(self).spec_input(),
            final(self).spec_cursor() == old(self).spec_cursor(),
            final(self).active_container == old(self).active_container,
            spec_same_flags(*final(self), *old(self)),
    {
        let ghost ids = self.display_to_id@;
        let mut folded: HashSet<u32> = HashSet::new();
        let n = self.display_to_id.len();
        let mut j: usize = 0;
        while j < n
            invariant
                j <= n,
                n == ids.len(),
                ids == self.display_to_id@,
                folded@ == ids.take(j as int).to_set(),
            decreases n - j,
        {
            let id = self.display_to_id[j];
            folded.insert(id);
            proof {
                lemma_take_to_set_step(ids, j as int);
            }
            j = j + 1;
        }
        proof {
            assert(ids.take(n as int) =~= ids);
        }
        self.folded_tasks = folded;
    }

    /// Fold one task (the display list is not rebuilt here).
    pub fn fold_task(&mut self, task_id: u32)
        ensures
            final(self).folded_tasks@ == old(self).folded_tasks@.insert(task_id),
            final(self).display_to_id == old(self).display_to_id,
            final(self).focused_index == old(self).focused_index,
            final(self).original_focus == old(self).original_focus,
            final(self).spec_input() == old(self).spec_input(),
            final(self).spec_cursor() == old(self).spec_cursor(),
            final(self).active_container == old(self).active_container,
            spec_same_flags(*final(self), *old(self)),
    {
        self.folded_tasks.insert(task_id);
    }

    /// Fold every task in the list (the display list is not rebuilt here).
    pub fn fold_tasks(&mut self, task_ids: &Vec<u32>)
        ensures
            final(self).folded_tasks@ == old(self).folded_tasks@.union(task_ids@.to_set()),
            final(self).display_to_id == old(self).display_to_id,
            final(self).focused_index == old(self).focused_index,
            final(self).original_focus == old(self).original_focus,
            final(self).spec_input() == old(self).spec_input(),
            final(self).spec_cursor() == old(self).spec_cursor(),
            final(self).active_container == old(self).active_container,
            spec_same_flags(*final(self), *old(self)),
    {
        let ghost base = self.folded_tasks@;
        let ghost ids = task_ids@;
        let n = task_ids.len();
        let mut j: usize = 0;
        while j < n
            invariant
                j <= n,
                n == ids.len(),
                ids == task_ids@,
                self.folded_tasks@ == base.union(ids.take(j as int).to_set()),
                self.display_to_id == old(self).display_to_id,
                self.focused_index == old(self).focused_index,
                self.original_focus == old(self).original_focus,
                self.spec_input() == old(self).spec_input(),
                self.spec_cursor() == old(self).spec_cursor(),
                self.active_container == old(self).active_container,
                spec_same_flags(*self, *old(self)),
                base == old(self).folded_tasks@,
            decreases n - j,
        {
            let id = task_ids[j];
            self.folded_tasks.insert(id);
            proof {
                lemma_take_to_set_step(ids, j as int);
                assert(base.union(ids.take(j as int).to_set()).insert(id) =~= base.union(
                    ids.take(j as int + 1).to_set(),
                ));
            }
            j = j + 1;
        }
        proof {
            assert(ids.take(n as int) =~= ids);
        }
    }

    /// The task focus should move to when `task_id` goes away: for a
    /// subtask, its nearest sibling; for a top-level task, the nearest
    /// top-level task above it in the display order, else the nearest one
    /// below.
    pub fn find_nearest_task_at_same_level(&self, tasks: &Vec<Task>, task_id: u32) -> (r: Option<
        u32,
    >)
        ensures
            r == spec_nearest_at_level(tasks@, self.display_to_id@, task_id),
    {
        let ti = match find_task_by_id(tasks, task_id) {
            Some(i) => i,
            None => {
                return None;
            },
        };
        if tasks[ti].parent_id.is_some() {
            return find_nearest_sibling(tasks, task_id);
        }
        let display_index = match position_of_id(&self.display_to_id, task_id) {
            Some(p) => p,
            None => {
                return None;
            },
        };
        let ghost dsp = self.display_to_id@;
        let mut current_index = display_index;
        while current_index > 0
            invariant
                current_index <= display_index < dsp.len(),
                dsp == self.display_to_id@,
                spec_find_index(tasks@, task_id) == Some(ti as int),
                ti < tasks@.len(),
                tasks@[ti as int].parent_id is None,
                spec_position_in(dsp, task_id) == Some(display_index as int),
                spec_scan_top_before(tasks@, dsp, display_index as int - 1)
                    == spec_scan_top_before(tasks@, dsp, current_index as int - 1),
            decreases current_index,
        {
            current_index = current_index - 1;
            let candidate_id = self.display_to_id[current_index];
            match find_task_by_id(tasks, candidate_id) {
                Some(ci) => {
                    if tasks[ci].parent_id.is_none() {
                        return Some(candidate_id);
                    }
                },
                None => {},
            }
        }
        let n = self.display_to_id.len();
        let mut current_index = display_index;
        while current_index + 1 < n
            invariant
                display_index <= current_index < n,
                n == dsp.len(),
                dsp == self.display_to_id@,
                spec_find_index(tasks@, task_id) == Some(ti as int),
                ti < tasks@.len(),
                tasks@[ti as int].parent_id is None,
                spec_position_in(dsp, task_id) == Some(display_index as int),
                spec_scan_top_before(tasks@, dsp, display_index as int - 1) is None,
                spec_scan_top_after(tasks@, dsp, display_index as int + 1)
                    == spec_scan_top_after(tasks@, dsp, current_index as int + 1),
            decreases n - current_index,
        {
            current_index = current_index + 1;
            let candidate_id = self.display_to_id[current_index];
            match find_task_by_id(tasks, candidate_id) {
                Some(ci) => {
                    if tasks[ci].parent_id.is_none() {
                        return Some(candidate_id);
                    }
                },
                None => {},
            }
        }
        None
    }
}

/// `folded` with the membership of `id` flipped.
pub open spec fn spec_toggled(folded: Set<u32>, id: u32) -> Set<u32> {
    if folded.contains(id) {
        folded.remove(id)
    } else {
        folded.insert(id)
    }
}

/// Whether position `j` of `display` names an existing top-level task.
pub open spec fn spec_is_top_at(tasks: Seq<Task>, display: Seq<u32>, j: int) -> bool {
    match spec_find_index(tasks, display[j]) {
        Some(ci) => tasks[ci].parent_id is None,
        None => false,
    }
}

/// Scan `display` from position `j` towards the front for the first id
/// whose task exists and is top-level.
pub open spec fn spec_scan_top_before(tasks: Seq<Task>, display: Seq<u32>, j: int) -> Option<u32>
    decreases j + 1,
{
    if j < 0 || j >= display.len() {
        None
    } else if spec_is_top_at(tasks, display, j) {
        Some(display[j])
    } else {
        spec_scan_top_before(tasks, display, j - 1)
    }
}

/// Scan `display` from position `j` towards the back for the first id
/// whose task exists and is top-level.
pub open spec fn spec_scan_top_after(tasks: Seq<Task>, display: Seq<u32>, j: int) -> Option<u32>
    decreases display.len() - j,
{
    if j < 0 || j >= display.len() {
        None
    } else if spec_is_top_at(tasks, display, j) {
        Some(display[j])
    } else {
        spec_scan_top_after(tasks, display, j + 1)
    }
}

/// What `find_nearest_task_at_same_level` returns: sibling for subtasks,
/// nearest top-level neighbour (above first) for top-level tasks.
pub open spec fn spec_nearest_at_level(tasks: Seq<Task>, display: Seq<u32>, task_id: u32) -> Option<
    u32,
> {
    match spec_find_index(tasks, task_id) {
        None => None,
        Some(ti) => if tasks[ti].parent_id is Some {
            spec_nearest_sibling(tasks, task_id)
        } else {
            match spec_position_in(display, task_id) {
                None => None,
                Some(d) => match spec_scan_top_before(tasks, display, d - 1) {
                    Some(above) => Some(above),
                    None => spec_scan_top_after(tasks, display, d + 1),
                },
            }
        },
    }
}

/// Collection positions of the top-level tasks of container `c`, scanning
/// from position `i`.
pub open spec fn spec_root_indices_from(tasks: Seq<Task>, c: TaskContainer, i: int) -> Seq<int>
    decreases tasks.len() - i,
{
    if i < 0 || i >= tasks.len() {
        Seq::empty()
    } else {
        (if spec_is_root_in(tasks[i], c) {
            seq![i]
        } else {
            Seq::<int>::empty()
        }) + spec_root_indices_from(tasks, c, i + 1)
    }
}

/// Collection positions of the children in `kids` (from position `j`) that
/// name an existing task, dangling ids skipped.
pub open spec fn spec_existing_from(tasks: Seq<Task>, kids: Seq<u32>, j: int) -> Seq<int>
    decreases kids.len() - j,
{
    if j < 0 || j >= kids.len() {
        Seq::empty()
    } else {
        (match spec_find_index(tasks, kids[j]) {
            Some(t) => seq![t],
            None => Seq::<int>::empty(),
        }) + spec_existing_from(tasks, kids, j + 1)
    }
}

/// Walk the path positions `path[k..]` down from the task at collection
/// position `cur`: each step needs the current task unfolded and a valid
/// 1-based position into its existing children.
pub open spec fn spec_resolve_step(
    tasks: Seq<Task>,
    folded: Set<u32>,
    cur: int,
    path: Seq<usize>,
    k: int,
) -> Option<u32>
    decreases path.len() - k,
{
    if k < 0 || k >= path.len() {
        Some(tasks[cur].id)
    } else if folded.contains(tasks[cur].id) {
        None
    } else if path[k] < 1 {
        None
    } else {
        let kids = spec_existing_from(tasks, tasks[cur].child_ids@, 0);
        if path[k] > kids.len() {
            None
        } else {
            spec_resolve_step(tasks, folded, kids[path[k] - 1], path, k + 1)
        }
    }
}

/// Resolve a parsed display path against a task collection: `path[0]` picks
/// a top-level task of container `c` (1-based), each further position picks
/// an existing child of the current task, which must not be folded. Any
/// out-of-range or zero position fails.
pub open spec fn spec_resolve_path(
    tasks: Seq<Task>,
    c: TaskContainer,
    folded: Set<u32>,
    path: Seq<usize>,
) -> Option<u32> {
    if path.len() == 0 {
        None
    } else {
        let roots = spec_root_indices_from(tasks, c, 0);
        if path[0] < 1 || path[0] > roots.len() {
            None
        } else {
            spec_resolve_step(tasks, folded, roots[path[0] - 1], path, 1)
        }
    }
}

/// `s` with every trailing `.` removed.
pub open spec fn spec_strip_trailing_dots(s: Seq<char>) -> Seq<char>
    decreases s.len(),
{
    if s.len() > 0 && s[s.len() - 1] == '.' {
        spec_strip_trailing_dots(s.drop_last())
    } else {
        s
    }
}

/// Remove every trailing `.` from a string.
pub fn strip_trailing_dots(s: &str) -> (r: String)
    ensures
        r@ == spec_strip_trailing_dots(s@),
{
    let n = s.unicode_len();
    let mut e = n;
    while e > 0 && s.get_char(e - 1) == '.'
        invariant
            e <= n,
            n == s@.len(),
            forall|j: int| e <= j < n ==> s@[j] == '.',
        decreases e,
    {
        e = e - 1;
    }
    proof {
        lemma_strip_dots_take(s@, e as int);
    }
    let r = s.substring_char(0, e);
    proof {
        assert(r@ =~= s@.take(e as int));
    }
    r.to_owned()
}

/// `s` split at every `.`, as `str::split('.')` yields it: always at least
/// one (possibly empty) segment.
pub open spec fn spec_split_dots(s: Seq<char>) -> Seq<Seq<char>>
    decreases s.len(),
{
    if s.len() == 0 {
        seq![Seq::<char>::empty()]
    } else if s[0] == '.' {
        seq![Seq::<char>::empty()] + spec_split_dots(s.drop_first())
    } else {
        let rest = spec_split_dots(s.drop_first());
        rest.update(0, seq![s[0]] + rest[0])
    }
}

/// Parse every segment as a `usize`; any malformed or overflowing segment
/// spoils the whole list.
pub open spec fn spec_parse_seg_list(segs: Seq<Seq<char>>) -> Option<Seq<usize>>
    decreases segs.len(),
{
    if segs.len() == 0 {
        Some(Seq::empty())
    } else {
        match spec_parse_uint(segs[0], usize::MAX as nat) {
            None => None,
            Some(v) => match spec_parse_seg_list(segs.drop_first()) {
                None => None,
                Some(r) => Some(seq![v as usize] + r),
            },
        }
    }
}

/// What parsing a display path gives: trailing dots removed, the rest split
/// at dots, every segment read as a number.
pub open spec fn spec_parse_index(s: Seq<char>) -> Option<Seq<usize>> {
    spec_parse_seg_list(spec_split_dots(spec_strip_trailing_dots(s)))
}

/// A split always yields at least one segment.
proof fn lemma_split_dots_len(s: Seq<char>)
    ensures
        spec_split_dots(s).len() >= 1,
    decreases s.len(),
{
    if s.len() > 0 {
        lemma_split_dots_len(s.drop_first());
    }
}

/// Splitting at the first dot: the prefix is the first segment, the rest
/// splits on its own.
proof fn lemma_split_dots_first_dot(s: Seq<char>, d: int)
    requires
        0 <= d < s.len(),
        s[d] == '.',
        forall|j: int| 0 <= j < d ==> s[j] != '.',
    ensures
        spec_split_dots(s) == seq![s.take(d)] + spec_split_dots(s.skip(d + 1)),
    decreases d,
{
    if d == 0 {
        assert(s.take(0) =~= Seq::<char>::empty());
        assert(s.drop_first() =~= s.skip(1));
    } else {
        let s1 = s.drop_first();
        assert(s1[d - 1] == '.');
        assert forall|j: int| 0 <= j < d - 1 implies s1[j] != '.' by {
            assert(s1[j] == s[j + 1]);
        }
        lemma_split_dots_first_dot(s1, d - 1);
        lemma_split_dots_len(s1.skip(d));
        let rest = spec_split_dots(s1);
        assert(rest[0] == s1.take(d - 1));
        assert(seq![s[0]] + s1.take(d - 1) =~= s.take(d));
        assert(s1.skip(d) =~= s.skip(d + 1));
        assert(rest.update(0, seq![s[0]] + rest[0]) =~= seq![s.take(d)] + spec_split_dots(
            s.skip(d + 1),
        ));
    }
}

/// Splitting a dot-free string yields that string as the only segment.
proof fn lemma_split_dots_no_dot(s: Seq<char>)
    requires
        forall|j: int| 0 <= j < s.len() ==> s[j] != '.',
    ensures
        spec_split_dots(s) == seq![s],
    decreases s.len(),
{
    if s.len() == 0 {
        assert(s =~= Seq::<char>::empty());
    } else {
        let s1 = s.drop_first();
        assert forall|j: int| 0 <= j < s1.len() implies s1[j] != '.' by {
            assert(s1[j] == s[j + 1]);
        }
        lemma_split_dots_no_dot(s1);
        let rest = spec_split_dots(s1);
        assert(rest[0] == s1);
        assert(seq![s[0]] + s1 =~= s);
        assert(rest.update(0, seq![s[0]] + rest[0]) =~= seq![s]);
    }
}

/// Stripping stops at `e` when everything after is a dot and the character
/// before is not.
proof fn lemma_strip_dots_take(s: Seq<char>, e: int)
    requires
        0 <= e <= s.len(),
        forall|j: int| e <= j < s.len() ==> s[j] == '.',
        e == 0 || s[e - 1] != '.',
    ensures
        spec_strip_trailing_dots(s) == s.take(e),
    decreases s.len() - e,
{
    if e == s.len() {
        assert(s.take(e) =~= s);
        if s.len() > 0 {
            assert(s[s.len() - 1] != '.');
        }
    } else {
        assert(s[s.len() - 1] == '.');
        lemma_strip_dots_take(s.drop_last(), e);
        assert(s.drop_last().take(e) =~= s.take(e));
    }
}

/// Parse the dot-separated segments of `s` in positions `lo..e` as numbers,
/// mirroring `spec_parse_seg_list` over `spec_split_dots`.
fn parse_segments_range(s: &str, lo: usize, e: usize) -> (r: Option<Vec<usize>>)
    requires
        lo <= e <= s@.len(),
    ensures
        match r {
            Some(v) => spec_parse_seg_list(spec_split_dots(s@.subrange(lo as int, e as int)))
                == Some(v@) && v@.len() >= 1,
            None => spec_parse_seg_list(
                spec_split_dots(s@.subrange(lo as int, e as int)),
            ) is None,
        },
    decreases e - lo,
{
    let ghost t = s@.subrange(lo as int, e as int);
    let mut d = lo;
    while d < e && s.get_char(d) != '.'
        invariant
            lo <= d <= e <= s@.len(),
            t == s@.subrange(lo as int, e as int),
            forall|j: int| lo <= j < d ==> s@[j] != '.',
        decreases e - d,
    {
        d = d + 1;
    }
    proof {
        assert forall|j: int| 0 <= j < d - lo implies t[j] != '.' by {
            assert(t[j] == s@[j + lo]);
        }
    }
    if d == e {
        proof {
            lemma_split_dots_no_dot(t);
        }
        match parse_usize_range(s, lo, e) {
            Some(v) => {
                let mut out: Vec<usize> = Vec::new();
                out.push(v);
                proof {
                    assert(out@ =~= seq![v]);
                    assert(seq![v] + Seq::<usize>::empty() =~= seq![v]);
                    assert(spec_split_dots(t).drop_first() =~= Seq::<Seq<char>>::empty());
                }
                Some(out)
            },
            None => None,
        }
    } else {
        proof {
            assert(t[d - lo] == s@[d as int]);
            lemma_split_dots_first_dot(t, d - lo);
            assert(t.take(d - lo) =~= s@.subrange(lo as int, d as int));
            assert(t.skip(d - lo + 1) =~= s@.subrange(d as int + 1, e as int));
            lemma_split_dots_len(t.skip(d - lo + 1));
            assert(spec_split_dots(t)[0] == t.take(d - lo));
            assert(spec_split_dots(t).drop_first() =~= spec_split_dots(t.skip(d - lo + 1)));
        }
        match parse_usize_range(s, lo, d) {
            None => None,
            Some(v) => {
                match parse_segments_range(s, d + 1, e) {
                    None => None,
                    Some(mut rest) => {
                        let ghost old_rest = rest@;
                        rest.insert(0, v);
                        proof {
                            assert(rest@ =~= seq![v] + old_rest);
                            assert(spec_split_dots(t)[0] == t.take(d - lo));
                            assert(spec_parse_seg_list(spec_split_dots(t)) == Some(
                                seq![v] + old_rest,
                            ));
                        }
                        Some(rest)
                    },
                }
            },
        }
    }
}

/// A hierarchical display path such as `1.2.3`: 1-based positions into the
/// visible hierarchy.
#[derive(Debug, Clone, PartialEq, Eq)]
pub struct TaskIndex {
    /// The positions, outermost first.
    pub path: Vec<usize>,
}

impl TaskIndex {
    /// Parse a display path: trailing dots are ignored, every segment must
    /// be a positive number.
    pub fn from_str(s: &str) -> (r: Result<TaskIndex, String>)
        ensures
            r is Ok ==> spec_parse_index(s@) == Some(r->Ok_0.path@) && r->Ok_0.path@.len() >= 1
                && (forall|k: int|
                0 <= k < r->Ok_0.path@.len() ==> #[trigger] r->Ok_0.path@[k] != 0),
            r is Err && spec_parse_index(s@) is None ==> r->Err_0@
                == "Invalid task index format"@,
            r is Err && spec_parse_index(s@) is Some ==> (exists|k: int|
                0 <= k < spec_parse_index(s@)->Some_0.len() && #[trigger] spec_parse_index(
                    s@,
                )->Some_0[k] == 0) && r->Err_0@ == "Task indices must be positive"@,
    {
        let n = s.unicode_len();
        let mut e = n;
        while e > 0 && s.get_char(e - 1) == '.'
            invariant
                e <= n,
                n == s@.len(),
                forall|j: int| e <= j < n ==> s@[j] == '.',
            decreases e,
        {
            e = e - 1;
        }
        proof {
            lemma_strip_dots_take(s@, e as int);
            assert(s@.take(e as int) =~= s@.subrange(0, e as int));
        }
        match parse_segments_range(s, 0, e) {
            None => Err("Invalid task index format".to_owned()),
            Some(path) => {
                let m = path.len();
                let mut k: usize = 0;
                while k < m
                    invariant
                        k <= m,
                        m == path@.len(),
                        spec_parse_index(s@) == Some(path@),
                        forall|j: int| 0 <= j < k ==> #[trigger] path@[j] != 0,
                    decreases m - k,
                {
                    if path[k] == 0 {
                        proof {
                            assert((k as int) < path@.len() && path@[k as int] == 0);
                            assert(spec_parse_index(s@)->Some_0 == path@);
                            assert(spec_parse_index(s@)->Some_0[k as int] == 0);
                            assert(exists|j: int|
                                0 <= j < spec_parse_index(s@)->Some_0.len()
                                    && #[trigger] spec_parse_index(s@)->Some_0[j] == 0);
                        }
                        return Err("Task indices must be positive".to_owned());
                    }
                    k = k + 1;
                }
                Ok(TaskIndex { path })
            },
        }
    }

    /// The positions of this path.
    pub fn path(&self) -> (r: &Vec<usize>)
        ensures
            r@ == self.path@,
    {
        &self.path
    }

    /// The path written back out as `1.2.3`.
    pub fn to_path_string(&self) -> (r: String)
        ensures
            r@ == spec_path_string(self.path@),
    {
        let mut out = String::new();
        let m = self.path.len();
        let mut k: usize = 0;
        while k < m
            invariant
                k <= m,
                m == self.path@.len(),
                out@ == spec_path_string_upto(self.path@, k as int),
            decreases m - k,
        {
            if k > 0 {
                out.append(".");
                proof {
                    reveal_strlit(".");
                }
            }
            let digits = usize_to_string(self.path[k]);
            out.append(digits.as_str());
            k = k + 1;
        }
        out
    }
}

/// The dotted rendering of the first `k` positions of a path.
pub open spec fn spec_path_string_upto(p: Seq<usize>, k: int) -> Seq<char>
    decreases k,
{
    if k <= 0 {
        Seq::empty()
    } else if k == 1 {
        spec_decimal(p[0] as nat)
    } else {
        spec_path_string_upto(p, k - 1) + seq!['.'] + spec_decimal(p[k - 1] as nat)
    }
}

/// The dotted rendering of a whole path, `1.2.3` style.
pub open spec fn spec_path_string(p: Seq<usize>) -> Seq<char> {
    spec_path_string_upto(p, p.len() as int)
}

/// A log of user-visible activity messages, newest first.
#[derive(Default)]
pub struct ActivityLog {
    /// The messages, most recent at the front.
    pub messages: Vec<String>,
}

impl ActivityLog {
    /// An empty log.
    pub fn new() -> (r: ActivityLog)
        ensures
            r.messages@ == Seq::<String>::empty(),
    {
        let messages: Vec<String> = Vec::new();
        proof {
            assert(messages@ =~= Seq::<String>::empty());
        }
        ActivityLog { messages }
    }

    /// Record a message as the newest entry.
    pub fn add_message(&mut self, message: String)
        ensures
            final(self).messages@ == seq![message] + old(self).messages@,
            final(self).messages@.len() == old(self).messages@.len() + 1,
            final(self).messages@[0] == message,
            final(self).messages@.drop_first() == old(self).messages@,
    {
        self.messages.insert(0, message);
        proof {
            assert(self.messages@ =~= seq![self.messages@[0]] + old(self).messages@);
            assert(self.messages@.drop_first() =~= old(self).messages@);
        }
    }

    /// The most recent message, if any.
    pub fn latest_message(&self) -> (r: Option<&str>)
        ensures
            match r {
                Some(s) => self.messages@.len() > 0 && s@ == self.messages@[0]@,
                None => self.messages@.len() == 0,
            },
    {
        if self.messages.len() > 0 {
            Some(self.messages[0].as_str())
        } else {
            None
        }
    }
}

/// A step of the walk fails once any later position is zero.
proof fn lemma_resolve_step_zero(
    tasks: Seq<Task>,
    folded: Set<u32>,
    cur: int,
    path: Seq<usize>,
    j: int,
    k: int,
)
    requires
        0 <= j <= k < path.len(),
        path[k] == 0,
    ensures
        spec_resolve_step(tasks, folded, cur, path, j) is None,
    decreases k - j,
{
    if !folded.contains(tasks[cur].id) && path[j] >= 1 {
        let kids = spec_existing_from(tasks, tasks[cur].child_ids@, 0);
        if path[j] <= kids.len() {
            lemma_resolve_step_zero(tasks, folded, kids[path[j] - 1], path, j + 1, k);
        }
    }
}

/// A path with a zero position never resolves.
proof fn lemma_resolve_path_zero(
    tasks: Seq<Task>,
    c: TaskContainer,
    folded: Set<u32>,
    path: Seq<usize>,
)
    requires
        exists|k: int| 0 <= k < path.len() && #[trigger] path[k] == 0,
    ensures
        spec_resolve_path(tasks, c, folded, path) is None,
{
    let k = choose|k: int| 0 <= k < path.len() && #[trigger] path[k] == 0;
    if path[0] >= 1 {
        let roots = spec_root_indices_from(tasks, c, 0);
        if path[0] <= roots.len() {
            lemma_resolve_step_zero(tasks, folded, roots[path[0] - 1], path, 1, k);
        }
    }
}

/// All tasks have distinct ids.
pub open spec fn spec_unique_ids(tasks: Seq<Task>) -> bool {
    forall|i: int, j: int|
        #![trigger tasks[i].id, tasks[j].id]
        0 <= i < j < tasks.len() ==> tasks[i].id != tasks[j].id
}

/// Every listed child exists and points back at the task that lists it.
pub open spec fn spec_child_links_consistent(tasks: Seq<Task>) -> bool {
    forall|i: int, k: int|
        #![trigger tasks[i].child_ids@[k]]
        0 <= i < tasks.len() && 0 <= k < tasks[i].child_ids@.len() ==> (match spec_find_index(
            tasks,
            tasks[i].child_ids@[k],
        ) {
            Some(j) => tasks[j].parent_id == Some(tasks[i].id),
            None => false,
        })
}

/// A tree-shaped task collection: unique ids, and child lists that agree
/// with the parent back-references.
pub open spec fn spec_wf_tree(tasks: Seq<Task>) -> bool {
    spec_unique_ids(tasks) && spec_child_links_consistent(tasks)
}

/// The task with id `did` lies strictly below the task with id `aid`:
/// following parent links from `did` reaches `aid` within `fuel` steps.
pub open spec fn spec_is_descendant(tasks: Seq<Task>, did: u32, aid: u32, fuel: nat) -> bool
    decreases fuel,
{
    if fuel == 0 {
        false
    } else {
        match spec_find_index(tasks, did) {
            Some(di) => match tasks[di].parent_id {
                Some(p) => p == aid || spec_is_descendant(tasks, p, aid, (fuel - 1) as nat),
                None => false,
            },
            None => None::<int> is Some,
        }
    }
}

/// The id is visible: it names a top-level task of the container, or some
/// visible, unfolded task lists it as a child.
pub open spec fn spec_vis(
    tasks: Seq<Task>,
    c: TaskContainer,
    folded: Set<u32>,
    id: u32,
    fuel: nat,
) -> bool
    decreases fuel,
{
    (exists|i: int|
        0 <= i < tasks.len() && #[trigger] tasks[i].id == id && spec_is_root_in(tasks[i], c)) || (
    fuel > 0 && exists|p: int|
        0 <= p < tasks.len() && spec_vis(tasks, c, folded, #[trigger] tasks[p].id, (fuel - 1) as nat)
            && !folded.contains(tasks[p].id) && tasks[p].child_ids@.contains(id))
}

/// The id is visible at some depth.
pub open spec fn spec_vis_any(tasks: Seq<Task>, c: TaskContainer, folded: Set<u32>, id: u32) -> bool {
    exists|f: nat| spec_vis(tasks, c, folded, id, f)
}

/// What `spec_find_index` returns is the first position with that id.
pub proof fn lemma_find_index_props(tasks: Seq<Task>, id: u32, i: int)
    requires
        0 <= i,
    ensures
        match spec_find_index_from(tasks, id, i) {
            Some(j) => i <= j < tasks.len() && tasks[j].id == id && (forall|q: int|
                i <= q < j ==> tasks[q].id != id),
            None => forall|q: int| i <= q < tasks.len() ==> tasks[q].id != id,
        },
    decreases tasks.len() - i,
{
    if i < tasks.len() && tasks[i].id != id {
        lemma_find_index_props(tasks, id, i + 1);
    }
}

/// Every id a child walk emits is visible, provided the kids themselves are.
proof fn lemma_kids_vis(
    tasks: Seq<Task>,
    c: TaskContainer,
    folded: Set<u32>,
    kids: Seq<u32>,
    j: int,
    fuel: nat,
)
    requires
        forall|k: int| 0 <= k < kids.len() ==> spec_vis_any(tasks, c, folded, #[trigger] kids[k]),
    ensures
        forall|d: u32|
            spec_kids_from(tasks, folded, kids, j, fuel).contains(d) ==> spec_vis_any(
                tasks,
                c,
                folded,
                d,
            ),
    decreases fuel, kids.len() - j, 1int,
{
    if !(j < 0 || j >= kids.len()) {
        let a = seq![kids[j]];
        let b = if folded.contains(kids[j]) {
            Seq::<u32>::empty()
        } else {
            spec_expand(tasks, folded, kids[j], fuel)
        };
        let rest = spec_kids_from(tasks, folded, kids, j + 1, fuel);
        if !folded.contains(kids[j]) {
            lemma_expand_vis(tasks, c, folded, kids[j], fuel);
        }
        lemma_kids_vis(tasks, c, folded, kids, j + 1, fuel);
        assert forall|d: u32|
            spec_kids_from(tasks, folded, kids, j, fuel).contains(d) implies spec_vis_any(
            tasks,
            c,
            folded,
            d,
        ) by {
            let idx = choose|idx: int|
                0 <= idx < spec_kids_from(tasks, folded, kids, j, fuel).len()
                    && spec_kids_from(tasks, folded, kids, j, fuel)[idx] == d;
            if idx < 1 {
                assert(d == kids[j]);
            } else if idx < 1 + b.len() {
                assert(b[idx - 1] == d);
                assert(b.contains(d));
                assert(!folded.contains(kids[j]));
            } else {
                assert(rest[idx - 1 - b.len()] == d);
                assert(rest.contains(d));
            }
        }
    }
}

/// Every id emitted below a visible, unfolded task is itself visible.
proof fn lemma_expand_vis(tasks: Seq<Task>, c: TaskContainer, folded: Set<u32>, pid: u32, fuel: nat)
    requires
        spec_vis_any(tasks, c, folded, pid),
        !folded.contains(pid),
    ensures
        forall|d: u32|
            spec_expand(tasks, folded, pid, fuel).contains(d) ==> spec_vis_any(tasks, c, folded, d),
    decreases fuel, 0int, 0int,
{
    if fuel > 0 {
        match spec_find_index(tasks, pid) {
            Some(ci) => {
                lemma_find_index_props(tasks, pid, 0);
                let f0 = choose|f: nat| spec_vis(tasks, c, folded, pid, f);
                assert forall|k: int|
                    0 <= k < tasks[ci].child_ids@.len() implies spec_vis_any(
                    tasks,
                    c,
                    folded,
                    #[trigger] tasks[ci].child_ids@[k],
                ) by {
                    let x = tasks[ci].child_ids@[k];
                    assert(tasks[ci].child_ids@.contains(x));
                    assert(tasks[ci].id == pid);
                    assert(spec_vis(tasks, c, folded, x, (f0 + 1) as nat));
                }
                assert forall|k: int|
                    0 <= k < tasks[ci].child_ids@.len() implies spec_vis_any(
                    tasks,
                    c,
                    folded,
                    #[trigger] tasks[ci].child_ids@[k],
                ) by {}
                lemma_kids_vis(tasks, c, folded, tasks[ci].child_ids@, 0, (fuel - 1) as nat);
            },
            None => {},
        }
    }
}

/// Every id on the display list is visible.
proof fn lemma_roots_vis(tasks: Seq<Task>, c: TaskContainer, folded: Set<u32>, i: int, fuel: nat)
    ensures
        forall|d: u32|
            spec_roots_from(tasks, c, folded, i, fuel).contains(d) ==> spec_vis_any(
                tasks,
                c,
                folded,
                d,
            ),
    decreases tasks.len() - i,
{
    if !(i < 0 || i >= tasks.len()) {
        lemma_roots_vis(tasks, c, folded, i + 1, fuel);
        let rest = spec_roots_from(tasks, c, folded, i + 1, fuel);
        if spec_is_root_in(tasks[i], c) {
            let rid = tasks[i].id;
            assert(spec_vis(tasks, c, folded, rid, 0nat));
            let b = if folded.contains(rid) {
                Seq::<u32>::empty()
            } else {
                spec_expand(tasks, folded, rid, fuel)
            };
            if !folded.contains(rid) {
                lemma_expand_vis(tasks, c, folded, rid, fuel);
            }
            assert forall|d: u32|
                spec_roots_from(tasks, c, folded, i, fuel).contains(d) implies spec_vis_any(
                tasks,
                c,
                folded,
                d,
            ) by {
                let idx = choose|idx: int|
                    0 <= idx < spec_roots_from(tasks, c, folded, i, fuel).len()
                        && spec_roots_from(tasks, c, folded, i, fuel)[idx] == d;
                if idx < 1 {
                    assert(d == rid);
                } else if idx < 1 + b.len() {
                    assert(b[idx - 1] == d);
                    assert(b.contains(d));
                } else {
                    assert(rest[idx - 1 - b.len()] == d);
                    assert(rest.contains(d));
                }
            }
        } else {
            assert forall|d: u32|
                spec_roots_from(tasks, c, folded, i, fuel).contains(d) implies spec_vis_any(
                tasks,
                c,
                folded,
                d,
            ) by {
                let idx = choose|idx: int|
                    0 <= idx < spec_roots_from(tasks, c, folded, i, fuel).len()
                        && spec_roots_from(tasks, c, folded, i, fuel)[idx] == d;
                assert(rest[idx] == d);
                assert(rest.contains(d));
            }
        }
    }
}

/// In a well-formed tree, nothing visible lies below a folded task.
proof fn lemma_vis_not_descendant(
    tasks: Seq<Task>,
    c: TaskContainer,
    folded: Set<u32>,
    id: u32,
    f: nat,
    t: u32,
)
    requires
        spec_wf_tree(tasks),
        folded.contains(t),
        spec_vis(tasks, c, folded, id, f),
    ensures
        forall|g: nat| !spec_is_descendant(tasks, id, t, g),
    decreases f,
{
    assert forall|g: nat| !spec_is_descendant(tasks, id, t, g) by {
        if spec_is_descendant(tasks, id, t, g) {
            let di = spec_find_index(tasks, id)->Some_0;
            lemma_find_index_props(tasks, id, 0);
            if exists|i: int|
                0 <= i < tasks.len() && #[trigger] tasks[i].id == id && spec_is_root_in(
                    tasks[i],
                    c,
                ) {
                let ri = choose|i: int|
                    0 <= i < tasks.len() && #[trigger] tasks[i].id == id && spec_is_root_in(
                        tasks[i],
                        c,
                    );
                assert(tasks[di].id == id && tasks[ri].id == id);
                assert(di == ri);
                assert(tasks[di].parent_id is None);
                assert(false);
            } else {
                let p = choose|p: int|
                    0 <= p < tasks.len() && spec_vis(
                        tasks,
                        c,
                        folded,
                        #[trigger] tasks[p].id,
                        (f - 1) as nat,
                    ) && !folded.contains(tasks[p].id) && tasks[p].child_ids@.contains(id);
                let k = choose|k: int|
                    0 <= k < tasks[p].child_ids@.len() && tasks[p].child_ids@[k] == id;
                assert(tasks[p].child_ids@[k] == id);
                assert(tasks[di].parent_id == Some(tasks[p].id));
                match tasks[di].parent_id {
                    Some(q) => {
                        assert(q == tasks[p].id);
                        if q == t {
                            assert(false);
                        } else {
                            lemma_vis_not_descendant(
                                tasks,
                                c,
                                folded,
                                tasks[p].id,
                                (f - 1) as nat,
                                t,
                            );
                            assert(!spec_is_descendant(tasks, q, t, (g - 1) as nat));
                            assert(false);
                        }
                    },
                    None => {
                        assert(false);
                    },
                }
            }
        }
    }
}

/// Law (folding hides a subtree): in a well-formed tree, after folding task
/// `t` no strict descendant of `t` appears on the display list, whatever was
/// folded before.
pub proof fn lemma_fold_hides_descendants(
    tasks: Seq<Task>,
    c: TaskContainer,
    folded: Set<u32>,
    t: u32,
    d: u32,
    g: nat,
)
    requires
        spec_wf_tree(tasks),
        spec_is_descendant(tasks, d, t, g),
    ensures
        !spec_display_order(tasks, c, folded.insert(t)).contains(d),
{
    let folded2 = folded.insert(t);
    if spec_display_order(tasks, c, folded2).contains(d) {
        lemma_roots_vis(tasks, c, folded2, 0, tasks.len());
        assert(spec_vis_any(tasks, c, folded2, d));
        let f = choose|f: nat| spec_vis(tasks, c, folded2, d, f);
        lemma_vis_not_descendant(tasks, c, folded2, d, f, t);
    }
}

/// Law (folding is reversible): toggling a task's fold state twice restores
/// the display list exactly; what reappears after unfolding is precisely
/// what the fold had hidden, direct children and the subtrees of their
/// still-unfolded descendants included.
pub proof fn lemma_toggle_fold_twice(tasks: Seq<Task>, c: TaskContainer, folded: Set<u32>, t: u32)
    requires
        !folded.contains(t),
    ensures
        spec_display_order(tasks, c, spec_toggled(spec_toggled(folded, t), t))
            == spec_display_order(tasks, c, folded),
{
    assert(spec_toggled(spec_toggled(folded, t), t) =~= folded);
}

/// Law (recompute is deterministic and idempotent): the display list is a
/// function of the task collection, the active container and the fold state
/// alone, so recomputing twice with unchanged inputs yields an identical
/// list; `update_display_order` leaves container and fold state untouched.
pub proof fn lemma_recompute_idempotent(
    s1: DisplayContainerState,
    s2: DisplayContainerState,
    tasks: Seq<Task>,
)
    requires
        s1.active_container == s2.active_container,
        s1.folded_tasks@ == s2.folded_tasks@,
    ensures
        spec_display_order(tasks, s1.active_container, s1.folded_tasks@) == spec_display_order(
            tasks,
            s2.active_container,
            s2.folded_tasks@,
        ),
{
}

/// Root indices are nonempty exactly when a top-level task exists.
proof fn lemma_root_indices_nonempty(tasks: Seq<Task>, c: TaskContainer, i: int)
    requires
        exists|j: int| i <= j < tasks.len() && spec_is_root_in(#[trigger] tasks[j], c),
        0 <= i,
    ensures
        spec_root_indices_from(tasks, c, i).len() > 0,
    decreases tasks.len() - i,
{
    if !spec_is_root_in(tasks[i], c) {
        let j = choose|j: int| i <= j < tasks.len() && spec_is_root_in(#[trigger] tasks[j], c);
        assert(i + 1 <= j < tasks.len() && spec_is_root_in(tasks[j], c));
        lemma_root_indices_nonempty(tasks, c, i + 1);
    }
}

/// The display list starts with the first top-level task's id.
proof fn lemma_display_first(
    tasks: Seq<Task>,
    c: TaskContainer,
    folded: Set<u32>,
    i: int,
    fuel: nat,
)
    requires
        spec_root_indices_from(tasks, c, i).len() > 0,
        0 <= i,
    ensures
        spec_roots_from(tasks, c, folded, i, fuel).len() > 0,
        spec_roots_from(tasks, c, folded, i, fuel)[0] == tasks[spec_root_indices_from(
            tasks,
            c,
            i,
        )[0]].id,
    decreases tasks.len() - i,
{
    if i < tasks.len() && !spec_is_root_in(tasks[i], c) {
        lemma_display_first(tasks, c, folded, i + 1, fuel);
    }
}

/// Law (the first path addresses the first task): whenever the active
/// container holds a top-level task, the display list is nonempty and the
/// path `1` resolves to the id at its head.
pub proof fn lemma_first_path_resolves(tasks: Seq<Task>, c: TaskContainer, folded: Set<u32>)
    requires
        exists|i: int| 0 <= i < tasks.len() && spec_is_root_in(#[trigger] tasks[i], c),
    ensures
        spec_display_order(tasks, c, folded).len() > 0,
        spec_resolve_path(tasks, c, folded, seq![1usize]) == Some(
            spec_display_order(tasks, c, folded)[0],
        ),
{
    lemma_root_indices_nonempty(tasks, c, 0);
    lemma_display_first(tasks, c, folded, 0, tasks.len());
    let roots = spec_root_indices_from(tasks, c, 0);
    let path = seq![1usize];
    assert(path[0] == 1);
    assert(spec_resolve_step(tasks, folded, roots[0], path, 1) == Some(tasks[roots[0]].id));
}

/// Law (a path below a childless or folded head fails): `1.1` resolves to
/// nothing when the first top-level task has no children or is folded.
pub proof fn lemma_path_below_first_fails(tasks: Seq<Task>, c: TaskContainer, folded: Set<u32>)
    requires
        spec_root_indices_from(tasks, c, 0).len() > 0,
        tasks[spec_root_indices_from(tasks, c, 0)[0]].child_ids@.len() == 0 || folded.contains(
            tasks[spec_root_indices_from(tasks, c, 0)[0]].id,
        ),
    ensures
        spec_resolve_path(tasks, c, folded, seq![1usize, 1usize]) is None,
{
    let roots = spec_root_indices_from(tasks, c, 0);
    let r0 = roots[0];
    let path = seq![1usize, 1usize];
    assert(path[0] == 1 && path[1] == 1);
    if !folded.contains(tasks[r0].id) {
        assert(spec_existing_from(tasks, tasks[r0].child_ids@, 0) =~= Seq::<int>::empty());
    }
}

/// Taking one more element adds exactly that element to the prefix's set.
proof fn lemma_take_to_set_step(s: Seq<u32>, j: int)
    requires
        0 <= j < s.len(),
    ensures
        s.take(j + 1).to_set() == s.take(j).to_set().insert(s[j]),
{
    assert forall|a: u32| s.take(j + 1).to_set().contains(a) implies s.take(
        j,
    ).to_set().insert(s[j]).contains(a) by {
        let i = choose|i: int| 0 <= i < s.take(j + 1).len() && (#[trigger] s.take(j + 1)[i]) == a;
        if i < j {
            assert(s.take(j)[i] == a);
            assert(s.take(j).contains(a));
        } else {
            assert(a == s[j]);
        }
    }
    assert forall|a: u32| s.take(j).to_set().insert(s[j]).contains(a) implies s.take(
        j + 1,
    ).to_set().contains(a) by {
        if a == s[j] {
            assert(s.take(j + 1)[j] == a);
            assert(s.take(j + 1).contains(a));
        } else {
            assert(s.take(j).contains(a));
            let i = choose|i: int| 0 <= i < s.take(j).len() && (#[trigger] s.take(j)[i]) == a;
            assert(s.take(j + 1)[i] == a);
            assert(s.take(j + 1).contains(a));
        }
    }
    assert(s.take(j + 1).to_set() =~= s.take(j).to_set().insert(s[j]));
}

} // verus!
