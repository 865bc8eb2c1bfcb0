//! The computable parts of task-list rendering: the text a task row shows,
//! and the flattened list of rows (id, display path, depth) the renderer
//! walks. Widget layout and event handling live with the UI shell outside
//! this crate.

use vstd::prelude::*;

use crate::display_container::{
    spec_byte_len, spec_is_root_in, spec_path_string, DisplayContainerState, TaskIndex,
};
use crate::genius_api::GeniusItem;
use crate::strutil::{find_char_from, spec_find_char_from, spec_trim, trim_spaces};
use crate::tasks::{find_task_by_id, spec_find_index, Task, TaskContainer};

verus! {

/// Two spaces per nesting level.
pub open spec fn spec_indent(depth: int) -> Seq<char>
    decreases depth,
{
    if depth <= 0 {
        Seq::empty()
    } else {
        spec_indent(depth - 1) + "  "@
    }
}

/// The text of a task row: indentation, the display path, a separator, a
/// marker when a task with children is folded, then the content.
pub open spec fn spec_task_text(folded: Set<u32>, t: Task, path: Seq<usize>, depth: int) -> Seq<
    char,
> {
    spec_indent(depth) + spec_path_string(path) + (if depth == 0 {
        ". "@
    } else {
        " "@
    }) + (if t.child_ids@.len() > 0 && folded.contains(t.id) {
        "\u{25b6} "@
    } else {
        Seq::<char>::empty()
    }) + t.content@
}

/// Format a task for display: indentation, index, fold marker, content.
pub fn format_task_text(
    state: &DisplayContainerState,
    task: &Task,
    task_index: &TaskIndex,
    depth: usize,
) -> (r: String)
    ensures
        r@ == spec_task_text(state.folded_tasks@, *task, task_index.path@, depth as int),
{
    let mut task_text = String::new();
    let mut k: usize = 0;
    while k < depth
        invariant
            k <= depth,
            task_text@ == spec_indent(k as int),
        decreases depth - k,
    {
        task_text.append("  ");
        k = k + 1;
    }
    let path_str = task_index.to_path_string();
    task_text.append(path_str.as_str());
    if depth == 0 {
        task_text.append(". ");
    } else {
        task_text.append(" ");
    }
    if task.child_ids.len() > 0 && !state.is_task_expanded(task.id) {
        task_text.append("\u{25b6} ");
    }
    task_text.append(task.content.as_str());
    task_text
}

/// The characters of `pat` appear contiguously in `s`.
pub open spec fn spec_contains_seq(s: Seq<char>, pat: Seq<char>) -> bool {
    exists|i: int|
        0 <= i && i + pat.len() <= s.len() && (#[trigger] s.subrange(i, i + pat.len())) == pat
}

/// Whether `s` contains `pat`'s characters contiguously.
pub fn str_contains_seq(s: &str, pat: &str) -> (r: bool)
    ensures
        r == spec_contains_seq(s@, pat@),
{
    let n = s.unicode_len();
    let m = pat.unicode_len();
    if m > n {
        proof {
            assert(!spec_contains_seq(s@, pat@));
        }
        return false;
    }
    let mut i: usize = 0;
    while i <= n - m
        invariant
            m <= n,
            n == s@.len(),
            m == pat@.len(),
            i <= n - m + 1,
            forall|q: int| 0 <= q < i ==> (#[trigger] s@.subrange(q, q + pat@.len())) != pat@,
        decreases n - m + 1 - i,
    {
        let mut j: usize = 0;
        let mut matched = true;
        while j < m
            invariant
                j <= m,
                m == pat@.len(),
                i + m <= n,
                n == s@.len(),
                matched == (forall|q: int| 0 <= q < j ==> s@[i + q] == (#[trigger] pat@[q])),
            decreases m - j,
        {
            if s.get_char(i + j) != pat.get_char(j) {
                matched = false;
            }
            j = j + 1;
        }
        if matched {
            proof {
                assert(s@.subrange(i as int, i + pat@.len()) =~= pat@);
            }
            return true;
        }
        proof {
            if s@.subrange(i as int, i + pat@.len()) == pat@ {
                let q = choose|q: int| 0 <= q < m && s@[i + q] != pat@[q];
                assert(s@.subrange(i as int, i + pat@.len())[q] == s@[i + q]);
            }
        }
        i = i + 1;
    }
    proof {
        if spec_contains_seq(s@, pat@) {
            let w = choose|w: int|
                0 <= w && w + pat@.len() <= s@.len() && (#[trigger] s@.subrange(
                    w,
                    w + pat@.len(),
                )) == pat@;
            assert(w < i);
        }
    }
    false
}

/// An item the feed can render: long two-line attribution-shaped texts are
/// left out, because they break the row layout.
pub open spec fn spec_renderable(item: GeniusItem) -> bool {
    !(spec_contains_seq(item.description@, seq!['\n', '-']) && spec_byte_len(item.description@)
        > 140 && spec_byte_len(item.description@) < 170 && item.description@.contains('\n'))
}

/// The renderable items of `items[j..]`, in order.
pub open spec fn spec_renderable_from(items: Seq<GeniusItem>, j: int) -> Seq<GeniusItem>
    decreases items.len() - j,
{
    if j < 0 || j >= items.len() {
        Seq::empty()
    } else {
        (if spec_renderable(items[j]) {
            seq![items[j]]
        } else {
            Seq::<GeniusItem>::empty()
        }) + spec_renderable_from(items, j + 1)
    }
}

/// Keep only the items the feed can render.
pub fn filter_renderable_items(items: Vec<GeniusItem>) -> (r: Vec<GeniusItem>)
    ensures
        r@ == spec_renderable_from(items@, 0),
{
    let ghost all = items@;
    let mut r: Vec<GeniusItem> = Vec::new();
    proof {
        assert(r@ =~= Seq::<GeniusItem>::empty());
        assert(Seq::<GeniusItem>::empty() + spec_renderable_from(all, 0) =~= spec_renderable_from(
            all,
            0,
        ));
    }
    let n = items.len();
    let mut j: usize = 0;
    while j < n
        invariant
            j <= n,
            n == all.len(),
            all == items@,
            spec_renderable_from(all, 0) == r@ + spec_renderable_from(all, j as int),
        decreases n - j,
    {
        let ghost rb = r@;
        let item = &items[j];
        let d = item.description.as_str();
        let keep = !(str_contains_seq(d, "\n-") && d.len() > 140 && d.len() < 170
            && contains_newline(d));
        if keep {
            r.push(GeniusItem { id: item.id.clone(), description: item.description.clone() });
            proof {
                reveal_strlit("\n-");
                assert("\n-"@ =~= seq!['\n', '-']);
                assert(r@.last() == all[j as int]);
                assert(r@ =~= rb + seq![all[j as int]]);
                assert((rb + seq![all[j as int]]) + spec_renderable_from(all, j as int + 1) =~= rb
                    + (seq![all[j as int]] + spec_renderable_from(all, j as int + 1)));
            }
        } else {
            proof {
                reveal_strlit("\n-");
                assert("\n-"@ =~= seq!['\n', '-']);
                assert(Seq::<GeniusItem>::empty() + spec_renderable_from(all, j as int + 1)
                    =~= spec_renderable_from(all, j as int + 1));
            }
        }
        j = j + 1;
    }
    proof {
        assert(r@ + spec_renderable_from(all, n as int) =~= r@);
    }
    r
}

/// Whether the text has a line break.
fn contains_newline(s: &str) -> (r: bool)
    ensures
        r == s@.contains('\n'),
{
    match find_char_from(s, '\n', 0) {
        Some(_) => {
            proof {
                assert(s@.contains('\n'));
            }
            true
        },
        None => {
            proof {
                if s@.contains('\n') {
                    let w = choose|w: int| 0 <= w < s@.len() && s@[w] == '\n';
                    lemma_find_char_finds(s@, '\n', 0, w);
                }
            }
            false
        },
    }
}

/// A character occurrence means the search from an earlier position finds
/// something.
proof fn lemma_find_char_finds(s: Seq<char>, ch: char, i: int, w: int)
    requires
        0 <= i <= w < s.len(),
        s[w] == ch,
    ensures
        spec_find_char_from(s, ch, i) is Some,
    decreases w - i,
{
    if s[i] != ch {
        lemma_find_char_finds(s, ch, i + 1, w);
    }
}

/// The text a feed row shows for an item: the full text trimmed when
/// expanded; otherwise its first line, with a trailing ellipsis when more
/// lines follow.
pub open spec fn spec_item_display_text(description: Seq<char>, expanded: bool) -> Seq<char> {
    if expanded {
        spec_trim(description)
    } else {
        let first_line = match spec_find_char_from(description, '\n', 0) {
            Some(nl) => description.take(nl),
            None => description,
        };
        if description.contains('\n') {
            spec_trim(first_line) + "..."@
        } else {
            spec_trim(first_line)
        }
    }
}

/// Compute the text a feed row shows for an item's description.
pub fn item_display_text(description: &str, expanded: bool) -> (r: String)
    ensures
        r@ == spec_item_display_text(description@, expanded),
{
    if expanded {
        trim_spaces(description)
    } else {
        let n = description.unicode_len();
        match find_char_from(description, '\n', 0) {
            Some(nl) => {
                let first = description.substring_char(0, nl);
                proof {
                    assert(first@ =~= description@.take(nl as int));
                    assert(description@.contains('\n'));
                }
                let mut out = trim_spaces(first);
                out.append("...");
                out
            },
            None => {
                proof {
                    if description@.contains('\n') {
                        let w = choose|w: int|
                            0 <= w < description@.len() && description@[w] == '\n';
                        lemma_find_char_finds(description@, '\n', 0, w);
                    }
                }
                trim_spaces(description)
            },
        }
    }
}

/// A row of the rendered task list: id, display path, nesting depth.
pub open spec fn spec_row(id: u32, path: Seq<usize>, depth: nat) -> (u32, Seq<usize>, nat) {
    (id, path, depth)
}

/// The rows contributed by the task at collection position `ci` shown under
/// display path `path`: its own row, then (unless folded) its children's.
pub open spec fn spec_collect_node(
    tasks: Seq<Task>,
    folded: Set<u32>,
    ci: int,
    path: Seq<usize>,
    fuel: nat,
) -> Seq<(u32, Seq<usize>, nat)>
    decreases fuel, 0int, 0int,
{
    seq![spec_row(tasks[ci].id, path, (path.len() - 1) as nat)] + (if !folded.contains(
        tasks[ci].id,
    ) && fuel > 0 {
        spec_collect_kids(tasks, folded, tasks[ci].child_ids@, 0, path, (fuel - 1) as nat)
    } else {
        Seq::empty()
    })
}

/// The rows contributed by the children `kids[j..]`: positions are counted
/// over the whole child list, children whose task is missing are skipped.
pub open spec fn spec_collect_kids(
    tasks: Seq<Task>,
    folded: Set<u32>,
    kids: Seq<u32>,
    j: int,
    path: Seq<usize>,
    fuel: nat,
) -> Seq<(u32, Seq<usize>, nat)>
    decreases fuel, kids.len() - j, 1int,
{
    if j < 0 || j >= kids.len() {
        Seq::empty()
    } else {
        (match spec_find_index(tasks, kids[j]) {
            Some(ci) => spec_collect_node(tasks, folded, ci, path.push((j + 1) as usize), fuel),
            None => Seq::empty(),
        }) + spec_collect_kids(tasks, folded, kids, j + 1, path, fuel)
    }
}

/// The rows of the whole task list: top-level tasks of container `c` from
/// collection position `i` on, numbered from `rootno + 1`.
pub open spec fn spec_collect_roots(
    tasks: Seq<Task>,
    c: TaskContainer,
    folded: Set<u32>,
    i: int,
    rootno: int,
    fuel: nat,
) -> Seq<(u32, Seq<usize>, nat)>
    decreases tasks.len() - i,
{
    if i < 0 || i >= tasks.len() {
        Seq::empty()
    } else if spec_is_root_in(tasks[i], c) {
        spec_collect_node(tasks, folded, i, seq![(rootno + 1) as usize], fuel)
            + spec_collect_roots(tasks, c, folded, i + 1, rootno + 1, fuel)
    } else {
        spec_collect_roots(tasks, c, folded, i + 1, rootno, fuel)
    }
}

/// The ghost view of a collected row.
pub open spec fn spec_row_view(t: (u32, TaskIndex, usize)) -> (u32, Seq<usize>, nat) {
    (t.0, t.1.path@, t.2 as nat)
}

/// An element-for-element copy of a list of positions.
fn clone_positions(v: &Vec<usize>) -> (r: Vec<usize>)
    ensures
        r@ == v@,
{
    let mut r: Vec<usize> = Vec::new();
    let n = v.len();
    let mut i: usize = 0;
    while i < n
        invariant
            i <= n,
            n == v@.len(),
            r@ == v@.take(i as int),
        decreases n - i,
    {
        r.push(v[i]);
        proof {
            assert(r@ =~= v@.take(i as int + 1));
        }
        i = i + 1;
    }
    proof {
        assert(v@.take(n as int) =~= v@);
    }
    r
}

/// Append the rows of the task at collection position `ci`, shown under the
/// path in `current_index`, to `task_data`; `current_index` is left as it
/// was.
fn collect_node(
    state: &DisplayContainerState,
    tasks: &Vec<Task>,
    ci: usize,
    current_index: &mut Vec<usize>,
    task_data: &mut Vec<(u32, TaskIndex, usize)>,
    fuel: usize,
)
    requires
        ci < tasks@.len(),
        old(current_index)@.len() >= 1,
    ensures
        final(task_data)@.map_values(|t: (u32, TaskIndex, usize)| spec_row_view(t)) == old(
            task_data,
        )@.map_values(|t: (u32, TaskIndex, usize)| spec_row_view(t)) + spec_collect_node(
            tasks@,
            state.folded_tasks@,
            ci as int,
            old(current_index)@,
            fuel as nat,
        ),
        final(current_index)@ == old(current_index)@,
    decreases fuel,
{
    let ghost folded = state.folded_tasks@;
    let ghost path = current_index@;
    let ghost before = task_data@.map_values(|t: (u32, TaskIndex, usize)| spec_row_view(t));
    let depth = current_index.len() - 1;
    let row = (tasks[ci].id, TaskIndex { path: clone_positions(current_index) }, depth);
    task_data.push(row);
    proof {
        assert(task_data@.map_values(|t: (u32, TaskIndex, usize)| spec_row_view(t)) =~= before
            + seq![spec_row(tasks@[ci as int].id, path, (path.len() - 1) as nat)]);
    }
    let expanded = state.is_task_expanded(tasks[ci].id);
    if expanded && fuel > 0 {
        let ghost kids = tasks@[ci as int].child_ids@;
        let ghost mid = task_data@.map_values(|t: (u32, TaskIndex, usize)| spec_row_view(t));
        let kn = tasks[ci].child_ids.len();
        let mut j: usize = 0;
        while j < kn
            invariant
                j <= kn,
                ci < tasks@.len(),
                kn == kids.len(),
                kids == tasks@[ci as int].child_ids@,
                folded == state.folded_tasks@,
                path == current_index@,
                path.len() >= 1,
                fuel >= 1,
                task_data@.map_values(|t: (u32, TaskIndex, usize)| spec_row_view(t))
                    + spec_collect_kids(tasks@, folded, kids, j as int, path, (fuel - 1) as nat)
                    == mid + spec_collect_kids(tasks@, folded, kids, 0, path, (fuel - 1) as nat),
            decreases kn - j,
        {
            let ghost tb = task_data@.map_values(|t: (u32, TaskIndex, usize)| spec_row_view(t));
            let cid = tasks[ci].child_ids[j];
            match find_task_by_id(tasks, cid) {
                Some(child_i) => {
                    current_index.push(j + 1);
                    collect_node(state, tasks, child_i, current_index, task_data, fuel - 1);
                    let _ = current_index.pop();
                    proof {
                        assert(current_index@ =~= path);
                        assert((tb + spec_collect_node(
                            tasks@,
                            folded,
                            child_i as int,
                            path.push((j + 1) as usize),
                            (fuel - 1) as nat,
                        )) + spec_collect_kids(
                            tasks@,
                            folded,
                            kids,
                            j as int + 1,
                            path,
                            (fuel - 1) as nat,
                        ) =~= tb + (spec_collect_node(
                            tasks@,
                            folded,
                            child_i as int,
                            path.push((j + 1) as usize),
                            (fuel - 1) as nat,
                        ) + spec_collect_kids(
                            tasks@,
                            folded,
                            kids,
                            j as int + 1,
                            path,
                            (fuel - 1) as nat,
                        )));
                    }
                },
                None => {
                    proof {
                        assert(Seq::<(u32, Seq<usize>, nat)>::empty() + spec_collect_kids(
                            tasks@,
                            folded,
                            kids,
                            j as int + 1,
                            path,
                            (fuel - 1) as nat,
                        ) =~= spec_collect_kids(
                            tasks@,
                            folded,
                            kids,
                            j as int + 1,
                            path,
                            (fuel - 1) as nat,
                        ));
                    }
                },
            }
            j = j + 1;
        }
        proof {
            assert(task_data@.map_values(|t: (u32, TaskIndex, usize)| spec_row_view(t))
                + spec_collect_kids(tasks@, folded, kids, kn as int, path, (fuel - 1) as nat)
                =~= task_data@.map_values(|t: (u32, TaskIndex, usize)| spec_row_view(t)));
            assert(before + (seq![spec_row(tasks@[ci as int].id, path, (path.len() - 1) as nat)]
                + spec_collect_kids(tasks@, folded, kids, 0, path, (fuel - 1) as nat)) =~= (before
                + seq![spec_row(tasks@[ci as int].id, path, (path.len() - 1) as nat)])
                + spec_collect_kids(tasks@, folded, kids, 0, path, (fuel - 1) as nat));
        }
    } else {
        proof {
            assert(before + (seq![spec_row(tasks@[ci as int].id, path, (path.len() - 1) as nat)]
                + Seq::<(u32, Seq<usize>, nat)>::empty()) =~= before + seq![spec_row(
                tasks@[ci as int].id,
                path,
                (path.len() - 1) as nat,
            )]);
        }
    }
}

/// Collect the rows the task list renders: every top-level task of the
/// active container with its visible subtree, as (id, display path, depth).
pub fn collect_task_data(state: &DisplayContainerState, tasks: &Vec<Task>) -> (r: Vec<
    (u32, TaskIndex, usize),
>)
    ensures
        r@.map_values(|t: (u32, TaskIndex, usize)| spec_row_view(t)) == spec_collect_roots(
            tasks@,
            state.active_container,
            state.folded_tasks@,
            0,
            0,
            tasks@.len(),
        ),
{
    let ghost c = state.active_container;
    let ghost folded = state.folded_tasks@;
    let n = tasks.len();
    let mut task_data: Vec<(u32, TaskIndex, usize)> = Vec::new();
    proof {
        assert(task_data@.map_values(|t: (u32, TaskIndex, usize)| spec_row_view(t)) =~= Seq::<
            (u32, Seq<usize>, nat),
        >::empty());
        assert(Seq::<(u32, Seq<usize>, nat)>::empty() + spec_collect_roots(
            tasks@,
            c,
            folded,
            0,
            0,
            n as nat,
        ) =~= spec_collect_roots(tasks@, c, folded, 0, 0, n as nat));
    }
    let mut idx: usize = 0;
    let mut i: usize = 0;
    while i < n
        invariant
            i <= n,
            idx <= i,
            n == tasks@.len(),
            c == state.active_container,
            folded == state.folded_tasks@,
            task_data@.map_values(|t: (u32, TaskIndex, usize)| spec_row_view(t))
                + spec_collect_roots(tasks@, c, folded, i as int, idx as int, n as nat)
                == spec_collect_roots(tasks@, c, folded, 0, 0, n as nat),
        decreases n - i,
    {
        let ghost tb = task_data@.map_values(|t: (u32, TaskIndex, usize)| spec_row_view(t));
        if tasks[i].parent_id.is_none() && tasks[i].container == state.active_container {
            let mut current_index: Vec<usize> = Vec::new();
            current_index.push(idx + 1);
            proof {
                assert(current_index@ =~= seq![(idx + 1) as usize]);
            }
            collect_node(state, tasks, i, &mut current_index, &mut task_data, n);
            proof {
                assert((tb + spec_collect_node(
                    tasks@,
                    folded,
                    i as int,
                    seq![(idx + 1) as usize],
                    n as nat,
                )) + spec_collect_roots(tasks@, c, folded, i as int + 1, idx as int + 1, n as nat)
                    =~= tb + (spec_collect_node(
                    tasks@,
                    folded,
                    i as int,
                    seq![(idx + 1) as usize],
                    n as nat,
                ) + spec_collect_roots(
                    tasks@,
                    c,
                    folded,
                    i as int + 1,
                    idx as int + 1,
                    n as nat,
                )));
            }
            idx = idx + 1;
        }
        i = i + 1;
    }
    proof {
        assert(task_data@.map_values(|t: (u32, TaskIndex, usize)| spec_row_view(t))
            + spec_collect_roots(tasks@, c, folded, n as int, idx as int, n as nat)
            =~= task_data@.map_values(|t: (u32, TaskIndex, usize)| spec_row_view(t)));
    }
    task_data
}

} // verus!
