//! The task store: a dependency graph of tasks, edited transactionally.
use vstd::prelude::*;

use super::error::{TaskError, TaskErrorView};
use super::graph::{acyclic, lemma_acyclic_add_edge, lemma_acyclic_sub, reaches};
use super::reach::{dep_edge, has_id, ids_unique, index_of, reaches_from, task_edge};
use super::sorted::{insert_sorted, remove_sorted};
use super::types::{item_wf, strictly_sorted, views, TaskItem, TaskStatus, TaskView};

verus! {

/// Blocker `b` of task `t` is recorded (`b` blocks `t`) and not completed.
pub open spec fn unresolved_blocker(ts: Seq<TaskView>, b: u64, t: u64) -> bool {
    exists|k: int|
        0 <= k < ts.len() && ts[k].id == b && (#[trigger] ts[k].blocks).contains(t) && ts[k].status
            != TaskStatus::Completed
}

/// Each task's `blocked_by` holds exactly its unresolved blockers.
pub open spec fn blocked_by_consistent(ts: Seq<TaskView>) -> bool {
    forall|i: int, b: u64|
        0 <= i < ts.len() ==> ((#[trigger] ts[i].blocked_by.contains(b)) <==> unresolved_blocker(
            ts,
            b,
            ts[i].id,
        ))
}

pub open spec fn ids_ascending(ts: Seq<TaskView>) -> bool {
    forall|i: int, j: int| 0 <= i < j < ts.len() ==> ts[i].id < ts[j].id
}

/// Every task named in a `blocks` list exists.
pub open spec fn refs_exist(ts: Seq<TaskView>) -> bool {
    forall|i: int, d: u64| 0 <= i < ts.len() && (#[trigger] ts[i].blocks.contains(d)) ==> has_id(ts, d)
}

/// The invariant of a task graph.
pub open spec fn graph_wf(ts: Seq<TaskView>) -> bool {
    &&& ids_ascending(ts)
    &&& refs_exist(ts)
    &&& blocked_by_consistent(ts)
    &&& acyclic(task_edge(ts))
}

pub open spec fn store_wf(tasks: Seq<TaskItem>) -> bool {
    &&& graph_wf(views(tasks))
    &&& forall|i: int| 0 <= i < tasks.len() ==> #[trigger] item_wf(tasks[i])
}

/// The unresolved blockers of `t` in `ts`.
pub open spec fn derived_blocked_by(ts: Seq<TaskView>, t: u64) -> Set<u64> {
    Set::new(|b: u64| unresolved_blocker(ts, b, t))
}

pub open spec fn with_blocked_by(t: TaskView, s: Set<u64>) -> TaskView {
    TaskView { blocked_by: s, ..t }
}

/// `ts` with every `blocked_by` recomputed from the edges and statuses.
pub open spec fn normalize(ts: Seq<TaskView>) -> Seq<TaskView> {
    Seq::new(
        ts.len(),
        |i: int| TaskView { blocked_by: derived_blocked_by(ts, ts[i].id), ..ts[i] },
    )
}

/// `ts` where task `id` lists `blocks` as the tasks it blocks.
pub open spec fn with_blocks(ts: Seq<TaskView>, id: u64, blocks: Set<u64>) -> Seq<TaskView> {
    Seq::new(
        ts.len(),
        |i: int|
            if ts[i].id == id {
                TaskView { blocks: blocks, ..ts[i] }
            } else {
                ts[i]
            },
    )
}

/// `ts` where task `id` has status `s`.
pub open spec fn with_status(ts: Seq<TaskView>, id: u64, s: TaskStatus) -> Seq<TaskView> {
    Seq::new(
        ts.len(),
        |i: int|
            if ts[i].id == id {
                TaskView { status: s, ..ts[i] }
            } else {
                ts[i]
            },
    )
}

/// The task with id `id` (meaningful when it exists).
pub open spec fn task_of(ts: Seq<TaskView>, id: u64) -> TaskView {
    ts[choose|i: int| 0 <= i < ts.len() && ts[i].id == id]
}

/// Adding the edge `blocker -> dependent`.
pub open spec fn spec_add_dependency(ts: Seq<TaskView>, blocker: u64, dependent: u64) -> Result<
    Seq<TaskView>,
    TaskErrorView,
> {
    if !has_id(ts, blocker) {
        Err(TaskErrorView::NotFound(blocker))
    } else if !has_id(ts, dependent) {
        Err(TaskErrorView::NotFound(dependent))
    } else if reaches(task_edge(ts), dependent, blocker) {
        Err(TaskErrorView::Cycle { blocker, dependent })
    } else {
        Ok(
            normalize(
                with_blocks(ts, blocker, task_of(ts, blocker).blocks.insert(dependent)),
            ),
        )
    }
}

/// Removing the edge `blocker -> dependent`.
pub open spec fn spec_remove_dependency(ts: Seq<TaskView>, blocker: u64, dependent: u64) -> Result<
    Seq<TaskView>,
    TaskErrorView,
> {
    if !has_id(ts, blocker) {
        Err(TaskErrorView::NotFound(blocker))
    } else if !has_id(ts, dependent) {
        Err(TaskErrorView::NotFound(dependent))
    } else {
        Ok(normalize(with_blocks(ts, blocker, task_of(ts, blocker).blocks.remove(dependent))))
    }
}

pub proof fn lemma_ascending_unique(ts: Seq<TaskView>)
    requires
        ids_ascending(ts),
    ensures
        ids_unique(ts),
{
    assert forall|i: int, j: int|
        0 <= i < ts.len() && 0 <= j < ts.len() && i != j implies ts[i].id != ts[j].id by {
        if i < j {
        } else {
        }
    }
}

/// The task with a given id sits at the index `index_of` found.
pub proof fn lemma_task_of(ts: Seq<TaskView>, i: int)
    requires
        ids_unique(ts),
        0 <= i < ts.len(),
    ensures
        task_of(ts, ts[i].id) == ts[i],
        has_id(ts, ts[i].id),
{
    let k = choose|k: int| 0 <= k < ts.len() && ts[k].id == ts[i].id;
    assert(k == i);
}

/// A graph whose `blocked_by` sets were recomputed from `pre` is `normalize(pre)`,
/// and is consistent.
proof fn lemma_normalized(pre: Seq<TaskView>, nt: Seq<TaskView>)
    requires
        nt.len() == pre.len(),
        forall|i: int|
            0 <= i < nt.len() ==> #[trigger] nt[i] == with_blocked_by(pre[i], nt[i].blocked_by),
        forall|i: int|
            0 <= i < nt.len() ==> #[trigger] nt[i].blocked_by == derived_blocked_by(pre, pre[i].id),
    ensures
        nt == normalize(pre),
        blocked_by_consistent(nt),
{
    assert(nt =~= normalize(pre)) by {
        assert forall|i: int| 0 <= i < nt.len() implies #[trigger] nt[i] == normalize(pre)[i] by {
            assert(nt[i] == with_blocked_by(pre[i], nt[i].blocked_by));
        }
    }
    assert forall|i: int, b: u64| 0 <= i < nt.len() implies ((#[trigger] nt[i].blocked_by.contains(b))
        <==> unresolved_blocker(nt, b, nt[i].id)) by {
        assert(nt[i] == with_blocked_by(pre[i], nt[i].blocked_by));
        if unresolved_blocker(nt, b, nt[i].id) {
            let k = choose|k: int|
                0 <= k < nt.len() && nt[k].id == b && (#[trigger] nt[k].blocks).contains(nt[i].id)
                    && nt[k].status != TaskStatus::Completed;
            assert(nt[k] == with_blocked_by(pre[k], nt[k].blocked_by));
            assert(pre[k].blocks.contains(pre[i].id));
        }
        if unresolved_blocker(pre, b, pre[i].id) {
            let k = choose|k: int|
                0 <= k < pre.len() && pre[k].id == b && (#[trigger] pre[k].blocks).contains(pre[i].id)
                    && pre[k].status != TaskStatus::Completed;
            assert(nt[k] == with_blocked_by(pre[k], nt[k].blocked_by));
            assert(nt[k].blocks.contains(nt[i].id));
        }
    }
}

/// Edge `u -> v` only.
proof fn lemma_no_self_edge(ts: Seq<TaskView>, x: int)
    requires
        graph_wf(ts),
        0 <= x < ts.len(),
    ensures
        !ts[x].blocks.contains(ts[x].id),
{
    if ts[x].blocks.contains(ts[x].id) {
        assert(dep_edge(ts, ts[x].id, ts[x].id));
        super::graph::lemma_reaches_refl(task_edge(ts), ts[x].id);
        assert(task_edge(ts)(ts[x].id, ts[x].id));
    }
}

/// The effect of giving task `ts[x]` the status `s` on the unresolved blockers of `ts[i]`.
pub open spec fn status_effect(ts: Seq<TaskView>, x: int, s: TaskStatus, i: int) -> Set<u64> {
    if ts[x].blocks.contains(ts[i].id) {
        if s == TaskStatus::Completed {
            ts[i].blocked_by.remove(ts[x].id)
        } else {
            ts[i].blocked_by.insert(ts[x].id)
        }
    } else {
        ts[i].blocked_by
    }
}

pub proof fn lemma_status_effect(ts: Seq<TaskView>, x: int, s: TaskStatus, i: int)
    requires
        graph_wf(ts),
        0 <= x < ts.len(),
        0 <= i < ts.len(),
    ensures
        derived_blocked_by(with_status(ts, ts[x].id, s), ts[i].id) == status_effect(ts, x, s, i),
{
    let ws = with_status(ts, ts[x].id, s);
    lemma_ascending_unique(ts);
    assert forall|b: u64| derived_blocked_by(ws, ts[i].id).contains(b) <==> status_effect(ts, x, s, i).contains(b) by {
        if unresolved_blocker(ws, b, ts[i].id) {
            let k = choose|k: int|
                0 <= k < ws.len() && ws[k].id == b && (#[trigger] ws[k].blocks).contains(ts[i].id)
                    && ws[k].status != TaskStatus::Completed;
            if k != x {
                assert(unresolved_blocker(ts, b, ts[i].id));
            }
        }
        if status_effect(ts, x, s, i).contains(b) {
            if b == ts[x].id && ts[x].blocks.contains(ts[i].id) {
                assert(ws[x].blocks.contains(ts[i].id));
            } else {
                assert(ts[i].blocked_by.contains(b));
                assert(unresolved_blocker(ts, b, ts[i].id));
                let k = choose|k: int|
                    0 <= k < ts.len() && ts[k].id == b && (#[trigger] ts[k].blocks).contains(ts[i].id)
                        && ts[k].status != TaskStatus::Completed;
                assert(k != x);
                assert(ws[k].blocks.contains(ts[i].id));
            }
        }
    }
    assert(derived_blocked_by(ws, ts[i].id) =~= status_effect(ts, x, s, i));
}

/// Tasks whose `blocked_by` turned empty (`gone_empty`) or non-empty between two graphs.
pub open spec fn became_unblocked(before: Seq<TaskView>, after: Seq<TaskView>, d: u64) -> bool {
    &&& has_id(before, d)
    &&& task_of(before, d).blocked_by != Set::<u64>::empty()
    &&& task_of(after, d).blocked_by == Set::<u64>::empty()
}

pub open spec fn became_blocked(before: Seq<TaskView>, after: Seq<TaskView>, d: u64) -> bool {
    &&& has_id(before, d)
    &&& task_of(before, d).blocked_by == Set::<u64>::empty()
    &&& task_of(after, d).blocked_by != Set::<u64>::empty()
}

/// The refusal to start or complete a task that still has unresolved blockers.
pub open spec fn blocked_status_error(e: TaskErrorView, id: u64, status: TaskStatus, blockers: Set<u64>) -> bool {
    e matches TaskErrorView::BlockedStatus { id: eid, status: es, blocked_by: bl } && eid == id && es == status
        && strictly_sorted(bl) && bl.to_set() == blockers
}

/// Dependents released or held back by a status change.
pub struct StatusChange {
    pub unblocked: Vec<u64>,
    pub reblocked: Vec<u64>,
}

/// One edit of the dependency edges.
#[derive(Debug, Clone, Copy, PartialEq, Eq, Structural)]
pub enum EdgeOp {
    Add { blocker: u64, dependent: u64 },
    Remove { blocker: u64, dependent: u64 },
}

pub open spec fn spec_apply_edge(ts: Seq<TaskView>, op: EdgeOp) -> Result<Seq<TaskView>, TaskErrorView> {
    match op {
        EdgeOp::Add { blocker, dependent } => spec_add_dependency(ts, blocker, dependent),
        EdgeOp::Remove { blocker, dependent } => spec_remove_dependency(ts, blocker, dependent),
    }
}

/// Applying edge edits in order; the first refusal stops the sequence.
pub open spec fn spec_apply_edges(ts: Seq<TaskView>, ops: Seq<EdgeOp>) -> Result<Seq<TaskView>, TaskErrorView>
    decreases ops.len(),
{
    if ops.len() == 0 {
        Ok(ts)
    } else {
        match spec_apply_edges(ts, ops.drop_last()) {
            Ok(t) => spec_apply_edge(t, ops.last()),
            Err(e) => Err(e),
        }
    }
}

/// A list of tasks kept as a dependency graph.
pub struct TaskStore {
    tasks: Vec<TaskItem>,
}

impl View for TaskStore {
    type V = Seq<TaskView>;

    closed spec fn view(&self) -> Seq<TaskView> {
        views(self.tasks@)
    }
}

impl TaskStore {
    /// The store's tasks form a well-formed dependency graph.
    pub closed spec fn wf(&self) -> bool {
        store_wf(self.tasks@)
    }

    pub closed spec fn items(&self) -> Seq<TaskItem> {
        self.tasks@
    }

    /// An empty store.
    pub fn new() -> (r: TaskStore)
        ensures
            r.wf(),
            r@ == Seq::<TaskView>::empty(),
    {
        let r = TaskStore { tasks: Vec::new() };
        assert(views(r.tasks@) =~= Seq::<TaskView>::empty());
        r
    }

    /// The tasks, in ascending id order.
    pub fn tasks(&self) -> (r: &Vec<TaskItem>)
        ensures
            r@ == self.items(),
            views(r@) == self@,
            self.wf() ==> forall|k: int| 0 <= k < r@.len() ==> #[trigger] item_wf(r@[k]),
    {
        &self.tasks
    }

    /// An independent copy of the tasks.
    pub fn duplicate_tasks(&self) -> (r: Vec<TaskItem>)
        ensures
            views(r@) == self@,
    {
        let mut tasks: Vec<TaskItem> = Vec::new();
        let mut i: usize = 0;
        while i < self.tasks.len()
            invariant
                i <= self.tasks@.len(),
                views(tasks@) == views(self.tasks@).take(i as int),
            decreases self.tasks.len() - i,
        {
            let ghost before = tasks@;
            let t = self.tasks[i].duplicate();
            tasks.push(t);
            assert(tasks@ =~= before.push(t));
            assert(views(tasks@) =~= views(before).push(t@));
            assert(views(tasks@) =~= views(self.tasks@).take(i as int + 1));
            i += 1;
        }
        assert(views(self.tasks@).take(self.tasks@.len() as int) =~= views(self.tasks@));
        tasks
    }

    /// What a well-formed store guarantees of its tasks.
    pub proof fn lemma_wf(&self)
        requires
            self.wf(),
        ensures
            graph_wf(self@),
            ids_unique(self@),
    {
        lemma_ascending_unique(self@);
    }

    /// Ids in a well-formed store are ascending, hence distinct.
    pub proof fn lemma_ids(&self)
        requires
            self.wf(),
        ensures
            ids_ascending(self@),
            ids_unique(self@),
    {
        lemma_ascending_unique(self@);
    }

    /// Records that `blocker` must finish before `dependent` is ready.
    pub fn add_dependency(&mut self, blocker: u64, dependent: u64) -> (r: Result<(), TaskError>)
        requires
            old(self).wf(),
        ensures
            final(self).wf(),
            match spec_add_dependency(old(self)@, blocker, dependent) {
                Ok(ts) => r is Ok && final(self)@ == ts,
                Err(e) => r matches Err(err) && err@ == e && final(self)@ == old(self)@,
            },
    {
        let ghost ts = self@;
        proof {
            lemma_ascending_unique(ts);
        }
        let iu = match index_of(&self.tasks, blocker) {
            Some(i) => i,
            None => {
                return Err(TaskError::NotFound(blocker));
            },
        };
        let iv = match index_of(&self.tasks, dependent) {
            Some(i) => i,
            None => {
                return Err(TaskError::NotFound(dependent));
            },
        };
        proof {
            lemma_task_of(ts, iu as int);
            lemma_task_of(ts, iv as int);
        }
        if reaches_from(&self.tasks, dependent, blocker) {
            return Err(TaskError::Cycle { blocker, dependent });
        }
        let ghost old_tasks = self.tasks@;
        proof {
            super::graph::lemma_reaches_refl(task_edge(ts), blocker);
            assert(blocker != dependent);
            assert(item_wf(old_tasks[iu as int]));
            assert(item_wf(old_tasks[iv as int]));
        }
        let mut item = self.tasks[iu].duplicate();
        insert_sorted(&mut item.blocks, dependent);
        self.tasks.set(iu, item);
        let ghost mid = self@;
        let open_blocker = self.tasks[iu].status != TaskStatus::Completed;
        if open_blocker {
            let mut dep = self.tasks[iv].duplicate();
            insert_sorted(&mut dep.blocked_by, blocker);
            self.tasks.set(iv, dep);
        }
        proof {
            let target = normalize(with_blocks(ts, blocker, ts[iu as int].blocks.insert(dependent)));
            let nt = self@;
            assert(nt.len() == ts.len());
            assert forall|i: int| 0 <= i < nt.len() implies #[trigger] nt[i] == target[i] by {
                assert(self.tasks@[i]@ == nt[i]);
                let pre = with_blocks(ts, blocker, ts[iu as int].blocks.insert(dependent));
                assert(nt[i].blocked_by =~= derived_blocked_by(pre, pre[i].id)) by {
                    assert forall|b: u64| nt[i].blocked_by.contains(b) <==> unresolved_blocker(pre, b, pre[i].id) by {
                        if unresolved_blocker(pre, b, pre[i].id) {
                            let k = choose|k: int|
                                0 <= k < pre.len() && pre[k].id == b && (#[trigger] pre[k].blocks).contains(pre[i].id)
                                    && pre[k].status != TaskStatus::Completed;
                            if !(k == iu && i == iv) {
                                assert(ts[k].blocks.contains(ts[i].id));
                                assert(unresolved_blocker(ts, b, ts[i].id));
                                assert(ts[i].blocked_by.contains(b));
                            }
                        }
                        if ts[i].blocked_by.contains(b) {
                            assert(unresolved_blocker(ts, b, ts[i].id));
                            let k = choose|k: int|
                                0 <= k < ts.len() && ts[k].id == b && (#[trigger] ts[k].blocks).contains(ts[i].id)
                                    && ts[k].status != TaskStatus::Completed;
                            assert(pre[k].blocks.contains(pre[i].id));
                        }
                        if i == iv && open_blocker {
                            assert(pre[iu as int].blocks.contains(dependent));
                        }
                    }
                }
            }
            assert(nt =~= target);
            // the invariant
            assert(ids_ascending(nt));
            assert forall|i: int, d: u64| 0 <= i < nt.len() && (#[trigger] nt[i].blocks.contains(d)) implies has_id(nt, d) by {
                if i == iu && d == dependent {
                    assert(nt[iv as int].id == dependent);
                } else {
                    assert(ts[i].blocks.contains(d));
                    let k = choose|k: int| 0 <= k < ts.len() && ts[k].id == d;
                    assert(nt[k].id == d);
                }
            }
            assert forall|i: int, b: u64| 0 <= i < nt.len() implies ((#[trigger] nt[i].blocked_by.contains(b))
                <==> unresolved_blocker(nt, b, nt[i].id)) by {
                let pre = with_blocks(ts, blocker, ts[iu as int].blocks.insert(dependent));
                assert(nt[i] == target[i]);
                if unresolved_blocker(nt, b, nt[i].id) {
                    let k = choose|k: int|
                        0 <= k < nt.len() && nt[k].id == b && (#[trigger] nt[k].blocks).contains(nt[i].id)
                            && nt[k].status != TaskStatus::Completed;
                    assert(target[k] == nt[k]);
                    assert(pre[k].blocks.contains(pre[i].id));
                }
                if unresolved_blocker(pre, b, pre[i].id) {
                    let k = choose|k: int|
                        0 <= k < pre.len() && pre[k].id == b && (#[trigger] pre[k].blocks).contains(pre[i].id)
                            && pre[k].status != TaskStatus::Completed;
                    assert(target[k] == nt[k]);
                    assert(nt[k].blocks.contains(nt[i].id));
                }
            }
            assert forall|x: u64, y: u64| #[trigger] dep_edge(nt, x, y) implies dep_edge(ts, x, y) || (x
                == blocker && y == dependent) by {
                let i = choose|i: int| 0 <= i < nt.len() && nt[i].id == x && (#[trigger] nt[i].blocks).contains(y);
                let j = choose|j: int| 0 <= j < nt.len() && nt[j].id == y;
                assert(ts[j].id == y);
                if !(x == blocker && y == dependent) {
                    assert(ts[i].blocks.contains(y));
                }
            }
            lemma_acyclic_add_edge(task_edge(ts), task_edge(nt), blocker, dependent);
            assert forall|i: int| 0 <= i < self.tasks@.len() implies #[trigger] item_wf(self.tasks@[i]) by {
                assert(item_wf(old_tasks[i]));
            }
        }
        Ok(())
    }

    /// Drops the record that `blocker` must finish before `dependent`.
    pub fn remove_dependency(&mut self, blocker: u64, dependent: u64) -> (r: Result<(), TaskError>)
        requires
            old(self).wf(),
        ensures
            final(self).wf(),
            match spec_remove_dependency(old(self)@, blocker, dependent) {
                Ok(ts) => r is Ok && final(self)@ == ts,
                Err(e) => r matches Err(err) && err@ == e && final(self)@ == old(self)@,
            },
    {
        let ghost ts = self@;
        proof {
            lemma_ascending_unique(ts);
        }
        let iu = match index_of(&self.tasks, blocker) {
            Some(i) => i,
            None => {
                return Err(TaskError::NotFound(blocker));
            },
        };
        let iv = match index_of(&self.tasks, dependent) {
            Some(i) => i,
            None => {
                return Err(TaskError::NotFound(dependent));
            },
        };
        let ghost old_tasks = self.tasks@;
        proof {
            lemma_task_of(ts, iu as int);
            lemma_task_of(ts, iv as int);
            assert(item_wf(old_tasks[iu as int]));
            assert(item_wf(old_tasks[iv as int]));
        }
        let mut item = self.tasks[iu].duplicate();
        remove_sorted(&mut item.blocks, dependent);
        self.tasks.set(iu, item);
        if iu != iv {
            let mut dep = self.tasks[iv].duplicate();
            remove_sorted(&mut dep.blocked_by, blocker);
            self.tasks.set(iv, dep);
        }
        proof {
            let pre = with_blocks(ts, blocker, ts[iu as int].blocks.remove(dependent));
            let nt = self@;
            lemma_no_self_edge(ts, iu as int);
            assert forall|i: int| 0 <= i < nt.len() implies #[trigger] nt[i].blocked_by == derived_blocked_by(pre, pre[i].id) by {
                assert(self.tasks@[i]@ == nt[i]);
                assert forall|b: u64| nt[i].blocked_by.contains(b) <==> unresolved_blocker(pre, b, pre[i].id) by {
                    if unresolved_blocker(pre, b, pre[i].id) {
                        let k = choose|k: int|
                            0 <= k < pre.len() && pre[k].id == b && (#[trigger] pre[k].blocks).contains(pre[i].id)
                                && pre[k].status != TaskStatus::Completed;
                        assert(ts[k].blocks.contains(ts[i].id));
                        assert(unresolved_blocker(ts, b, ts[i].id));
                        assert(ts[i].blocked_by.contains(b));
                    }
                    if nt[i].blocked_by.contains(b) {
                        assert(ts[i].blocked_by.contains(b));
                        assert(unresolved_blocker(ts, b, ts[i].id));
                        let k = choose|k: int|
                            0 <= k < ts.len() && ts[k].id == b && (#[trigger] ts[k].blocks).contains(ts[i].id)
                                && ts[k].status != TaskStatus::Completed;
                        assert(pre[k].blocks.contains(pre[i].id));
                    }
                }
                assert(nt[i].blocked_by =~= derived_blocked_by(pre, pre[i].id));
            }
            assert forall|i: int| 0 <= i < nt.len() implies #[trigger] nt[i] == with_blocked_by(pre[i], nt[i].blocked_by) by {
                assert(self.tasks@[i]@ == nt[i]);
            }
            lemma_normalized(pre, nt);
            assert forall|i: int, d: u64| 0 <= i < nt.len() && (#[trigger] nt[i].blocks.contains(d)) implies has_id(nt, d) by {
                assert(ts[i].blocks.contains(d));
                let k = choose|k: int| 0 <= k < ts.len() && ts[k].id == d;
                assert(nt[k].id == d);
            }
            assert forall|x: u64, y: u64| #[trigger] dep_edge(nt, x, y) implies dep_edge(ts, x, y) by {
                let i = choose|i: int| 0 <= i < nt.len() && nt[i].id == x && (#[trigger] nt[i].blocks).contains(y);
                let j = choose|j: int| 0 <= j < nt.len() && nt[j].id == y;
                assert(ts[j].id == y);
                assert(ts[i].blocks.contains(y));
            }
            lemma_acyclic_sub(task_edge(ts), task_edge(nt));
            assert forall|i: int| 0 <= i < self.tasks@.len() implies #[trigger] item_wf(self.tasks@[i]) by {
                assert(item_wf(old_tasks[i]));
            }
        }
        Ok(())
    }

    /// Gives task `id` the status `status` and updates the dependents it blocks.
    /// With `check`, a task that still has unresolved blockers cannot be started or completed.
    #[verifier::rlimit(50)]
    #[verifier::spinoff_prover]
    pub fn apply_status(&mut self, id: u64, status: TaskStatus, check: bool) -> (r: Result<StatusChange, TaskError>)
        requires
            old(self).wf(),
        ensures
            final(self).wf(),
            !has_id(old(self)@, id) ==> (r matches Err(e) && e@ == TaskErrorView::NotFound(id)),
            has_id(old(self)@, id) && check && status != TaskStatus::Pending && task_of(old(self)@, id).blocked_by
                != Set::<u64>::empty() ==> (r matches Err(e) && blocked_status_error(e@, id, status, task_of(old(self)@, id).blocked_by)),
            r is Err ==> final(self)@ == old(self)@,
            r matches Ok(ch) ==> {
                &&& has_id(old(self)@, id)
                &&& final(self)@ == normalize(with_status(old(self)@, id, status))
                &&& strictly_sorted(ch.unblocked@)
                &&& strictly_sorted(ch.reblocked@)
                &&& forall|d: u64| ch.unblocked@.contains(d) <==> became_unblocked(old(self)@, final(self)@, d)
                &&& forall|d: u64| ch.reblocked@.contains(d) <==> became_blocked(old(self)@, final(self)@, d)
            },
            has_id(old(self)@, id) && !(check && status != TaskStatus::Pending && task_of(old(self)@, id).blocked_by
                != Set::<u64>::empty()) ==> r is Ok,
    {
        let ghost ts = self@;
        let ghost old_tasks = self.tasks@;
        proof {
            lemma_ascending_unique(ts);
        }
        let x = match index_of(&self.tasks, id) {
            Some(i) => i,
            None => {
                return Err(TaskError::NotFound(id));
            },
        };
        proof {
            lemma_task_of(ts, x as int);
            assert(item_wf(old_tasks[x as int]));
        }
        if check && status != TaskStatus::Pending && self.tasks[x].blocked_by.len() > 0 {
            proof {
                assert(self.tasks@[x as int].blocked_by@.to_set().contains(self.tasks@[x as int].blocked_by@[0]));
            }
            return Err(
                TaskError::BlockedStatus {
                    id,
                    status,
                    blocked_by: super::types::copy_ids(&self.tasks[x].blocked_by),
                },
            );
        }
        proof {
            if check && status != TaskStatus::Pending {
                assert(self.tasks@[x as int].blocked_by@ =~= Seq::<u64>::empty());
                assert(ts[x as int].blocked_by =~= Set::<u64>::empty());
            }
            lemma_no_self_edge(ts, x as int);
        }
        let deps = super::types::copy_ids(&self.tasks[x].blocks);
        let n = self.tasks.len();
        let mut unblocked: Vec<u64> = Vec::new();
        let mut reblocked: Vec<u64> = Vec::new();
        let mut p: usize = 0;
        while p < deps.len()
            invariant
                n == self.tasks@.len(),
                n == ts.len(),
                ts == views(old_tasks),
                store_wf(old_tasks),
                ids_unique(ts),
                x < n,
                ts[x as int].id == id,
                deps@ == old_tasks[x as int].blocks@,
                strictly_sorted(deps@),
                !ts[x as int].blocks.contains(id),
                p <= deps@.len(),
                forall|i: int| 0 <= i < n ==> #[trigger] item_wf(self.tasks@[i]),
                forall|i: int|
                    0 <= i < n ==> (#[trigger] self.tasks@[i])@ == (if deps@.take(p as int).contains(ts[i].id) {
                        with_blocked_by(ts[i], status_effect(ts, x as int, status, i))
                    } else {
                        ts[i]
                    }),
                forall|k: int| 0 <= k < unblocked@.len() ==> deps@.take(p as int).contains(#[trigger] unblocked@[k]),
                forall|k: int| 0 <= k < reblocked@.len() ==> deps@.take(p as int).contains(#[trigger] reblocked@[k]),
                strictly_sorted(unblocked@),
                strictly_sorted(reblocked@),
                forall|d: u64| unblocked@.contains(d) <==> (deps@.take(p as int).contains(d) && became_unblocked(
                    ts,
                    normalize(with_status(ts, id, status)),
                    d,
                )),
                forall|d: u64| reblocked@.contains(d) <==> (deps@.take(p as int).contains(d) && became_blocked(
                    ts,
                    normalize(with_status(ts, id, status)),
                    d,
                )),
            decreases deps@.len() - p,
        {
            let d = deps[p];
            let ghost target = normalize(with_status(ts, id, status));
            proof {
                assert(ts[x as int].blocks.contains(d));
                assert(has_id(ts, d));
            }
            let j = match index_of(&self.tasks, d) {
                Some(j) => j,
                None => {
                    proof {
                        let k = choose|k: int| 0 <= k < ts.len() && ts[k].id == d;
                        assert(self.tasks@[k]@.id == d);
                    }
                    return Err(TaskError::NotFound(d));
                },
            };
            proof {
                assert(!deps@.take(p as int).contains(d)) by {
                    if deps@.take(p as int).contains(d) {
                        let q = choose|q: int| 0 <= q < p && deps@.take(p as int)[q] == d;
                        assert(deps@[q] < deps@[p as int]);
                    }
                }
                assert(self.tasks@[j as int]@ == ts[j as int]);
                assert(ts[j as int].id == d);
                lemma_task_of(ts, j as int);
                lemma_status_effect(ts, x as int, status, j as int);
                assert(item_wf(self.tasks@[j as int]));
                assert(target[j as int].blocked_by == status_effect(ts, x as int, status, j as int));
                lemma_task_of(target, j as int);
            }
            let was_empty = self.tasks[j].blocked_by.len() == 0;
            let mut item = self.tasks[j].duplicate();
            if status == TaskStatus::Completed {
                remove_sorted(&mut item.blocked_by, id);
            } else {
                insert_sorted(&mut item.blocked_by, id);
            }
            let now_empty = item.blocked_by.len() == 0;
            proof {
                assert(item@.blocked_by == status_effect(ts, x as int, status, j as int));
                if was_empty {
                    assert(self.tasks@[j as int].blocked_by@ =~= Seq::<u64>::empty());
                    assert(ts[j as int].blocked_by =~= Set::<u64>::empty());
                } else {
                    assert(ts[j as int].blocked_by.contains(self.tasks@[j as int].blocked_by@[0]));
                }
                if now_empty {
                    assert(item.blocked_by@ =~= Seq::<u64>::empty());
                    assert(item@.blocked_by =~= Set::<u64>::empty());
                } else {
                    assert(item@.blocked_by.contains(item.blocked_by@[0]));
                }
            }
            self.tasks.set(j, item);
            let ghost ub = unblocked@;
            let ghost rb = reblocked@;
            if !was_empty && now_empty {
                unblocked.push(d);
            }
            if was_empty && !now_empty {
                reblocked.push(d);
            }
            proof {
                let tp = deps@.take(p as int + 1);
                assert(tp =~= deps@.take(p as int).push(d));
                assert forall|i: int| 0 <= i < n implies (#[trigger] self.tasks@[i])@ == (if tp.contains(ts[i].id) {
                    with_blocked_by(ts[i], status_effect(ts, x as int, status, i))
                } else {
                    ts[i]
                }) by {
                    if i != j {
                        assert(ts[i].id != d);
                        if deps@.take(p as int).contains(ts[i].id) {
                            assert(tp.contains(ts[i].id));
                        }
                        if tp.contains(ts[i].id) {
                            let q = choose|q: int| 0 <= q < tp.len() && tp[q] == ts[i].id;
                            if q < p {
                                assert(deps@.take(p as int)[q] == ts[i].id);
                            }
                        }
                    } else {
                        assert(tp[p as int] == d);
                    }
                }
                assert forall|k: int| 0 <= k < unblocked@.len() implies tp.contains(#[trigger] unblocked@[k]) by {
                    if k < ub.len() {
                        assert(unblocked@[k] == ub[k]);
                        let q = choose|q: int| 0 <= q < p && deps@.take(p as int)[q] == ub[k];
                        assert(tp[q] == ub[k]);
                    } else {
                        assert(tp[p as int] == d);
                    }
                }
                assert forall|k: int| 0 <= k < reblocked@.len() implies tp.contains(#[trigger] reblocked@[k]) by {
                    if k < rb.len() {
                        assert(reblocked@[k] == rb[k]);
                        let q = choose|q: int| 0 <= q < p && deps@.take(p as int)[q] == rb[k];
                        assert(tp[q] == rb[k]);
                    } else {
                        assert(tp[p as int] == d);
                    }
                }
                assert forall|a: int, b: int| 0 <= a < b < unblocked@.len() implies unblocked@[a] < unblocked@[b] by {
                    if b == ub.len() {
                        let q = choose|q: int| 0 <= q < p && deps@.take(p as int)[q] == ub[a];
                        assert(deps@[q] < deps@[p as int]);
                    }
                }
                assert forall|a: int, b: int| 0 <= a < b < reblocked@.len() implies reblocked@[a] < reblocked@[b] by {
                    if b == rb.len() {
                        let q = choose|q: int| 0 <= q < p && deps@.take(p as int)[q] == rb[a];
                        assert(deps@[q] < deps@[p as int]);
                    }
                }
                assert forall|e: u64| unblocked@.contains(e) <==> (tp.contains(e) && became_unblocked(ts, target, e)) by {
                    if e == d {
                        assert(tp[p as int] == d);
                        if unblocked@.contains(e) && !ub.contains(e) {
                        }
                        if !was_empty && now_empty {
                            assert(unblocked@[ub.len() as int] == d);
                        }
                    } else {
                        if tp.contains(e) {
                            let q = choose|q: int| 0 <= q < tp.len() && tp[q] == e;
                            assert(q < p);
                            assert(deps@.take(p as int)[q] == e);
                        }
                        if unblocked@.contains(e) {
                            let q = choose|q: int| 0 <= q < unblocked@.len() && unblocked@[q] == e;
                            assert(q < ub.len());
                            assert(ub[q] == e);
                        }
                        if ub.contains(e) {
                            let q = choose|q: int| 0 <= q < ub.len() && ub[q] == e;
                            assert(unblocked@[q] == e);
                        }
                        if deps@.take(p as int).contains(e) {
                            let q = choose|q: int| 0 <= q < p && deps@.take(p as int)[q] == e;
                            assert(tp[q] == e);
                        }
                    }
                }
                assert forall|e: u64| reblocked@.contains(e) <==> (tp.contains(e) && became_blocked(ts, target, e)) by {
                    if e == d {
                        assert(tp[p as int] == d);
                        if was_empty && !now_empty {
                            assert(reblocked@[rb.len() as int] == d);
                        }
                    } else {
                        if tp.contains(e) {
                            let q = choose|q: int| 0 <= q < tp.len() && tp[q] == e;
                            assert(q < p);
                            assert(deps@.take(p as int)[q] == e);
                        }
                        if reblocked@.contains(e) {
                            let q = choose|q: int| 0 <= q < reblocked@.len() && reblocked@[q] == e;
                            assert(q < rb.len());
                            assert(rb[q] == e);
                        }
                        if rb.contains(e) {
                            let q = choose|q: int| 0 <= q < rb.len() && rb[q] == e;
                            assert(reblocked@[q] == e);
                        }
                        if deps@.take(p as int).contains(e) {
                            let q = choose|q: int| 0 <= q < p && deps@.take(p as int)[q] == e;
                            assert(tp[q] == e);
                        }
                    }
                }
            }
            p += 1;
        }
        let ghost tbefore = self.tasks@;
        let mut item = self.tasks[x].duplicate();
        item.status = status;
        self.tasks.set(x, item);
        proof {
            let pre = with_status(ts, id, status);
            let nt = self@;
            assert(deps@.take(deps@.len() as int) =~= deps@);
            assert forall|i: int| 0 <= i < nt.len() implies #[trigger] nt[i].blocked_by == derived_blocked_by(pre, pre[i].id) by {
                lemma_status_effect(ts, x as int, status, i);
                assert(self.tasks@[i]@ == nt[i]);
                if i != x {
                    if deps@.contains(ts[i].id) {
                    } else {
                        assert(!ts[x as int].blocks.contains(ts[i].id));
                    }
                }
            }
            assert forall|i: int| 0 <= i < nt.len() implies #[trigger] nt[i] == with_blocked_by(pre[i], nt[i].blocked_by) by {
                assert(self.tasks@[i]@ == nt[i]);
            }
            lemma_normalized(pre, nt);
            assert forall|i: int, dd: u64| 0 <= i < nt.len() && (#[trigger] nt[i].blocks.contains(dd)) implies has_id(nt, dd) by {
                assert(ts[i].blocks.contains(dd));
                let k = choose|k: int| 0 <= k < ts.len() && ts[k].id == dd;
                assert(nt[k].id == dd);
            }
            assert forall|a: u64, b: u64| #[trigger] dep_edge(nt, a, b) implies dep_edge(ts, a, b) by {
                let i = choose|i: int| 0 <= i < nt.len() && nt[i].id == a && (#[trigger] nt[i].blocks).contains(b);
                let j = choose|j: int| 0 <= j < nt.len() && nt[j].id == b;
                assert(ts[j].id == b);
                assert(ts[i].blocks.contains(b));
            }
            lemma_acyclic_sub(task_edge(ts), task_edge(nt));
            assert forall|i: int| 0 <= i < self.tasks@.len() implies #[trigger] item_wf(self.tasks@[i]) by {
                assert(item_wf(tbefore[i]));
            }
            assert(nt == normalize(with_status(ts, id, status)));
            assert(ids_unique(nt)) by {
                assert forall|a: int, b: int| 0 <= a < nt.len() && 0 <= b < nt.len() && a != b implies nt[a].id != nt[b].id by {
                    assert(nt[a].id == ts[a].id);
                    assert(nt[b].id == ts[b].id);
                }
            }
            assert forall|dd: u64| became_unblocked(ts, nt, dd) || became_blocked(ts, nt, dd) implies deps@.contains(dd) by {
                let i = choose|i: int| 0 <= i < ts.len() && ts[i].id == dd;
                lemma_task_of(ts, i);
                assert(nt[i].id == dd);
                lemma_task_of(nt, i);
                lemma_status_effect(ts, x as int, status, i);
                assert(nt[i].blocked_by == status_effect(ts, x as int, status, i));
                if !ts[x as int].blocks.contains(dd) {
                    assert(nt[i].blocked_by == ts[i].blocked_by);
                }
            }
        }
        Ok(StatusChange { unblocked, reblocked })
    }

    /// Applies edge edits in order, all or nothing.
    pub fn apply_edges(&mut self, ops: &Vec<EdgeOp>) -> (r: Result<(), TaskError>)
        requires
            old(self).wf(),
        ensures
            final(self).wf(),
            match spec_apply_edges(old(self)@, ops@) {
                Ok(ts) => r is Ok && final(self)@ == ts,
                Err(e) => r matches Err(err) && err@ == e && final(self)@ == old(self)@,
            },
    {
        let ghost ts0 = self@;
        let mut work = self.duplicate();
        let mut i: usize = 0;
        while i < ops.len()
            invariant
                work.wf(),
                self.wf(),
                self@ == ts0,
                i <= ops@.len(),
                spec_apply_edges(ts0, ops@.take(i as int)) == Ok::<Seq<TaskView>, TaskErrorView>(work@),
            decreases ops.len() - i,
        {
            let op = ops[i];
            proof {
                assert(ops@.take(i as int + 1).drop_last() =~= ops@.take(i as int));
                assert(ops@.take(i as int + 1).last() == op);
            }
            let step = match op {
                EdgeOp::Add { blocker, dependent } => work.add_dependency(blocker, dependent),
                EdgeOp::Remove { blocker, dependent } => work.remove_dependency(blocker, dependent),
            };
            match step {
                Ok(()) => {},
                Err(e) => {
                    proof {
                        lemma_edges_err_extends(ts0, ops@, i as int + 1);
                    }
                    return Err(e);
                },
            }
            i += 1;
        }
        assert(ops@.take(ops@.len() as int) =~= ops@);
        *self = work;
        Ok(())
    }

    /// Replaces the task at position `i` by one that differs only in subject,
    /// description, owner or bound execution context.
    pub fn replace_fields(&mut self, i: usize, item: TaskItem)
        requires
            old(self).wf(),
            i < old(self)@.len(),
            item_wf(item),
            same_graph_fields(item@, old(self)@[i as int]),
        ensures
            final(self).wf(),
            final(self)@ == old(self)@.update(i as int, item@),
    {
        let ghost ts = self@;
        let ghost old_tasks = self.tasks@;
        self.tasks.set(i, item);
        proof {
            let nt = self@;
            assert(nt =~= ts.update(i as int, item@));
            assert forall|k: int| 0 <= k < ts.len() implies #[trigger] same_graph_fields(ts[k], nt[k]) by {}
            lemma_same_graph_wf(ts, nt);
            assert(ids_ascending(nt)) by {
                assert forall|a: int, b: int| 0 <= a < b < nt.len() implies nt[a].id < nt[b].id by {
                    assert(same_graph_fields(ts[a], nt[a]));
                    assert(same_graph_fields(ts[b], nt[b]));
                }
            }
            assert forall|k: int| 0 <= k < self.tasks@.len() implies #[trigger] item_wf(self.tasks@[k]) by {
                assert(item_wf(old_tasks[k]));
            }
        }
    }

    /// Appends a task with no dependency edges and an id above all others.
    pub fn push_task(&mut self, item: TaskItem)
        requires
            old(self).wf(),
            item.blocks@.len() == 0,
            item.blocked_by@.len() == 0,
            old(self)@.len() == 0 || old(self)@.last().id < item.id,
        ensures
            final(self).wf(),
            final(self)@ == old(self)@.push(item@),
    {
        let ghost ts = self@;
        let ghost old_tasks = self.tasks@;
        self.tasks.push(item);
        proof {
            let nt = self@;
            let n = ts.len();
            assert(nt =~= ts.push(item@));
            assert(item@.blocks =~= Set::<u64>::empty());
            assert(item@.blocked_by =~= Set::<u64>::empty());
            assert(ids_ascending(nt)) by {
                assert forall|a: int, b: int| 0 <= a < b < nt.len() implies nt[a].id < nt[b].id by {
                    if b == n && a < n - 1 {
                        assert(ts[a].id < ts[n - 1].id);
                    }
                }
            }
            assert forall|i: int, d: u64| 0 <= i < nt.len() && (#[trigger] nt[i].blocks.contains(d)) implies has_id(nt, d) by {
                assert(ts[i].blocks.contains(d));
                let k = choose|k: int| 0 <= k < ts.len() && ts[k].id == d;
                assert(nt[k].id == d);
            }
            assert forall|i: int, b: u64| 0 <= i < nt.len() implies ((#[trigger] nt[i].blocked_by.contains(b))
                <==> unresolved_blocker(nt, b, nt[i].id)) by {
                if unresolved_blocker(nt, b, nt[i].id) {
                    let k = choose|k: int|
                        0 <= k < nt.len() && nt[k].id == b && (#[trigger] nt[k].blocks).contains(nt[i].id)
                            && nt[k].status != TaskStatus::Completed;
                    assert(k < n);
                    if i == n {
                        assert(has_id(ts, item.id));
                        let q = choose|q: int| 0 <= q < ts.len() && ts[q].id == item.id;
                        if n > 0 {
                            assert(ts[q].id <= ts[n - 1].id);
                        }
                    } else {
                        assert(unresolved_blocker(ts, b, ts[i].id));
                    }
                }
                if i < n && ts[i].blocked_by.contains(b) {
                    assert(unresolved_blocker(ts, b, ts[i].id));
                    let k = choose|k: int|
                        0 <= k < ts.len() && ts[k].id == b && (#[trigger] ts[k].blocks).contains(ts[i].id)
                            && ts[k].status != TaskStatus::Completed;
                    assert(nt[k].blocks.contains(nt[i].id));
                }
            }
            assert forall|x: u64, y: u64| #[trigger] dep_edge(nt, x, y) implies dep_edge(ts, x, y) by {
                let i = choose|i: int| 0 <= i < nt.len() && nt[i].id == x && (#[trigger] nt[i].blocks).contains(y);
                assert(i < n);
                assert(ts[i].blocks.contains(y));
                assert(has_id(ts, y));
            }
            lemma_acyclic_sub(task_edge(ts), task_edge(nt));
            assert forall|k: int| 0 <= k < self.tasks@.len() implies #[trigger] item_wf(self.tasks@[k]) by {
                if k < n {
                    assert(item_wf(old_tasks[k]));
                }
            }
        }
    }

    /// An independent copy of this store.
    pub fn duplicate(&self) -> (r: TaskStore)
        requires
            self.wf(),
        ensures
            r.wf(),
            r@ == self@,
    {
        let mut tasks: Vec<TaskItem> = Vec::new();
        let mut i: usize = 0;
        while i < self.tasks.len()
            invariant
                i <= self.tasks@.len(),
                tasks@.len() == i,
                forall|k: int| 0 <= k < i ==> (#[trigger] tasks@[k])@ == self.tasks@[k]@,
                forall|k: int| 0 <= k < i ==> (#[trigger] tasks@[k]).blocks@ == self.tasks@[k].blocks@,
                forall|k: int| 0 <= k < i ==> (#[trigger] tasks@[k]).blocked_by@ == self.tasks@[k].blocked_by@,
            decreases self.tasks.len() - i,
        {
            tasks.push(self.tasks[i].duplicate());
            i += 1;
        }
        let r = TaskStore { tasks };
        assert(views(r.tasks@) =~= views(self.tasks@));
        assert forall|k: int| 0 <= k < r.tasks@.len() implies #[trigger] item_wf(r.tasks@[k]) by {
            assert(item_wf(self.tasks@[k]));
        }
        r
    }
}

/// Views that agree on the fields the graph depends on.
pub open spec fn same_graph_fields(a: TaskView, b: TaskView) -> bool {
    &&& a.id == b.id
    &&& a.status == b.status
    &&& a.blocks == b.blocks
    &&& a.blocked_by == b.blocked_by
}

proof fn lemma_same_graph_wf(ts: Seq<TaskView>, nt: Seq<TaskView>)
    requires
        graph_wf(ts),
        nt.len() == ts.len(),
        forall|i: int| 0 <= i < ts.len() ==> #[trigger] same_graph_fields(ts[i], nt[i]),
    ensures
        graph_wf(nt),
        forall|a: u64, b: u64| #[trigger] dep_edge(nt, a, b) <==> dep_edge(ts, a, b),
{
    assert forall|i: int| 0 <= i < ts.len() implies ts[i].id == nt[i].id && ts[i].blocks == nt[i].blocks by {
        assert(same_graph_fields(ts[i], nt[i]));
    }
    assert forall|a: u64, b: u64| #[trigger] dep_edge(nt, a, b) <==> dep_edge(ts, a, b) by {
        if dep_edge(nt, a, b) {
            let i = choose|i: int| 0 <= i < nt.len() && nt[i].id == a && (#[trigger] nt[i].blocks).contains(b);
            let j = choose|j: int| 0 <= j < nt.len() && nt[j].id == b;
            assert(ts[j].id == b);
            assert(ts[i].blocks.contains(b));
        }
        if dep_edge(ts, a, b) {
            let i = choose|i: int| 0 <= i < ts.len() && ts[i].id == a && (#[trigger] ts[i].blocks).contains(b);
            let j = choose|j: int| 0 <= j < ts.len() && ts[j].id == b;
            assert(nt[j].id == b);
            assert(nt[i].blocks.contains(b));
        }
    }
    lemma_acyclic_sub(task_edge(ts), task_edge(nt));
    assert forall|i: int, d: u64| 0 <= i < nt.len() && (#[trigger] nt[i].blocks.contains(d)) implies has_id(nt, d) by {
        assert(ts[i].blocks.contains(d));
        let k = choose|k: int| 0 <= k < ts.len() && ts[k].id == d;
        assert(nt[k].id == d);
    }
    assert forall|i: int, b: u64| 0 <= i < nt.len() implies ((#[trigger] nt[i].blocked_by.contains(b))
        <==> unresolved_blocker(nt, b, nt[i].id)) by {
        assert(same_graph_fields(ts[i], nt[i]));
        assert(ts[i].blocked_by.contains(b) <==> unresolved_blocker(ts, b, ts[i].id));
        if unresolved_blocker(nt, b, nt[i].id) {
            let k = choose|k: int|
                0 <= k < nt.len() && nt[k].id == b && (#[trigger] nt[k].blocks).contains(nt[i].id)
                    && nt[k].status != TaskStatus::Completed;
            assert(same_graph_fields(ts[k], nt[k]));
            assert(ts[k].blocks.contains(ts[i].id));
        }
        if unresolved_blocker(ts, b, ts[i].id) {
            let k = choose|k: int|
                0 <= k < ts.len() && ts[k].id == b && (#[trigger] ts[k].blocks).contains(ts[i].id)
                    && ts[k].status != TaskStatus::Completed;
            assert(same_graph_fields(ts[k], nt[k]));
            assert(nt[k].blocks.contains(nt[i].id));
        }
    }
}

/// Once an edit in the sequence is refused, the whole sequence is refused the same way.
proof fn lemma_edges_err_extends(ts: Seq<TaskView>, ops: Seq<EdgeOp>, k: int)
    requires
        0 <= k <= ops.len(),
        spec_apply_edges(ts, ops.take(k)) is Err,
    ensures
        spec_apply_edges(ts, ops) == spec_apply_edges(ts, ops.take(k)),
    decreases ops.len() - k,
{
    if k < ops.len() {
        assert(ops.take(k + 1).drop_last() =~= ops.take(k));
        lemma_edges_err_extends(ts, ops, k + 1);
    } else {
        assert(ops.take(k) =~= ops);
    }
}

} // verus!
