//! The task tools' operations: create, claim, update, get, list, and execution-context binding.
use vstd::prelude::*;

use super::error::{TaskError, TaskErrorView};
use super::reach::{has_id, ids_unique, index_of};
use super::store::{
    became_blocked, became_unblocked, blocked_status_error, lemma_task_of, normalize, spec_apply_edges,
    same_graph_fields, spec_apply_edge, with_blocks, with_status, EdgeOp, StatusChange, TaskStore, task_of,
};
use super::types::{copy_ids, copy_opt_string, item_wf, strictly_sorted, views, TaskItem, TaskStatus, TaskView};
use crate::text::{str_eq, trim_text, trimmed};

verus! {

/// Who is acting on the task list: the lead agent, or a named teammate.
#[derive(Debug, Clone, Copy, PartialEq, Eq)]
pub enum TaskAccess<'a> {
    Lead,
    Teammate(&'a str),
}

impl<'a> TaskAccess<'a> {
    /// The teammate's name, if a teammate acts.
    pub fn actor_name(self) -> (r: Option<&'a str>)
        ensures
            match self {
                TaskAccess::Lead => r is None,
                TaskAccess::Teammate(name) => r == Some(name),
            },
    {
        match self {
            TaskAccess::Lead => None,
            TaskAccess::Teammate(name) => Some(name),
        }
    }
}

/// Input of `task_create`.
#[derive(Debug)]
pub struct TaskCreateInput {
    pub subject: String,
    pub description: String,
    pub owner: String,
    pub blocked_by: Vec<u64>,
}

/// Input of `task_update`.
#[derive(Debug)]
pub struct TaskUpdateInput {
    pub task_id: u64,
    pub subject: Option<String>,
    pub description: Option<String>,
    pub owner: Option<String>,
    pub status: Option<TaskStatus>,
    pub add_blocked_by: Vec<u64>,
    pub remove_blocked_by: Vec<u64>,
    pub add_blocks: Vec<u64>,
    pub remove_blocks: Vec<u64>,
}

/// Result of `task_update`: the task after the update, and the dependents whose readiness changed.
#[derive(Debug)]
pub struct TaskUpdateOutput {
    pub task: TaskItem,
    pub unblocked: Vec<TaskItem>,
    pub reblocked: Vec<TaskItem>,
}

/// Result of `task_list`: all tasks, and the same tasks grouped by readiness.
#[derive(Debug)]
pub struct TaskListOutput {
    pub tasks: Vec<TaskItem>,
    pub ready: Vec<TaskItem>,
    pub blocked: Vec<TaskItem>,
    pub in_progress: Vec<TaskItem>,
    pub completed: Vec<TaskItem>,
}

/// A refusal as the specifications state it; lists of blockers are given as sets.
pub enum Refusal {
    Plain(TaskErrorView),
    BlockedStatus { id: u64, status: TaskStatus, blockers: Set<u64> },
    BlockedClaim { id: u64, blockers: Set<u64> },
    BlockedBind { id: u64, blockers: Set<u64> },
}

/// The error `e` is the refusal `r` (a blocker list is the sorted list of the set).
pub open spec fn refused_as(e: TaskErrorView, r: Refusal) -> bool {
    match r {
        Refusal::Plain(v) => e == v,
        Refusal::BlockedStatus { id, status, blockers } => blocked_status_error(e, id, status, blockers),
        Refusal::BlockedClaim { id, blockers } => e matches TaskErrorView::BlockedClaim { id: eid, blocked_by: bl }
            && eid == id && strictly_sorted(bl) && bl.to_set() == blockers,
        Refusal::BlockedBind { id, blockers } => e matches TaskErrorView::BlockedBind { id: eid, blocked_by: bl }
            && eid == id && strictly_sorted(bl) && bl.to_set() == blockers,
    }
}

pub open spec fn next_id(ts: Seq<TaskView>) -> int {
    if ts.len() == 0 {
        1
    } else {
        ts.last().id + 1
    }
}

pub open spec fn map_task(ts: Seq<TaskView>, id: u64, f: spec_fn(TaskView) -> TaskView) -> Seq<TaskView> {
    Seq::new(ts.len(), |i: int| if ts[i].id == id { f(ts[i]) } else { ts[i] })
}

pub open spec fn set_owner(o: Seq<char>) -> spec_fn(TaskView) -> TaskView {
    |t: TaskView| TaskView { owner: o, ..t }
}

pub open spec fn set_context(c: Option<Seq<char>>) -> spec_fn(TaskView) -> TaskView {
    |t: TaskView| TaskView { execution_context_id: c, ..t }
}

pub open spec fn opt_or(o: Option<Seq<char>>, d: Seq<char>) -> Seq<char> {
    match o {
        Some(v) => v,
        None => d,
    }
}

pub open spec fn opt_view(o: Option<String>) -> Option<Seq<char>> {
    match o {
        Some(v) => Some(v@),
        None => None,
    }
}

/// The edits of `task_update`: the subject (trimmed), description and owner that it sets.
pub open spec fn set_update_fields(input: TaskUpdateInput) -> spec_fn(TaskView) -> TaskView {
    |t: TaskView|
        TaskView {
            subject: match input.subject {
                Some(s) => trimmed(s@),
                None => t.subject,
            },
            description: opt_or(opt_view(input.description), t.description),
            owner: opt_or(opt_view(input.owner), t.owner),
            ..t
        }
}

/// The task created by `task_create` with id `id`.
pub open spec fn created_view(input: TaskCreateInput, id: u64) -> TaskView {
    TaskView {
        id,
        subject: trimmed(input.subject@),
        description: input.description@,
        status: TaskStatus::Pending,
        blocked_by: Set::empty(),
        blocks: Set::empty(),
        owner: input.owner@,
        execution_context_id: None,
    }
}

/// The edge between task `id` and `other`: added or removed, with `id` as the blocker or the dependent.
pub open spec fn edge_for(other: u64, id: u64, add: bool, id_blocks: bool) -> EdgeOp {
    let (b, d) = if id_blocks {
        (id, other)
    } else {
        (other, id)
    };
    if add {
        EdgeOp::Add { blocker: b, dependent: d }
    } else {
        EdgeOp::Remove { blocker: b, dependent: d }
    }
}

pub open spec fn edges_for(others: Seq<u64>, id: u64, add: bool, id_blocks: bool) -> Seq<EdgeOp> {
    others.map_values(|o: u64| edge_for(o, id, add, id_blocks))
}

pub open spec fn blocker_ops(blockers: Seq<u64>, id: u64) -> Seq<EdgeOp> {
    edges_for(blockers, id, true, false)
}

/// The edge edits of `task_update`, in the order they are applied.
pub open spec fn update_ops(input: TaskUpdateInput) -> Seq<EdgeOp> {
    let id = input.task_id;
    edges_for(input.add_blocked_by@, id, true, false) + edges_for(input.remove_blocked_by@, id, false, false)
        + edges_for(input.add_blocks@, id, true, true) + edges_for(input.remove_blocks@, id, false, true)
}

/// What `task_create` does to the task list.
pub open spec fn spec_create(ts: Seq<TaskView>, input: TaskCreateInput) -> Result<Seq<TaskView>, TaskErrorView> {
    let id = next_id(ts) as u64;
    spec_apply_edges(ts.push(created_view(input, id)), blocker_ops(input.blocked_by@, id))
}

pub open spec fn claimable(t: TaskView) -> bool {
    t.status == TaskStatus::Pending && t.blocked_by == Set::<u64>::empty() && t.owner.len() == 0
}

/// Position of the first claimable task (meaningful when there is one).
pub open spec fn first_claimable(ts: Seq<TaskView>) -> int {
    choose|i: int| 0 <= i < ts.len() && claimable(ts[i]) && forall|j: int| 0 <= j < i ==> !#[trigger] claimable(ts[j])
}

/// The id of the task that `task_claim` takes.
pub open spec fn claim_target(ts: Seq<TaskView>, task_id: Option<u64>) -> u64 {
    match task_id {
        Some(id) => id,
        None => ts[first_claimable(ts)].id,
    }
}

/// The claimant's name, trimmed, when one is given and not blank.
pub open spec fn claimant(owner: Option<&str>) -> Option<Seq<char>> {
    match owner {
        Some(o) => claimant_name(o@),
        None => None,
    }
}

/// A claimant's name trimmed, unless it is blank.
pub open spec fn claimant_name(o: Seq<char>) -> Option<Seq<char>> {
    if trimmed(o).len() > 0 {
        Some(trimmed(o))
    } else {
        None
    }
}

/// What `task_claim` does to the task list.
pub open spec fn spec_claim(ts: Seq<TaskView>, task_id: Option<u64>, owner: Option<&str>) -> Result<Seq<TaskView>, Refusal> {
    match claimant(owner) {
        None => Err(Refusal::Plain(TaskErrorView::UnnamedClaimant)),
        Some(name) => claim_as(ts, task_id, name),
    }
}

/// What `task_claim` does for the claimant `name`.
pub open spec fn claim_as(ts: Seq<TaskView>, task_id: Option<u64>, name: Seq<char>) -> Result<Seq<TaskView>, Refusal> {
    match task_id {
        Some(id) => if !has_id(ts, id) {
            Err(Refusal::Plain(TaskErrorView::NotFound(id)))
        } else {
            match claim_refusal(task_of(ts, id), name) {
                Some(rf) => Err(rf),
                None => Ok(map_task(ts, id, set_owner(name))),
            }
        },
        None => if exists|i: int| 0 <= i < ts.len() && #[trigger] claimable(ts[i]) {
            Ok(map_task(ts, ts[first_claimable(ts)].id, set_owner(name)))
        } else {
            Err(Refusal::Plain(TaskErrorView::NothingToClaim))
        },
    }
}

pub open spec fn updates_dependencies(input: TaskUpdateInput) -> bool {
    input.add_blocked_by@.len() > 0 || input.remove_blocked_by@.len() > 0 || input.add_blocks@.len() > 0
        || input.remove_blocks@.len() > 0
}

/// The refusal a teammate meets when updating a task (`None`: allowed).
pub open spec fn update_denial(t: TaskView, input: TaskUpdateInput, access: TaskAccess) -> Option<TaskErrorView> {
    match access {
        TaskAccess::Lead => None,
        TaskAccess::Teammate(name) => if t.owner == name@ {
            if updates_dependencies(input) {
                Some(TaskErrorView::DependencyEditDenied { teammate: name@, id: t.id })
            } else if input.owner is Some && input.owner->0@ != name@ {
                Some(TaskErrorView::ReassignDenied { teammate: name@, id: t.id, owner: input.owner->0@ })
            } else {
                None
            }
        } else {
            Some(TaskErrorView::UpdateDenied { teammate: name@, id: t.id, owner: t.owner })
        },
    }
}

/// The refusal a teammate meets when managing the execution context of a task they do not own.
pub open spec fn context_denial(t: TaskView, access: TaskAccess) -> Option<TaskErrorView> {
    match access {
        TaskAccess::Lead => None,
        TaskAccess::Teammate(name) => if t.owner == name@ {
            None
        } else {
            Some(TaskErrorView::ContextAccessDenied { teammate: name@, id: t.id, owner: t.owner })
        },
    }
}

/// Giving a task a status, with the check that a blocked task is neither started nor completed.
pub open spec fn spec_status(ts: Seq<TaskView>, id: u64, s: TaskStatus, check: bool) -> Result<Seq<TaskView>, Refusal> {
    if !has_id(ts, id) {
        Err(Refusal::Plain(TaskErrorView::NotFound(id)))
    } else if check && s != TaskStatus::Pending && task_of(ts, id).blocked_by != Set::<u64>::empty() {
        Err(Refusal::BlockedStatus { id, status: s, blockers: task_of(ts, id).blocked_by })
    } else {
        Ok(normalize(with_status(ts, id, s)))
    }
}

/// A started or completed task must have no unresolved blockers.
pub open spec fn spec_check_unblocked(ts: Seq<TaskView>, id: u64) -> Result<Seq<TaskView>, Refusal> {
    let t = task_of(ts, id);
    if t.status != TaskStatus::Pending && t.blocked_by != Set::<u64>::empty() {
        Err(Refusal::BlockedStatus { id, status: t.status, blockers: t.blocked_by })
    } else {
        Ok(ts)
    }
}

/// What `task_update` does to the task list.
pub open spec fn spec_update(ts: Seq<TaskView>, input: TaskUpdateInput, access: TaskAccess) -> Result<Seq<TaskView>, Refusal> {
    let id = input.task_id;
    if !has_id(ts, id) {
        Err(Refusal::Plain(TaskErrorView::NotFound(id)))
    } else {
        match update_denial(task_of(ts, id), input, access) {
            Some(e) => Err(Refusal::Plain(e)),
            None => match update_edited(ts, input) {
                Err(e) => Err(Refusal::Plain(e)),
                Ok(t2) => match input.status {
                    Some(s) => spec_status(t2, id, s, true),
                    None => spec_check_unblocked(t2, id),
                },
            },
        }
    }
}

/// The task list after `task_update`'s field and edge edits, before its status change.
pub open spec fn update_edited(ts: Seq<TaskView>, input: TaskUpdateInput) -> Result<Seq<TaskView>, TaskErrorView> {
    spec_apply_edges(map_task(ts, input.task_id, set_update_fields(input)), update_ops(input))
}

pub open spec fn item_ids(items: Seq<TaskItem>) -> Seq<u64> {
    items.map_values(|t: TaskItem| t.id)
}

/// `items` are the tasks of `ts` selected by `sel`, in ascending id order.
pub open spec fn lists_tasks(items: Seq<TaskItem>, ts: Seq<TaskView>, sel: spec_fn(u64) -> bool) -> bool {
    &&& strictly_sorted(item_ids(items))
    &&& forall|k: int| 0 <= k < items.len() ==> (#[trigger] items[k])@ == task_of(ts, items[k].id)
    &&& forall|d: u64| item_ids(items).contains(d) <==> sel(d)
}

/// What `task_update` returns besides the new task list `ts`.
pub open spec fn update_output(before: Seq<TaskView>, input: TaskUpdateInput, ts: Seq<TaskView>, out: TaskUpdateOutput) -> bool {
    &&& out.task@ == task_of(ts, input.task_id)
    &&& update_edited(before, input) matches Ok(edited)
    &&& lists_tasks(out.unblocked@, ts, |d: u64| became_unblocked(edited, ts, d))
    &&& lists_tasks(out.reblocked@, ts, |d: u64| became_blocked(edited, ts, d))
}

/// What binding an execution context does to the task list.
pub open spec fn spec_bind(ts: Seq<TaskView>, id: u64, context: Seq<char>, access: TaskAccess) -> Result<Seq<TaskView>, Refusal> {
    if !has_id(ts, id) {
        Err(Refusal::Plain(TaskErrorView::NotFound(id)))
    } else {
        let t = task_of(ts, id);
        match context_denial(t, access) {
            Some(e) => Err(Refusal::Plain(e)),
            None => if t.execution_context_id is Some && t.execution_context_id->0 != context {
                Err(Refusal::Plain(TaskErrorView::AlreadyBound { id, existing: t.execution_context_id->0 }))
            } else if t.blocked_by != Set::<u64>::empty() {
                Err(Refusal::BlockedBind { id, blockers: t.blocked_by })
            } else {
                let t1 = map_task(ts, id, set_context(Some(context)));
                if t.status == TaskStatus::Pending {
                    Ok(normalize(with_status(t1, id, TaskStatus::InProgress)))
                } else {
                    Ok(t1)
                }
            },
        }
    }
}

/// What clearing an execution context does to the task list.
pub open spec fn spec_clear(
    ts: Seq<TaskView>,
    id: u64,
    expected: Option<&str>,
    complete_task: bool,
    access: TaskAccess,
) -> Result<Seq<TaskView>, Refusal> {
    if !has_id(ts, id) {
        Err(Refusal::Plain(TaskErrorView::NotFound(id)))
    } else {
        let t = task_of(ts, id);
        match context_denial(t, access) {
            Some(e) => Err(Refusal::Plain(e)),
            None => if expected is Some && t.execution_context_id != Some(expected->0@) {
                Err(Refusal::Plain(TaskErrorView::NotBound { id, expected: expected->0@ }))
            } else {
                let t1 = map_task(ts, id, set_context(None));
                if complete_task {
                    Ok(normalize(with_status(t1, id, TaskStatus::Completed)))
                } else {
                    Ok(t1)
                }
            },
        }
    }
}

/// Editing the task at position `i` is editing the task with its id.
proof fn lemma_map_task_at(ts: Seq<TaskView>, i: int, f: spec_fn(TaskView) -> TaskView)
    requires
        ids_unique(ts),
        0 <= i < ts.len(),
    ensures
        map_task(ts, ts[i].id, f) == ts.update(i, f(ts[i])),
{
    assert(map_task(ts, ts[i].id, f) =~= ts.update(i, f(ts[i])));
}

/// Edge edits leave every task's id, status and text fields where they were.
pub proof fn lemma_edges_keep_fields(ts: Seq<TaskView>, ops: Seq<EdgeOp>)
    requires
        spec_apply_edges(ts, ops) is Ok,
    ensures
        spec_apply_edges(ts, ops)->Ok_0.len() == ts.len(),
        forall|i: int|
            0 <= i < ts.len() ==> #[trigger] same_text_fields(spec_apply_edges(ts, ops)->Ok_0[i], ts[i]),
    decreases ops.len(),
{
    if ops.len() > 0 {
        lemma_edges_keep_fields(ts, ops.drop_last());
        let prev = spec_apply_edges(ts, ops.drop_last())->Ok_0;
        let cur = spec_apply_edges(ts, ops)->Ok_0;
        lemma_edge_keeps_fields(prev, ops.last());
        assert forall|i: int| 0 <= i < ts.len() implies #[trigger] same_text_fields(cur[i], ts[i]) by {
            assert(same_text_fields(prev[i], ts[i]));
            assert(same_text_fields(cur[i], prev[i]));
        }
    }
}

proof fn lemma_edge_keeps_fields(ts: Seq<TaskView>, op: EdgeOp)
    requires
        spec_apply_edge(ts, op) is Ok,
    ensures
        spec_apply_edge(ts, op)->Ok_0.len() == ts.len(),
        forall|i: int| 0 <= i < ts.len() ==> #[trigger] same_text_fields(spec_apply_edge(ts, op)->Ok_0[i], ts[i]),
{
    let cur = spec_apply_edge(ts, op)->Ok_0;
    let (b, s2) = match op {
        EdgeOp::Add { blocker, dependent } => (blocker, task_of(ts, blocker).blocks.insert(dependent)),
        EdgeOp::Remove { blocker, dependent } => (blocker, task_of(ts, blocker).blocks.remove(dependent)),
    };
    assert(cur == normalize(with_blocks(ts, b, s2)));
}

/// Two views that agree on everything but the dependency sets.
pub open spec fn same_text_fields(a: TaskView, b: TaskView) -> bool {
    &&& a.id == b.id
    &&& a.status == b.status
    &&& a.subject == b.subject
    &&& a.description == b.description
    &&& a.owner == b.owner
    &&& a.execution_context_id == b.execution_context_id
}

/// Appends the edits `edge_for(o, id, add, id_blocks)` for each `o` in `others`.
fn push_edges(ops: &mut Vec<EdgeOp>, others: &Vec<u64>, id: u64, add: bool, id_blocks: bool)
    ensures
        final(ops)@ == old(ops)@ + edges_for(others@, id, add, id_blocks),
{
    let ghost start = ops@;
    let mut i: usize = 0;
    while i < others.len()
        invariant
            i <= others@.len(),
            ops@ == start + edges_for(others@.take(i as int), id, add, id_blocks),
        decreases others.len() - i,
    {
        let o = others[i];
        let op = if id_blocks {
            if add {
                EdgeOp::Add { blocker: id, dependent: o }
            } else {
                EdgeOp::Remove { blocker: id, dependent: o }
            }
        } else {
            if add {
                EdgeOp::Add { blocker: o, dependent: id }
            } else {
                EdgeOp::Remove { blocker: o, dependent: id }
            }
        };
        ops.push(op);
        proof {
            assert(others@.take(i as int + 1) =~= others@.take(i as int).push(o));
            assert(edges_for(others@.take(i as int + 1), id, add, id_blocks) =~= edges_for(
                others@.take(i as int),
                id,
                add,
                id_blocks,
            ).push(op));
        }
        i += 1;
    }
    assert(others@.take(others@.len() as int) =~= others@);
}

/// The refusal to claim a given task, if any.
pub open spec fn claim_refusal(t: TaskView, name: Seq<char>) -> Option<Refusal> {
    if t.owner.len() > 0 {
        Some(Refusal::Plain(TaskErrorView::AlreadyOwned { id: t.id, owner: t.owner }))
    } else if t.blocked_by != Set::<u64>::empty() {
        Some(Refusal::BlockedClaim { id: t.id, blockers: t.blocked_by })
    } else if t.status != TaskStatus::Pending {
        Some(Refusal::Plain(TaskErrorView::NotPendingClaim { id: t.id, status: t.status, claimant: name }))
    } else {
        None
    }
}

fn validate_claimable(t: &TaskItem, name: &String) -> (r: Result<(), TaskError>)
    requires
        item_wf(*t),
    ensures
        match claim_refusal(t@, name@) {
            None => r is Ok,
            Some(rf) => r matches Err(e) && refused_as(e@, rf),
        },
{
    if !t.owner.as_str().is_empty() {
        return Err(TaskError::AlreadyOwned { id: t.id, owner: t.owner.clone() });
    }
    if t.blocked_by.len() > 0 {
        proof {
            assert(t.blocked_by@.to_set().contains(t.blocked_by@[0]));
        }
        return Err(TaskError::BlockedClaim { id: t.id, blocked_by: copy_ids(&t.blocked_by) });
    }
    proof {
        assert(t.blocked_by@.to_set() =~= Set::<u64>::empty());
    }
    if t.status != TaskStatus::Pending {
        return Err(TaskError::NotPendingClaim { id: t.id, status: t.status, claimant: name.clone() });
    }
    Ok(())
}

/// A teammate's refusal to update task `t` as `input` asks.
fn validate_update_access(t: &TaskItem, input: &TaskUpdateInput, access: TaskAccess) -> (r: Result<(), TaskError>)
    ensures
        match update_denial(t@, *input, access) {
            None => r is Ok,
            Some(e) => r matches Err(err) && err@ == e,
        },
{
    match access {
        TaskAccess::Lead => Ok(()),
        TaskAccess::Teammate(name) => {
            if str_eq(t.owner.as_str(), name) {
                if input.add_blocked_by.len() > 0 || input.remove_blocked_by.len() > 0 || input.add_blocks.len() > 0
                    || input.remove_blocks.len() > 0 {
                    return Err(TaskError::DependencyEditDenied { teammate: name.to_owned(), id: t.id });
                }
                match &input.owner {
                    Some(o) => {
                        if !str_eq(o.as_str(), name) {
                            return Err(
                                TaskError::ReassignDenied { teammate: name.to_owned(), id: t.id, owner: o.clone() },
                            );
                        }
                        Ok(())
                    },
                    None => Ok(()),
                }
            } else {
                Err(TaskError::UpdateDenied { teammate: name.to_owned(), id: t.id, owner: t.owner.clone() })
            }
        },
    }
}

/// The edge edits of `task_update`.
fn update_ops_vec(input: &TaskUpdateInput) -> (r: Vec<EdgeOp>)
    ensures
        r@ == update_ops(*input),
{
    let mut ops: Vec<EdgeOp> = Vec::new();
    push_edges(&mut ops, &input.add_blocked_by, input.task_id, true, false);
    push_edges(&mut ops, &input.remove_blocked_by, input.task_id, false, false);
    push_edges(&mut ops, &input.add_blocks, input.task_id, true, true);
    push_edges(&mut ops, &input.remove_blocks, input.task_id, false, true);
    assert(ops@ =~= update_ops(*input));
    ops
}

/// Sets the subject (trimmed), description and owner of the task at position `i`, where given.
fn edit_fields(
    store: &mut TaskStore,
    i: usize,
    subject: Option<String>,
    description: Option<String>,
    owner: Option<String>,
)
    requires
        old(store).wf(),
        i < old(store)@.len(),
    ensures
        final(store).wf(),
        final(store)@ == old(store)@.update(
            i as int,
            TaskView {
                subject: match subject {
                    Some(s) => trimmed(s@),
                    None => old(store)@[i as int].subject,
                },
                description: opt_or(opt_view(description), old(store)@[i as int].description),
                owner: opt_or(opt_view(owner), old(store)@[i as int].owner),
                ..old(store)@[i as int]
            },
        ),
{
    let listed = store.tasks();
    let mut item = listed[i].duplicate();
    proof {
        assert(item_wf(listed@[i as int]));
    }
    match subject {
        Some(s) => {
            item.subject = trim_text(s.as_str());
        },
        None => {},
    }
    match description {
        Some(d) => {
            item.description = d;
        },
        None => {},
    }
    match owner {
        Some(o) => {
            item.owner = o;
        },
        None => {},
    }
    store.replace_fields(i, item);
}

/// A status change keeps every task's id.
proof fn lemma_status_keeps_ids(before: Seq<TaskView>, after: Seq<TaskView>)
    requires
        after == before || exists|id: u64, s: TaskStatus| after == normalize(with_status(before, id, s)),
    ensures
        after.len() == before.len(),
        forall|i: int| 0 <= i < before.len() ==> (#[trigger] after[i]).id == before[i].id,
{
}

/// A teammate's refusal to manage the execution context of task `t`.
fn validate_context_access(t: &TaskItem, access: TaskAccess) -> (r: Result<(), TaskError>)
    ensures
        match context_denial(t@, access) {
            None => r is Ok,
            Some(e) => r matches Err(err) && err@ == e,
        },
{
    match access {
        TaskAccess::Lead => Ok(()),
        TaskAccess::Teammate(name) => {
            if str_eq(t.owner.as_str(), name) {
                Ok(())
            } else {
                Err(TaskError::ContextAccessDenied { teammate: name.to_owned(), id: t.id, owner: t.owner.clone() })
            }
        },
    }
}

/// The task-list groups: ready, blocked, in progress, completed.
pub open spec fn ready_pred() -> spec_fn(TaskView) -> bool {
    |t: TaskView| t.status == TaskStatus::Pending && t.blocked_by == Set::<u64>::empty()
}

pub open spec fn blocked_pred() -> spec_fn(TaskView) -> bool {
    |t: TaskView| t.status == TaskStatus::Pending && t.blocked_by != Set::<u64>::empty()
}

pub open spec fn in_progress_pred() -> spec_fn(TaskView) -> bool {
    |t: TaskView| t.status == TaskStatus::InProgress
}

pub open spec fn completed_pred() -> spec_fn(TaskView) -> bool {
    |t: TaskView| t.status == TaskStatus::Completed
}

/// Position of the first task that is pending, unblocked and unowned.
fn first_claimable_index(listed: &Vec<TaskItem>) -> (r: Option<usize>)
    requires
        forall|k: int| 0 <= k < listed@.len() ==> #[trigger] item_wf(listed@[k]),
    ensures
        match r {
            Some(f) => f < listed@.len() && f == first_claimable(views(listed@)) && claimable(views(listed@)[f as int]),
            None => !exists|i: int| 0 <= i < listed@.len() && #[trigger] claimable(views(listed@)[i]),
        },
{
    let ghost ts = views(listed@);
    let mut k: usize = 0;
    while k < listed.len()
        invariant
            k <= listed@.len(),
            ts == views(listed@),
            forall|q: int| 0 <= q < listed@.len() ==> #[trigger] item_wf(listed@[q]),
            forall|j: int| 0 <= j < k ==> !#[trigger] claimable(ts[j]),
        decreases listed.len() - k,
    {
        let t = &listed[k];
        proof {
            assert(item_wf(listed@[k as int]));
            if t.blocked_by@.len() > 0 {
                assert(t.blocked_by@.to_set().contains(t.blocked_by@[0]));
            } else {
                assert(t.blocked_by@.to_set() =~= Set::<u64>::empty());
            }
        }
        if t.status == TaskStatus::Pending && t.blocked_by.len() == 0 && t.owner.as_str().is_empty() {
            proof {
                let c = first_claimable(ts);
                assert(claimable(ts[k as int]));
                if c < k {
                    assert(!claimable(ts[c]));
                } else if k < c {
                    assert(!claimable(ts[k as int]));
                }
            }
            return Some(k);
        }
        k += 1;
    }
    None
}

impl TaskStore {
    /// `task_create`: appends a pending task with the next id (one above the highest),
    /// trimmed subject, and the given blockers; all or nothing.
    pub fn create(&mut self, input: TaskCreateInput) -> (r: Result<TaskItem, TaskError>)
        requires
            old(self).wf(),
            old(self)@.len() == 0 || old(self)@.last().id < u64::MAX,
        ensures
            final(self).wf(),
            match spec_create(old(self)@, input) {
                Ok(ts) => r matches Ok(item) && final(self)@ == ts && item.id == next_id(old(self)@)
                    && item@ == task_of(ts, item.id) && item_wf(item),
                Err(e) => r matches Err(err) && err@ == e && final(self)@ == old(self)@,
            },
    {
        let ghost ts0 = self@;
        let n = self.tasks().len();
        let id: u64 = if n == 0 {
            1
        } else {
            self.tasks()[n - 1].id + 1
        };
        let TaskCreateInput { subject, description, owner, blocked_by } = input;
        let item = TaskItem {
            id,
            subject: trim_text(subject.as_str()),
            description,
            status: TaskStatus::Pending,
            blocked_by: Vec::new(),
            blocks: Vec::new(),
            owner,
            execution_context_id: None,
        };
        let mut work = self.duplicate();
        work.push_task(item);
        proof {
            assert(item@.blocks =~= Set::<u64>::empty());
            assert(item@.blocked_by =~= Set::<u64>::empty());
            assert(item@ == created_view(input, id));
        }
        let ghost pushed = work@;
        let mut ops: Vec<EdgeOp> = Vec::new();
        push_edges(&mut ops, &blocked_by, id, true, false);
        assert(ops@ =~= blocker_ops(input.blocked_by@, id));
        match work.apply_edges(&ops) {
            Ok(()) => {},
            Err(e) => {
                return Err(e);
            },
        }
        proof {
            lemma_edges_keep_fields(pushed, ops@);
            assert(same_text_fields(work@[n as int], pushed[n as int]));
            work.lemma_wf();
        }
        let listed = work.tasks();
        match index_of(listed, id) {
            Some(i) => {
                proof {
                    lemma_task_of(work@, i as int);
                    assert(item_wf(listed@[i as int]));
                }
                let created = listed[i].duplicate();
                *self = work;
                Ok(created)
            },
            None => {
                proof {
                    assert(work@[n as int].id == id);
                    assert(listed@[n as int].id == id);
                }
                Err(TaskError::NotFound(id))
            },
        }
    }

    /// Position of the task that the claimant `name` may take, or the refusal.
    fn claim_index(&self, task_id: Option<u64>, name: &String) -> (r: Result<usize, TaskError>)
        requires
            self.wf(),
        ensures
            match r {
                Ok(i) => i < self@.len() && claim_target(self@, task_id) == self@[i as int].id
                    && claim_as(self@, task_id, name@) == Ok::<Seq<TaskView>, Refusal>(
                    self@.update(i as int, set_owner(name@)(self@[i as int])),
                ),
                Err(e) => claim_as(self@, task_id, name@) matches Err(rf) && refused_as(e@, rf),
            },
    {
        let listed = self.tasks();
        proof {
            self.lemma_ids();
        }
        match task_id {
            Some(id) => {
                let i = match index_of(listed, id) {
                    Some(i) => i,
                    None => {
                        return Err(TaskError::NotFound(id));
                    },
                };
                proof {
                    lemma_task_of(self@, i as int);
                }
                match validate_claimable(&listed[i], name) {
                    Ok(()) => {
                        proof {
                            lemma_map_task_at(self@, i as int, set_owner(name@));
                        }
                        Ok(i)
                    },
                    Err(e) => Err(e),
                }
            },
            None => match first_claimable_index(listed) {
                Some(f) => {
                    proof {
                        lemma_map_task_at(self@, f as int, set_owner(name@));
                    }
                    Ok(f)
                },
                None => Err(TaskError::NothingToClaim),
            },
        }
    }

    /// `task_claim`: the named claimant takes task `task_id`, or, without an id, the first
    /// pending, unblocked and unowned task.
    pub fn claim(&mut self, task_id: Option<u64>, owner: Option<&str>) -> (r: Result<TaskItem, TaskError>)
        requires
            old(self).wf(),
        ensures
            final(self).wf(),
            match spec_claim(old(self)@, task_id, owner) {
                Ok(ts) => r matches Ok(item) && final(self)@ == ts && item.id == claim_target(old(self)@, task_id)
                    && item@ == task_of(ts, item.id) && item_wf(item),
                Err(rf) => r matches Err(e) && refused_as(e@, rf) && final(self)@ == old(self)@,
            },
    {
        let ghost ts = self@;
        let name = match owner {
            Some(o) => {
                let t = trim_text(o);
                if t.as_str().is_empty() {
                    return Err(TaskError::UnnamedClaimant);
                }
                t
            },
            None => {
                return Err(TaskError::UnnamedClaimant);
            },
        };
        assert(claimant(owner) == Some(name@));
        let i = match self.claim_index(task_id, &name) {
            Ok(i) => i,
            Err(e) => {
                return Err(e);
            },
        };
        let listed = self.tasks();
        let mut item = listed[i].duplicate();
        let ghost before = item@;
        proof {
            assert(item_wf(listed@[i as int]));
        }
        item.owner = name;
        let ghost after = item@;
        proof {
            assert(before == ts[i as int]);
            assert(after == set_owner(name@)(ts[i as int]));
            assert(same_graph_fields(after, ts[i as int]));
        }
        self.replace_fields(i, item);
        proof {
            self.lemma_ids();
            assert(self@ == ts.update(i as int, after));
            lemma_task_of(self@, i as int);
        }
        let now_listed = self.tasks();
        let claimed = now_listed[i].duplicate();
        proof {
            assert(claimed@ == after);
            assert(item_wf(now_listed@[i as int]));
        }
        Ok(claimed)
    }

    /// The tasks with the given ids, in the same order.
    fn items_for(&self, ids: &Vec<u64>) -> (r: Vec<TaskItem>)
        requires
            self.wf(),
            forall|k: int| 0 <= k < ids@.len() ==> has_id(self@, #[trigger] ids@[k]),
        ensures
            item_ids(r@) == ids@,
            forall|k: int| 0 <= k < r@.len() ==> (#[trigger] r@[k])@ == task_of(self@, r@[k].id),
            forall|k: int| 0 <= k < r@.len() ==> item_wf(#[trigger] r@[k]),
    {
        proof {
            self.lemma_ids();
        }
        let listed = self.tasks();
        let mut r: Vec<TaskItem> = Vec::new();
        let mut k: usize = 0;
        while k < ids.len()
            invariant
                k <= ids@.len(),
                self.wf(),
                ids_unique(self@),
                views(listed@) == self@,
                forall|q: int| 0 <= q < ids@.len() ==> has_id(self@, #[trigger] ids@[q]),
                item_ids(r@) == ids@.take(k as int),
                forall|q: int| 0 <= q < r@.len() ==> (#[trigger] r@[q])@ == task_of(self@, r@[q].id),
                forall|q: int| 0 <= q < r@.len() ==> item_wf(#[trigger] r@[q]),
                forall|q: int| 0 <= q < listed@.len() ==> item_wf(#[trigger] listed@[q]),
            decreases ids.len() - k,
        {
            let id = ids[k];
            let j = match index_of(listed, id) {
                Some(j) => j,
                None => {
                    proof {
                        assert(has_id(self@, ids@[k as int]));
                        let q = choose|q: int| 0 <= q < self@.len() && self@[q].id == id;
                        assert(listed@[q].id == id);
                    }
                    k += 1;
                    continue;
                },
            };
            proof {
                lemma_task_of(self@, j as int);
                assert(item_wf(listed@[j as int]));
            }
            r.push(listed[j].duplicate());
            proof {
                assert(ids@.take(k as int + 1) =~= ids@.take(k as int).push(id));
                assert(item_ids(r@) =~= item_ids(r@.drop_last()).push(id));
            }
            k += 1;
        }
        assert(ids@.take(ids@.len() as int) =~= ids@);
        r
    }

    /// The refusal to leave task `id` started or completed while it has unresolved blockers.
    fn validate_unblocked_status(&self, id: u64) -> (r: Result<(), TaskError>)
        requires
            self.wf(),
            has_id(self@, id),
        ensures
            match spec_check_unblocked(self@, id) {
                Ok(_) => r is Ok,
                Err(rf) => r matches Err(e) && refused_as(e@, rf),
            },
    {
        proof {
            self.lemma_ids();
        }
        let listed = self.tasks();
        let j = match index_of(listed, id) {
            Some(j) => j,
            None => {
                proof {
                    let q = choose|q: int| 0 <= q < self@.len() && self@[q].id == id;
                    assert(listed@[q].id == id);
                }
                return Ok(());
            },
        };
        proof {
            lemma_task_of(self@, j as int);
            assert(item_wf(listed@[j as int]));
        }
        let t = &listed[j];
        if t.status != TaskStatus::Pending && t.blocked_by.len() > 0 {
            proof {
                assert(t.blocked_by@.to_set().contains(t.blocked_by@[0]));
            }
            return Err(TaskError::BlockedStatus { id, status: t.status, blocked_by: copy_ids(&t.blocked_by) });
        }
        proof {
            if t.blocked_by@.len() == 0 {
                assert(t.blocked_by@.to_set() =~= Set::<u64>::empty());
            }
        }
        Ok(())
    }

    /// `task_update`: edits the fields of task `input.task_id`, then its dependency edges,
    /// then its status; all or nothing.
    pub fn update(&mut self, input: TaskUpdateInput, access: TaskAccess) -> (r: Result<TaskUpdateOutput, TaskError>)
        requires
            old(self).wf(),
        ensures
            final(self).wf(),
            match spec_update(old(self)@, input, access) {
                Ok(ts) => r matches Ok(out) && final(self)@ == ts && update_output(old(self)@, input, ts, out)
                    && item_wf(out.task) && (forall|k: int| 0 <= k < out.unblocked@.len() ==> item_wf(
                    #[trigger] out.unblocked@[k],
                )) && (forall|k: int| 0 <= k < out.reblocked@.len() ==> item_wf(#[trigger] out.reblocked@[k])),
                Err(rf) => r matches Err(e) && refused_as(e@, rf) && final(self)@ == old(self)@,
            },
    {
        let ghost ts0 = self@;
        let id = input.task_id;
        proof {
            self.lemma_ids();
        }
        let i = match index_of(self.tasks(), id) {
            Some(i) => i,
            None => {
                return Err(TaskError::NotFound(id));
            },
        };
        proof {
            lemma_task_of(ts0, i as int);
        }
        match validate_update_access(&self.tasks()[i], &input, access) {
            Ok(()) => {},
            Err(e) => {
                return Err(e);
            },
        }
        let ops = update_ops_vec(&input);
        let ghost inp = input;
        let TaskUpdateInput { task_id, subject, description, owner, status, .. } = input;
        let mut work = self.duplicate();
        edit_fields(&mut work, i, subject, description, owner);
        let ghost pre = work@;
        proof {
            lemma_map_task_at(ts0, i as int, set_update_fields(inp));
            assert(pre[i as int] == set_update_fields(inp)(ts0[i as int]));
            assert(pre =~= ts0.update(i as int, set_update_fields(inp)(ts0[i as int])));
        }
        match work.apply_edges(&ops) {
            Ok(()) => {},
            Err(e) => {
                return Err(e);
            },
        }
        let ghost edited = work@;
        proof {
            lemma_edges_keep_fields(pre, ops@);
            assert(same_text_fields(edited[i as int], pre[i as int]));
            assert(edited[i as int].id == id);
            assert(has_id(edited, id));
        }
        let (unblocked_ids, reblocked_ids) = match status {
            Some(s) => match work.apply_status(id, s, true) {
                Ok(ch) => {
                    proof {
                        assert(forall|d: u64| ch.unblocked@.contains(d) ==> has_id(edited, d));
                        assert(forall|d: u64| ch.reblocked@.contains(d) ==> has_id(edited, d));
                    }
                    (ch.unblocked, ch.reblocked)
                },
                Err(e) => {
                    return Err(e);
                },
            },
            None => {
                match work.validate_unblocked_status(id) {
                    Ok(()) => {},
                    Err(e) => {
                        return Err(e);
                    },
                }
                (Vec::new(), Vec::new())
            },
        };
        proof {
            work.lemma_ids();
            lemma_status_keeps_ids(edited, work@);
            assert(work@[i as int].id == id);
            assert(has_id(work@, id));
            assert forall|k: int| 0 <= k < unblocked_ids@.len() implies has_id(work@, #[trigger] unblocked_ids@[k]) by {
                let d = unblocked_ids@[k];
                assert(unblocked_ids@.contains(d));
                let q = choose|q: int| 0 <= q < edited.len() && edited[q].id == d;
                assert(work@[q].id == d);
            }
            assert forall|k: int| 0 <= k < reblocked_ids@.len() implies has_id(work@, #[trigger] reblocked_ids@[k]) by {
                let d = reblocked_ids@[k];
                assert(reblocked_ids@.contains(d));
                let q = choose|q: int| 0 <= q < edited.len() && edited[q].id == d;
                assert(work@[q].id == d);
            }
        }
        let task = match work.get_task(id) {
            Ok(t) => t,
            Err(e) => {
                return Err(e);
            },
        };
        let unblocked = work.items_for(&unblocked_ids);
        let reblocked = work.items_for(&reblocked_ids);
        *self = work;
        Ok(TaskUpdateOutput { task, unblocked, reblocked })
    }

    /// Binds task `task_id` to the execution context `context_id`; a pending task is started.
    pub fn bind_execution_context(&mut self, task_id: u64, context_id: &str, access: TaskAccess) -> (r: Result<
        TaskItem,
        TaskError,
    >)
        requires
            old(self).wf(),
        ensures
            final(self).wf(),
            match spec_bind(old(self)@, task_id, context_id@, access) {
                Ok(ts) => r matches Ok(item) && final(self)@ == ts && item@ == task_of(ts, task_id) && item_wf(item),
                Err(rf) => r matches Err(e) && refused_as(e@, rf) && final(self)@ == old(self)@,
            },
    {
        let ghost ts0 = self@;
        proof {
            self.lemma_ids();
        }
        let listed = self.tasks();
        let i = match index_of(listed, task_id) {
            Some(i) => i,
            None => {
                return Err(TaskError::NotFound(task_id));
            },
        };
        proof {
            lemma_task_of(ts0, i as int);
            assert(item_wf(listed@[i as int]));
        }
        let t = &listed[i];
        match validate_context_access(t, access) {
            Ok(()) => {},
            Err(e) => {
                return Err(e);
            },
        }
        match &t.execution_context_id {
            Some(existing) => {
                if !str_eq(existing.as_str(), context_id) {
                    return Err(TaskError::AlreadyBound { id: task_id, existing: existing.clone() });
                }
            },
            None => {},
        }
        if t.blocked_by.len() > 0 {
            proof {
                assert(t.blocked_by@.to_set().contains(t.blocked_by@[0]));
            }
            return Err(TaskError::BlockedBind { id: task_id, blocked_by: copy_ids(&t.blocked_by) });
        }
        proof {
            assert(t.blocked_by@.to_set() =~= Set::<u64>::empty());
        }
        let pending = t.status == TaskStatus::Pending;
        let mut item = t.duplicate();
        item.execution_context_id = Some(context_id.to_owned());
        proof {
            lemma_map_task_at(ts0, i as int, set_context(Some(context_id@)));
            assert(item@ == set_context(Some(context_id@))(ts0[i as int]));
        }
        self.replace_fields(i, item);
        if pending {
            let _ = self.apply_status(task_id, TaskStatus::InProgress, false);
        }
        proof {
            self.lemma_ids();
            lemma_status_keeps_ids(ts0.update(i as int, set_context(Some(context_id@))(ts0[i as int])), self@);
            assert(self@[i as int].id == task_id);
        }
        self.get_task(task_id)
    }

    /// Unbinds task `task_id` from its execution context (which must be `expected_context_id`,
    /// when given), and completes it when `complete_task` is set.
    pub fn clear_execution_context(
        &mut self,
        task_id: u64,
        expected_context_id: Option<&str>,
        complete_task: bool,
        access: TaskAccess,
    ) -> (r: Result<TaskItem, TaskError>)
        requires
            old(self).wf(),
        ensures
            final(self).wf(),
            match spec_clear(old(self)@, task_id, expected_context_id, complete_task, access) {
                Ok(ts) => r matches Ok(item) && final(self)@ == ts && item@ == task_of(ts, task_id) && item_wf(item),
                Err(rf) => r matches Err(e) && refused_as(e@, rf) && final(self)@ == old(self)@,
            },
    {
        let ghost ts0 = self@;
        proof {
            self.lemma_ids();
        }
        let listed = self.tasks();
        let i = match index_of(listed, task_id) {
            Some(i) => i,
            None => {
                return Err(TaskError::NotFound(task_id));
            },
        };
        proof {
            lemma_task_of(ts0, i as int);
            assert(item_wf(listed@[i as int]));
        }
        let t = &listed[i];
        match validate_context_access(t, access) {
            Ok(()) => {},
            Err(e) => {
                return Err(e);
            },
        }
        match expected_context_id {
            Some(expected) => {
                let bound = match &t.execution_context_id {
                    Some(c) => str_eq(c.as_str(), expected),
                    None => false,
                };
                if !bound {
                    return Err(TaskError::NotBound { id: task_id, expected: expected.to_owned() });
                }
            },
            None => {},
        }
        let mut item = t.duplicate();
        item.execution_context_id = None;
        proof {
            lemma_map_task_at(ts0, i as int, set_context(None));
            assert(item@ == set_context(None)(ts0[i as int]));
        }
        self.replace_fields(i, item);
        if complete_task {
            let _ = self.apply_status(task_id, TaskStatus::Completed, false);
        }
        proof {
            self.lemma_ids();
            lemma_status_keeps_ids(ts0.update(i as int, set_context(None)(ts0[i as int])), self@);
            assert(self@[i as int].id == task_id);
        }
        self.get_task(task_id)
    }

    /// `task_list`: all tasks, and the same tasks grouped by readiness, each in id order.
    pub fn list(&self) -> (r: TaskListOutput)
        requires
            self.wf(),
        ensures
            views(r.tasks@) == self@,
            views(r.ready@) == self@.filter(ready_pred()),
            views(r.blocked@) == self@.filter(blocked_pred()),
            views(r.in_progress@) == self@.filter(in_progress_pred()),
            views(r.completed@) == self@.filter(completed_pred()),
    {
        let listed = self.tasks();
        let ghost ts = self@;
        let mut tasks: Vec<TaskItem> = Vec::new();
        let mut ready: Vec<TaskItem> = Vec::new();
        let mut blocked: Vec<TaskItem> = Vec::new();
        let mut in_progress: Vec<TaskItem> = Vec::new();
        let mut completed: Vec<TaskItem> = Vec::new();
        let mut k: usize = 0;
        while k < listed.len()
            invariant
                k <= listed@.len(),
                ts == views(listed@),
                views(tasks@) == ts.take(k as int),
                views(ready@) == ts.take(k as int).filter(ready_pred()),
                views(blocked@) == ts.take(k as int).filter(blocked_pred()),
                views(in_progress@) == ts.take(k as int).filter(in_progress_pred()),
                views(completed@) == ts.take(k as int).filter(completed_pred()),
            decreases listed.len() - k,
        {
            let t = &listed[k];
            let ghost tv = ts[k as int];
            proof {
                reveal(Seq::filter);
                assert(ts.take(k as int + 1).drop_last() =~= ts.take(k as int));
                assert(ts.take(k as int + 1).last() == tv);
                if t.blocked_by@.len() > 0 {
                    assert(t.blocked_by@.to_set().contains(t.blocked_by@[0]));
                } else {
                    assert(t.blocked_by@.to_set() =~= Set::<u64>::empty());
                }
            }
            tasks.push(t.duplicate());
            match t.status {
                TaskStatus::Pending => {
                    if t.blocked_by.len() == 0 {
                        ready.push(t.duplicate());
                    } else {
                        blocked.push(t.duplicate());
                    }
                },
                TaskStatus::InProgress => {
                    in_progress.push(t.duplicate());
                },
                TaskStatus::Completed => {
                    completed.push(t.duplicate());
                },
            }
            proof {
                assert(views(tasks@) =~= ts.take(k as int + 1));
                assert(views(ready@) =~= ts.take(k as int + 1).filter(ready_pred()));
                assert(views(blocked@) =~= ts.take(k as int + 1).filter(blocked_pred()));
                assert(views(in_progress@) =~= ts.take(k as int + 1).filter(in_progress_pred()));
                assert(views(completed@) =~= ts.take(k as int + 1).filter(completed_pred()));
            }
            k += 1;
        }
        assert(ts.take(listed@.len() as int) =~= ts);
        TaskListOutput { tasks, ready, blocked, in_progress, completed }
    }

    /// The task with id `task_id`.
    pub fn get_task(&self, task_id: u64) -> (r: Result<TaskItem, TaskError>)
        requires
            self.wf(),
        ensures
            has_id(self@, task_id) ==> (r matches Ok(item) && item@ == task_of(self@, task_id) && item_wf(item)),
            !has_id(self@, task_id) ==> (r matches Err(e) && e@ == TaskErrorView::NotFound(task_id)),
    {
        proof {
            self.lemma_ids();
        }
        let listed = self.tasks();
        match index_of(listed, task_id) {
            Some(i) => {
                proof {
                    lemma_task_of(self@, i as int);
                    assert(item_wf(listed@[i as int]));
                }
                Ok(listed[i].duplicate())
            },
            None => Err(TaskError::NotFound(task_id)),
        }
    }
}

} // verus!
