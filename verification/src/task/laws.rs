//! What holds of the task list across operations.
use vstd::prelude::*;

use super::error::TaskErrorView;
use super::ops::{
    blocked_pred, claim_refusal, claim_target, claimable, claimant, map_task, set_owner, spec_claim, completed_pred, first_claimable, in_progress_pred, lemma_edges_keep_fields,
    next_id, ready_pred, same_text_fields, spec_bind, spec_clear, spec_create, spec_update, update_denial,
    updates_dependencies, Refusal, TaskAccess, TaskUpdateInput,
};
use super::load::{loadable, loaded_from};
use super::reach::{dep_edge, has_id, task_edge};
use super::store::{
    derived_blocked_by, graph_wf, ids_ascending, lemma_ascending_unique, lemma_status_effect, lemma_task_of, normalize,
    task_of, unresolved_blocker, with_status,
};
use super::types::{TaskStatus, TaskView};

verus! {

/// Completing a task removes it from the unresolved blockers of every task it blocks, and of
/// no other task.
pub proof fn law_completion_releases_dependents(ts: Seq<TaskView>, x: u64, d: u64)
    requires
        graph_wf(ts),
        has_id(ts, x),
        has_id(ts, d),
    ensures
        task_of(normalize(with_status(ts, x, TaskStatus::Completed)), d).blocked_by == if task_of(ts, x).blocks.contains(d) {
            task_of(ts, d).blocked_by.remove(x)
        } else {
            task_of(ts, d).blocked_by
        },
{
    lemma_ascending_unique(ts);
    let xi = choose|i: int| 0 <= i < ts.len() && ts[i].id == x;
    let di = choose|i: int| 0 <= i < ts.len() && ts[i].id == d;
    lemma_task_of(ts, xi);
    lemma_task_of(ts, di);
    lemma_status_effect(ts, xi, TaskStatus::Completed, di);
    let after = normalize(with_status(ts, x, TaskStatus::Completed));
    assert(after[di].id == d);
    lemma_ids_kept(ts, after, x, TaskStatus::Completed);
    lemma_task_of(after, di);
}

/// Reopening a completed task (giving it any other status) makes it an unresolved blocker
/// again of every task it blocks, and of no other task.
pub proof fn law_reopen_reblocks_dependents(ts: Seq<TaskView>, x: u64, s: TaskStatus, d: u64)
    requires
        graph_wf(ts),
        has_id(ts, x),
        has_id(ts, d),
        s != TaskStatus::Completed,
    ensures
        task_of(normalize(with_status(ts, x, s)), d).blocked_by == if task_of(ts, x).blocks.contains(d) {
            task_of(ts, d).blocked_by.insert(x)
        } else {
            task_of(ts, d).blocked_by
        },
{
    lemma_ascending_unique(ts);
    let xi = choose|i: int| 0 <= i < ts.len() && ts[i].id == x;
    let di = choose|i: int| 0 <= i < ts.len() && ts[i].id == d;
    lemma_task_of(ts, xi);
    lemma_task_of(ts, di);
    lemma_status_effect(ts, xi, s, di);
    let after = normalize(with_status(ts, x, s));
    lemma_ids_kept(ts, after, x, s);
    lemma_task_of(after, di);
}

proof fn lemma_ids_kept(ts: Seq<TaskView>, after: Seq<TaskView>, x: u64, s: TaskStatus)
    requires
        graph_wf(ts),
        after == normalize(with_status(ts, x, s)),
    ensures
        after.len() == ts.len(),
        forall|i: int| 0 <= i < ts.len() ==> (#[trigger] after[i]).id == ts[i].id,
        super::reach::ids_unique(after),
{
    lemma_ascending_unique(ts);
}

/// `blocked_by` is determined by the ids, the edges and the statuses.
proof fn lemma_derived_same_graph(a: Seq<TaskView>, b: Seq<TaskView>, t: u64)
    requires
        a.len() == b.len(),
        forall|i: int|
            0 <= i < a.len() ==> (#[trigger] a[i]).id == b[i].id && a[i].blocks == b[i].blocks && a[i].status
                == b[i].status,
    ensures
        derived_blocked_by(a, t) == derived_blocked_by(b, t),
{
    assert forall|x: u64| derived_blocked_by(a, t).contains(x) <==> derived_blocked_by(b, t).contains(x) by {
        if unresolved_blocker(a, x, t) {
            let k = choose|k: int|
                0 <= k < a.len() && a[k].id == x && (#[trigger] a[k].blocks).contains(t) && a[k].status
                    != TaskStatus::Completed;
            assert(b[k].blocks.contains(t));
        }
        if unresolved_blocker(b, x, t) {
            let k = choose|k: int|
                0 <= k < b.len() && b[k].id == x && (#[trigger] b[k].blocks).contains(t) && b[k].status
                    != TaskStatus::Completed;
            assert(a[k].blocks.contains(t));
        }
    }
    assert(derived_blocked_by(a, t) =~= derived_blocked_by(b, t));
}

/// Giving a task another status and then its former status back restores the task list.
pub proof fn law_status_change_undone(ts: Seq<TaskView>, x: u64, s: TaskStatus)
    requires
        graph_wf(ts),
        has_id(ts, x),
    ensures
        normalize(with_status(normalize(with_status(ts, x, s)), x, task_of(ts, x).status)) == ts,
{
    lemma_ascending_unique(ts);
    let xi = choose|i: int| 0 <= i < ts.len() && ts[i].id == x;
    lemma_task_of(ts, xi);
    let back = with_status(normalize(with_status(ts, x, s)), x, task_of(ts, x).status);
    assert forall|i: int| 0 <= i < ts.len() implies (#[trigger] back[i]).id == ts[i].id && back[i].blocks
        == ts[i].blocks && back[i].status == ts[i].status by {
        if ts[i].id == x {
            assert(i == xi);
        }
    }
    assert forall|i: int| 0 <= i < ts.len() implies #[trigger] normalize(back)[i] == ts[i] by {
        lemma_derived_same_graph(back, ts, ts[i].id);
        assert(derived_blocked_by(ts, ts[i].id) =~= ts[i].blocked_by) by {
            assert forall|b: u64| ts[i].blocked_by.contains(b) <==> derived_blocked_by(ts, ts[i].id).contains(b) by {}
        }
        if ts[i].id == x {
            assert(i == xi);
        }
    }
    assert(normalize(back) =~= ts);
}

/// Without an id, `task_claim` takes the claimable task with the lowest id.
pub proof fn law_claim_takes_lowest_id(ts: Seq<TaskView>, i: int)
    requires
        ids_ascending(ts),
        0 <= i < ts.len(),
        claimable(ts[i]),
    ensures
        claim_target(ts, None) <= ts[i].id,
        claimable(ts[first_claimable(ts)]),
{
    lemma_first_claimable_exists(ts, i);
    let c = first_claimable(ts);
    assert(0 <= c < ts.len() && claimable(ts[c]) && forall|j: int| 0 <= j < c ==> !#[trigger] claimable(ts[j]));
    if i < c {
        assert(!claimable(ts[i]));
    } else if c < i {
        assert(ts[c].id < ts[i].id);
    }
    assert(claim_target(ts, None) == ts[c].id);
}

/// A claim is refused without a claimant name. When it succeeds, exactly one task changes: a
/// task that was claimable (pending, unblocked, unowned), the one asked for when an id is
/// given, now owned by the trimmed claimant; every other task is as it was.
pub proof fn law_claim_outcome(ts: Seq<TaskView>, task_id: Option<u64>, owner: Option<&str>)
    requires
        ids_ascending(ts),
    ensures
        claimant(owner) is None ==> spec_claim(ts, task_id, owner) is Err,
        match spec_claim(ts, task_id, owner) {
            Ok(after) => match claimant(owner) {
                Some(name) => {
                    &&& after.len() == ts.len()
                    &&& exists|k: int|
                        0 <= k < ts.len() && claimable(ts[k]) && (task_id matches Some(id) ==> ts[k].id == id) && after[k]
                            == (TaskView { owner: name, ..ts[k] }) && forall|j: int|
                            0 <= j < ts.len() && j != k ==> #[trigger] after[j] == ts[j]
                },
                None => false,
            },
            Err(_) => true,
        },
{
    if let Some(name) = claimant(owner) {
        if let Ok(after) = spec_claim(ts, task_id, owner) {
            lemma_ascending_unique(ts);
            let k = claimed_position(ts, task_id, name);
            lemma_owner_set_at(ts, k, name);
            assert(0 <= k < ts.len() && claimable(ts[k]) && (task_id matches Some(id) ==> ts[k].id == id) && after[k]
                == (TaskView { owner: name, ..ts[k] }) && forall|j: int|
                0 <= j < ts.len() && j != k ==> #[trigger] after[j] == ts[j]);
        }
    }
}

/// Where a successful claim by `name` takes its task.
proof fn claimed_position(ts: Seq<TaskView>, task_id: Option<u64>, name: Seq<char>) -> (k: int)
    requires
        super::reach::ids_unique(ts),
        super::ops::claim_as(ts, task_id, name) is Ok,
    ensures
        0 <= k < ts.len(),
        claimable(ts[k]),
        task_id matches Some(id) ==> ts[k].id == id,
        super::ops::claim_as(ts, task_id, name) == Ok::<Seq<TaskView>, Refusal>(map_task(ts, ts[k].id, set_owner(name))),
{
    match task_id {
        Some(id) => {
            let k = choose|k: int| 0 <= k < ts.len() && ts[k].id == id;
            lemma_task_of(ts, k);
            assert(claim_refusal(task_of(ts, id), name) is None);
            k
        },
        None => {
            let i = choose|i: int| 0 <= i < ts.len() && #[trigger] claimable(ts[i]);
            lemma_first_claimable_exists(ts, i);
            first_claimable(ts)
        },
    }
}

/// Giving the task at `k` the owner `name` changes that task only.
proof fn lemma_owner_set_at(ts: Seq<TaskView>, k: int, name: Seq<char>)
    requires
        super::reach::ids_unique(ts),
        0 <= k < ts.len(),
    ensures
        map_task(ts, ts[k].id, set_owner(name)).len() == ts.len(),
        map_task(ts, ts[k].id, set_owner(name))[k] == (TaskView { owner: name, ..ts[k] }),
        forall|j: int|
            0 <= j < ts.len() && j != k ==> #[trigger] map_task(ts, ts[k].id, set_owner(name))[j] == ts[j],
{
    let after = map_task(ts, ts[k].id, set_owner(name));
    assert forall|j: int| 0 <= j < ts.len() && j != k implies #[trigger] after[j] == ts[j] by {
        assert(ts[j].id != ts[k].id);
    }
}

proof fn lemma_first_claimable_exists(ts: Seq<TaskView>, i: int)
    requires
        0 <= i < ts.len(),
        claimable(ts[i]),
    ensures
        exists|k: int| 0 <= k < ts.len() && claimable(ts[k]) && forall|j: int| 0 <= j < k ==> !#[trigger] claimable(ts[j]),
    decreases i,
{
    if exists|j: int| 0 <= j < i && claimable(ts[j]) {
        let j = choose|j: int| 0 <= j < i && claimable(ts[j]);
        lemma_first_claimable_exists(ts, j);
    } else {
        assert(forall|j: int| 0 <= j < i ==> !#[trigger] claimable(ts[j]));
    }
}

/// `task_list` puts every task in exactly one of its groups: the group sizes add up to the
/// number of tasks.
pub proof fn law_list_groups_partition(ts: Seq<TaskView>)
    ensures
        ts.filter(ready_pred()).len() + ts.filter(blocked_pred()).len() + ts.filter(in_progress_pred()).len()
            + ts.filter(completed_pred()).len() == ts.len(),
    decreases ts.len(),
{
    reveal(Seq::filter);
    if ts.len() > 0 {
        law_list_groups_partition(ts.drop_last());
    }
}

/// A created task gets an id above every existing one, is appended, and leaves the other
/// tasks' ids, statuses and texts as they were.
pub proof fn law_create_appends_with_fresh_id(ts: Seq<TaskView>, input: super::ops::TaskCreateInput)
    requires
        graph_wf(ts),
        spec_create(ts, input) is Ok,
        ts.len() == 0 || ts.last().id < u64::MAX,
    ensures
        ({
            let after = spec_create(ts, input)->Ok_0;
            &&& after.len() == ts.len() + 1
            &&& after[ts.len() as int].id == next_id(ts)
            &&& forall|i: int| 0 <= i < ts.len() ==> ts[i].id < next_id(ts)
            &&& forall|i: int| 0 <= i < ts.len() ==> #[trigger] same_text_fields(after[i], ts[i])
        }),
{
    let id = next_id(ts) as u64;
    let pushed = ts.push(super::ops::created_view(input, id));
    lemma_edges_keep_fields(pushed, super::ops::blocker_ops(input.blocked_by@, id));
    let after = spec_create(ts, input)->Ok_0;
    assert(same_text_fields(after[ts.len() as int], pushed[ts.len() as int]));
    assert forall|i: int| 0 <= i < ts.len() implies #[trigger] same_text_fields(after[i], ts[i]) by {
        assert(same_text_fields(after[i], pushed[i]));
    }
    assert forall|i: int| 0 <= i < ts.len() implies ts[i].id < next_id(ts) by {
        if i < ts.len() - 1 {
            assert(ts[i].id < ts[ts.len() - 1].id);
        }
    }
}

/// A teammate may not add or remove dependency edges, even on a task it owns.
pub proof fn law_teammate_cannot_edit_dependencies(ts: Seq<TaskView>, input: TaskUpdateInput, name: &str)
    requires
        has_id(ts, input.task_id),
        task_of(ts, input.task_id).owner == name@,
        updates_dependencies(input),
    ensures
        spec_update(ts, input, TaskAccess::Teammate(name)) == Err::<Seq<TaskView>, Refusal>(
            Refusal::Plain(TaskErrorView::DependencyEditDenied { teammate: name@, id: task_of(ts, input.task_id).id }),
        ),
{
}

/// A teammate may not update a task owned by someone else.
pub proof fn law_teammate_updates_only_own_tasks(ts: Seq<TaskView>, input: TaskUpdateInput, name: &str)
    requires
        has_id(ts, input.task_id),
        task_of(ts, input.task_id).owner != name@,
    ensures
        spec_update(ts, input, TaskAccess::Teammate(name)) is Err,
        update_denial(task_of(ts, input.task_id), input, TaskAccess::Teammate(name)) is Some,
{
}

/// Binding a task to an execution context records the context on the task and starts the
/// task if it was pending; every other task keeps its context.
pub proof fn law_bind_records_context(ts: Seq<TaskView>, id: u64, context: Seq<char>, access: TaskAccess)
    requires
        graph_wf(ts),
        spec_bind(ts, id, context, access) is Ok,
    ensures
        ({
            let after = spec_bind(ts, id, context, access)->Ok_0;
            &&& task_of(after, id).execution_context_id == Some(context)
            &&& task_of(after, id).status == if task_of(ts, id).status == TaskStatus::Pending {
                TaskStatus::InProgress
            } else {
                task_of(ts, id).status
            }
            &&& after.len() == ts.len()
            &&& forall|i: int| 0 <= i < ts.len() && ts[i].id != id ==> (#[trigger] after[i]).execution_context_id
                == ts[i].execution_context_id
        }),
{
    lemma_ascending_unique(ts);
    let xi = choose|i: int| 0 <= i < ts.len() && ts[i].id == id;
    lemma_task_of(ts, xi);
    let after = spec_bind(ts, id, context, access)->Ok_0;
    assert(after.len() == ts.len());
    assert forall|i: int| 0 <= i < ts.len() implies (#[trigger] after[i]).id == ts[i].id by {}
    assert(super::reach::ids_unique(after));
    lemma_task_of(after, xi);
}

/// Clearing a task's execution context unbinds it, and completes it when asked to; every
/// other task keeps its context.
pub proof fn law_clear_unbinds_context(
    ts: Seq<TaskView>,
    id: u64,
    expected: Option<&str>,
    complete_task: bool,
    access: TaskAccess,
)
    requires
        graph_wf(ts),
        spec_clear(ts, id, expected, complete_task, access) is Ok,
    ensures
        ({
            let after = spec_clear(ts, id, expected, complete_task, access)->Ok_0;
            &&& task_of(after, id).execution_context_id is None
            &&& task_of(after, id).status == if complete_task {
                TaskStatus::Completed
            } else {
                task_of(ts, id).status
            }
            &&& after.len() == ts.len()
            &&& forall|i: int| 0 <= i < ts.len() && ts[i].id != id ==> (#[trigger] after[i]).execution_context_id
                == ts[i].execution_context_id
        }),
{
    lemma_ascending_unique(ts);
    let xi = choose|i: int| 0 <= i < ts.len() && ts[i].id == id;
    lemma_task_of(ts, xi);
    let after = spec_clear(ts, id, expected, complete_task, access)->Ok_0;
    assert(after.len() == ts.len());
    assert forall|i: int| 0 <= i < ts.len() implies (#[trigger] after[i]).id == ts[i].id by {}
    assert(super::reach::ids_unique(after));
    lemma_task_of(after, xi);
}

/// A directory with no task files loads: the task list is empty.
pub proof fn law_load_nothing()
    ensures
        loadable(Seq::<TaskView>::empty()),
        forall|ts: Seq<TaskView>| #[trigger] loaded_from(ts, Seq::<TaskView>::empty()) ==> ts.len() == 0,
{
    let none = Seq::<TaskView>::empty();
    assert forall|a: u64, b: u64| !#[trigger] task_edge(none)(a, b) by {
        assert(!dep_edge(none, a, b));
    }
}

} // verus!
