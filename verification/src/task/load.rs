//! Loading a task list: the stored tasks become a store only if their ids are distinct, every
//! task they block exists, and the dependencies have no cycle.
use vstd::prelude::*;

use super::error::{TaskError, TaskErrorView};
use super::graph::{acyclic, lemma_acyclic_sub, lemma_reaches_mono, reaches};
use super::reach::{dep_edge, has_id, ids_unique, task_edge};
use super::store::{graph_wf, ids_ascending, refs_exist, spec_add_dependency, TaskStore};
use super::types::{item_wf, views, TaskItem, TaskView};

verus! {

broadcast use vstd::seq_lib::group_to_multiset_ensures;

/// Two stored tasks share the id `x`.
pub open spec fn duplicated(src: Seq<TaskView>, x: u64) -> bool {
    exists|i: int, j: int| 0 <= i < src.len() && 0 <= j < src.len() && i != j && src[i].id == x && src[j].id == x
}

/// Why a stored task list cannot be loaded.
pub open spec fn load_refusal(e: TaskErrorView, src: Seq<TaskView>) -> bool {
    match e {
        TaskErrorView::DuplicateId(x) => duplicated(src, x),
        TaskErrorView::UnknownDependency { id, dependent } => exists|i: int|
            0 <= i < src.len() && src[i].id == id && (#[trigger] src[i].blocks).contains(dependent) && !has_id(src, dependent),
        TaskErrorView::Cycle { blocker, dependent } => dep_edge(src, blocker, dependent) && reaches(
            task_edge(src),
            dependent,
            blocker,
        ),
        _ => false,
    }
}

/// A stored task list that can be loaded.
pub open spec fn loadable(src: Seq<TaskView>) -> bool {
    ids_unique(src) && refs_exist(src) && acyclic(task_edge(src))
}

/// `ts` holds the stored tasks, each once, with their fields and dependency edges
/// (`blocked_by` is recomputed).
pub open spec fn loaded_from(ts: Seq<TaskView>, src: Seq<TaskView>) -> bool {
    &&& ts.len() == src.len()
    &&& forall|k: int| 0 <= k < src.len() ==> #[trigger] has_loaded(ts, src[k])
    &&& forall|i: int| 0 <= i < ts.len() ==> #[trigger] loaded_one_of(ts[i], src)
}

/// Some task of `ts` is `t` as loaded.
pub open spec fn has_loaded(ts: Seq<TaskView>, t: TaskView) -> bool {
    exists|i: int| 0 <= i < ts.len() && #[trigger] same_loaded(ts[i], t)
}

/// `t` is one of the stored tasks `src`, as loaded.
pub open spec fn loaded_one_of(t: TaskView, src: Seq<TaskView>) -> bool {
    exists|k: int| 0 <= k < src.len() && #[trigger] same_loaded(t, src[k])
}

/// Everything but `blocked_by` agrees.
pub open spec fn same_loaded(a: TaskView, b: TaskView) -> bool {
    &&& a.id == b.id
    &&& a.subject == b.subject
    &&& a.description == b.description
    &&& a.status == b.status
    &&& a.blocks == b.blocks
    &&& a.owner == b.owner
    &&& a.execution_context_id == b.execution_context_id
}

/// The stored tasks sorted by id; a repeated id is refused.
fn sort_by_id(items: &Vec<TaskItem>) -> (r: Result<Vec<TaskItem>, TaskError>)
    ensures
        match r {
            Ok(s) => ids_ascending(views(s@)) && views(s@).to_multiset() == views(items@).to_multiset(),
            Err(e) => e@ matches TaskErrorView::DuplicateId(x) && duplicated(views(items@), x),
        },
{
    let ghost src = views(items@);
    let mut sorted: Vec<TaskItem> = Vec::new();
    let mut i: usize = 0;
    proof {
        assert(views(sorted@) =~= src.take(0));
    }
    while i < items.len()
        invariant
            i <= items@.len(),
            src == views(items@),
            ids_ascending(views(sorted@)),
            views(sorted@).to_multiset() == src.take(i as int).to_multiset(),
        decreases items.len() - i,
    {
        let t = &items[i];
        let ghost sv = views(sorted@);
        let mut p: usize = 0;
        while p < sorted.len() && sorted[p].id < t.id
            invariant
                p <= sorted@.len(),
                sv == views(sorted@),
                forall|k: int| 0 <= k < p ==> sv[k].id < t.id,
            decreases sorted.len() - p,
        {
            p += 1;
        }
        if p < sorted.len() && sorted[p].id == t.id {
            proof {
                assert(sv.to_multiset().contains(sv[p as int]));
                assert(src.take(i as int).contains(sv[p as int]));
                let k = choose|k: int| 0 <= k < i && src.take(i as int)[k] == sv[p as int];
                assert(src[k].id == t.id);
                assert(src[i as int].id == t.id);
                assert(duplicated(src, t.id));
            }
            return Err(TaskError::DuplicateId(t.id));
        }
        let d = t.duplicate();
        sorted.insert(p, d);
        proof {
            let nv = views(sorted@);
            assert(nv =~= sv.insert(p as int, d@));
            assert(ids_ascending(nv)) by {
                assert forall|a: int, b: int| 0 <= a < b < nv.len() implies nv[a].id < nv[b].id by {
                    if b == p {
                    } else if a == p {
                        assert(nv[b] == sv[b - 1]);
                        if b - 1 > p {
                            assert(sv[p as int].id < sv[b - 1].id);
                        }
                    } else if a < p && b > p {
                        assert(nv[b] == sv[b - 1]);
                    } else if a > p {
                        assert(nv[a] == sv[a - 1] && nv[b] == sv[b - 1]);
                    }
                }
            }
            vstd::seq_lib::to_multiset_insert(sv, p as int, d@);
            assert(src.take(i as int + 1) =~= src.take(i as int).push(src[i as int]));
        }
        i += 1;
    }
    assert(src.take(items@.len() as int) =~= src);
    Ok(sorted)
}

/// Sequences with the same elements have the same ids and the same dependency edges.
proof fn lemma_same_elements(a: Seq<TaskView>, b: Seq<TaskView>)
    requires
        forall|x: TaskView| a.contains(x) <==> b.contains(x),
    ensures
        forall|x: u64| has_id(a, x) <==> has_id(b, x),
        forall|x: u64, y: u64| #[trigger] dep_edge(a, x, y) <==> dep_edge(b, x, y),
        refs_exist(a) <==> refs_exist(b),
{
    assert forall|x: u64| has_id(a, x) implies has_id(b, x) by {
        let i = choose|i: int| 0 <= i < a.len() && a[i].id == x;
        assert(a.contains(a[i]));
        let j = choose|j: int| 0 <= j < b.len() && b[j] == a[i];
    }
    assert forall|x: u64| has_id(b, x) implies has_id(a, x) by {
        let i = choose|i: int| 0 <= i < b.len() && b[i].id == x;
        assert(b.contains(b[i]));
        let j = choose|j: int| 0 <= j < a.len() && a[j] == b[i];
    }
    assert forall|x: u64, y: u64| #[trigger] dep_edge(a, x, y) <==> dep_edge(b, x, y) by {
        if dep_edge(a, x, y) {
            let i = choose|i: int| 0 <= i < a.len() && a[i].id == x && (#[trigger] a[i].blocks).contains(y);
            assert(a.contains(a[i]));
            let j = choose|j: int| 0 <= j < b.len() && b[j] == a[i];
            assert(b[j].blocks.contains(y));
        }
        if dep_edge(b, x, y) {
            let i = choose|i: int| 0 <= i < b.len() && b[i].id == x && (#[trigger] b[i].blocks).contains(y);
            assert(b.contains(b[i]));
            let j = choose|j: int| 0 <= j < a.len() && a[j] == b[i];
            assert(a[j].blocks.contains(y));
        }
    }
    if refs_exist(a) {
        assert forall|i: int, d: u64| 0 <= i < b.len() && (#[trigger] b[i].blocks.contains(d)) implies has_id(b, d) by {
            assert(b.contains(b[i]));
            let j = choose|j: int| 0 <= j < a.len() && a[j] == b[i];
            assert(a[j].blocks.contains(d));
        }
    }
    if refs_exist(b) {
        assert forall|i: int, d: u64| 0 <= i < a.len() && (#[trigger] a[i].blocks.contains(d)) implies has_id(a, d) by {
            assert(a.contains(a[i]));
            let j = choose|j: int| 0 <= j < b.len() && b[j] == a[i];
            assert(b[j].blocks.contains(d));
        }
    }
}

/// The store edges so far: all edges of the tasks before position `k`, the first `j` listed
/// edges of task `k`, none of the later tasks.
pub open spec fn partial_blocks(sorted: Seq<TaskItem>, k: int, j: int, m: int) -> Set<u64> {
    if m < k {
        sorted[m].blocks@.to_set()
    } else if m == k {
        sorted[m].blocks@.take(j).to_set()
    } else {
        Set::empty()
    }
}

/// What position `m` of the store holds while edges are added: the stored task with the
/// partial edge set.
pub open spec fn expected_at(sorted: Seq<TaskItem>, k: int, j: int, m: int) -> TaskView {
    TaskView { blocks: partial_blocks(sorted, k, j, m), ..sorted[m]@ }
}

/// A task without dependency edges.
pub open spec fn stripped(t: TaskView) -> TaskView {
    TaskView { blocks: Set::empty(), ..t }
}

impl TaskStore {
    /// A store holding the stored tasks `items`, in id order, with `blocked_by` recomputed;
    /// refused when two tasks share an id, a task blocks an unknown task, or the
    /// dependencies form a cycle.
    pub fn from_loaded(items: Vec<TaskItem>) -> (r: Result<TaskStore, TaskError>)
        ensures
            r is Ok <==> loadable(views(items@)),
            r matches Ok(store) ==> store.wf() && loaded_from(store@, views(items@)),
            r matches Err(e) ==> load_refusal(e@, views(items@)),
    {
        let ghost src = views(items@);
        let sorted = match sort_by_id(&items) {
            Ok(s) => s,
            Err(e) => {
                proof {
                    let x = e@->DuplicateId_0;
                    let (a, b) = choose|a: int, b: int|
                        0 <= a < src.len() && 0 <= b < src.len() && a != b && src[a].id == x && src[b].id == x;
                    assert(!ids_unique(src));
                }
                return Err(e);
            },
        };
        let ghost sv = views(sorted@);
        proof {
            assert forall|x: TaskView| sv.contains(x) <==> src.contains(x) by {
                assert(sv.to_multiset().count(x) == src.to_multiset().count(x));
            }
            lemma_same_elements(sv, src);
            super::store::lemma_ascending_unique(sv);
        }
        let mut store = TaskStore::new();
        let n = sorted.len();
        let mut i: usize = 0;
        while i < n
            invariant
                i <= n == sorted@.len(),
                sv == views(sorted@),
                ids_ascending(sv),
                store.wf(),
                store@.len() == i,
                forall|m: int| 0 <= m < i ==> #[trigger] same_loaded(
                    store@[m],
                    stripped(sv[m]),
                ),
            decreases n - i,
        {
            let t = &sorted[i];
            let item = TaskItem {
                id: t.id,
                subject: t.subject.clone(),
                description: t.description.clone(),
                status: t.status,
                blocked_by: Vec::new(),
                blocks: Vec::new(),
                owner: t.owner.clone(),
                execution_context_id: super::types::copy_opt_string(&t.execution_context_id),
            };
            proof {
                if i > 0 {
                    assert(same_loaded(store@[i - 1], stripped(sv[i - 1])));
                    assert(sv[i - 1].id < sv[i as int].id);
                }
                assert(item@.blocks =~= Set::<u64>::empty());
            }
            store.push_task(item);
            proof {
                assert forall|m: int| 0 <= m < i + 1 implies #[trigger] same_loaded(
                    store@[m],
                    stripped(sv[m]),
                ) by {
                    if m == i {
                        assert(store@[m] == item@);
                    }
                }
            }
            i += 1;
        }
        // Edges are added task by task, in the order each task lists them.
        proof {
            assert forall|m: int| 0 <= m < n implies #[trigger] same_loaded(store@[m], expected_at(sorted@, 0, 0, m)) by {
                assert(same_loaded(store@[m], stripped(sv[m])));
                if m == 0 {
                    assert(sorted@[0].blocks@.take(0).to_set() =~= Set::<u64>::empty());
                }
            }
        }
        let mut k: usize = 0;
        while k < n
            invariant
                k <= n == sorted@.len(),
                src == views(items@),
                sv == views(sorted@),
                ids_unique(sv),
                forall|x: u64, y: u64| #[trigger] dep_edge(sv, x, y) <==> dep_edge(src, x, y),
                forall|x: u64| has_id(sv, x) <==> has_id(src, x),
                forall|x: TaskView| sv.contains(x) <==> src.contains(x),
                sv.to_multiset() == src.to_multiset(),
                store.wf(),
                store@.len() == n,
                forall|m: int| 0 <= m < n ==> #[trigger] same_loaded(
                    store@[m],
                    expected_at(sorted@, k as int, 0, m),
                ),
            decreases n - k,
        {
            let id = sorted[k].id;
            let blocks = &sorted[k].blocks;
            let mut j: usize = 0;
            while j < blocks.len()
                invariant
                    k < n == sorted@.len(),
                    src == views(items@),
                    sv == views(sorted@),
                    ids_unique(sv),
                    id == sv[k as int].id,
                    blocks@ == sorted@[k as int].blocks@,
                    j <= blocks@.len(),
                    forall|x: u64, y: u64| #[trigger] dep_edge(sv, x, y) <==> dep_edge(src, x, y),
                    forall|x: u64| has_id(sv, x) <==> has_id(src, x),
                    forall|x: TaskView| sv.contains(x) <==> src.contains(x),
                    store.wf(),
                    store@.len() == n,
                    forall|m: int| 0 <= m < n ==> #[trigger] same_loaded(
                        store@[m],
                        expected_at(sorted@, k as int, j as int, m),
                    ),
                decreases blocks.len() - j,
            {
                let d = blocks[j];
                let ghost before = store@;
                proof {
                    self::lemma_edges_within(before, sorted@, sv, k as int, j as int);
                }
                match store.add_dependency(id, d) {
                    Ok(()) => {},
                    Err(e) => {
                        proof {
                            self::lemma_add_refused(before, sorted@, sv, src, k as int, j as int, id, d, e@);
                        }
                        return match e {
                            TaskError::NotFound(missing) => Err(TaskError::UnknownDependency { id, dependent: missing }),
                            other => Err(other),
                        };
                    },
                }
                proof {
                    self::lemma_edge_added(before, store@, sorted@, sv, k as int, j as int, id, d);
                }
                j += 1;
            }
            proof {
                assert(blocks@.take(blocks@.len() as int) =~= blocks@);
                assert forall|m: int| 0 <= m < n implies #[trigger] same_loaded(
                    store@[m],
                    expected_at(sorted@, k as int + 1, 0, m),
                ) by {
                    assert(same_loaded(store@[m], expected_at(sorted@, k as int, j as int, m)));
                    if m == k {
                        assert(sorted@[m].blocks@.take(j as int) =~= sorted@[m].blocks@);
                    }
                    if m == k + 1 {
                        assert(sorted@[m].blocks@.take(0).to_set() =~= Set::<u64>::empty());
                    }
                }
            }
            k += 1;
        }
        proof {
            store.lemma_wf();
            self::lemma_loaded(store@, sorted@, sv, src);
        }
        Ok(store)
    }
}

/// The store's edges are edges of the stored tasks.
proof fn lemma_edges_within(ts: Seq<TaskView>, sorted: Seq<TaskItem>, sv: Seq<TaskView>, k: int, j: int)
    requires
        sv == views(sorted),
        0 <= k < sorted.len(),
        0 <= j <= sorted[k].blocks@.len(),
        ts.len() == sorted.len(),
        forall|m: int| 0 <= m < ts.len() ==> #[trigger] same_loaded(
            ts[m],
            expected_at(sorted, k, j, m),
        ),
    ensures
        forall|x: u64, y: u64| #[trigger] dep_edge(ts, x, y) ==> dep_edge(sv, x, y),
        forall|x: u64| has_id(ts, x) <==> has_id(sv, x),
{
    assert forall|x: u64| has_id(ts, x) <==> has_id(sv, x) by {
        if has_id(ts, x) {
            let i = choose|i: int| 0 <= i < ts.len() && ts[i].id == x;
            assert(same_loaded(ts[i], expected_at(sorted, k, j, i)));
            assert(sv[i] == sorted[i]@);
        }
        if has_id(sv, x) {
            let i = choose|i: int| 0 <= i < sv.len() && sv[i].id == x;
            assert(same_loaded(ts[i], expected_at(sorted, k, j, i)));
            assert(sv[i] == sorted[i]@);
        }
    }
    assert forall|x: u64, y: u64| #[trigger] dep_edge(ts, x, y) implies dep_edge(sv, x, y) by {
        let i = choose|i: int| 0 <= i < ts.len() && ts[i].id == x && (#[trigger] ts[i].blocks).contains(y);
        assert(same_loaded(ts[i], expected_at(sorted, k, j, i)));
        assert(sv[i] == sorted[i]@);
        let q = choose|q: int| 0 <= q < ts.len() && ts[q].id == y;
        assert(same_loaded(ts[q], expected_at(sorted, k, j, q)));
        assert(sv[q] == sorted[q]@);
        if i == k {
            let q = choose|q: int| 0 <= q < j && sorted[k].blocks@.take(j)[q] == y;
            assert(sorted[k].blocks@[q] == y);
            assert(sv[i].blocks.contains(y));
        } else {
            assert(sv[i].blocks.contains(y));
        }
    }
}

/// A refused edge of the stored tasks means they cannot be loaded, for the reason given.
proof fn lemma_add_refused(
    ts: Seq<TaskView>,
    sorted: Seq<TaskItem>,
    sv: Seq<TaskView>,
    src: Seq<TaskView>,
    k: int,
    j: int,
    id: u64,
    d: u64,
    e: TaskErrorView,
)
    requires
        sv == views(sorted),
        0 <= k < sorted.len(),
        0 <= j < sorted[k].blocks@.len(),
        id == sv[k].id,
        d == sorted[k].blocks@[j],
        ids_unique(sv),
        ts.len() == sorted.len(),
        forall|m: int| 0 <= m < ts.len() ==> #[trigger] same_loaded(
            ts[m],
            expected_at(sorted, k, j, m),
        ),
        forall|x: u64, y: u64| #[trigger] dep_edge(ts, x, y) ==> dep_edge(sv, x, y),
        forall|x: u64| has_id(ts, x) <==> has_id(sv, x),
        forall|x: u64, y: u64| #[trigger] dep_edge(sv, x, y) <==> dep_edge(src, x, y),
        forall|x: u64| has_id(sv, x) <==> has_id(src, x),
        forall|x: TaskView| sv.contains(x) <==> src.contains(x),
        spec_add_dependency(ts, id, d) == Err::<Seq<TaskView>, TaskErrorView>(e),
    ensures
        !loadable(src),
        e matches TaskErrorView::NotFound(missing) ==> load_refusal(
            TaskErrorView::UnknownDependency { id, dependent: missing },
            src,
        ),
        !(e is NotFound) ==> load_refusal(e, src),
{
    assert(same_loaded(ts[k], expected_at(sorted, k, j, k)));
    assert(sv[k] == sorted[k]@);
    assert(has_id(ts, id));
    assert(sv.contains(sv[k]));
    assert(sv[k].blocks.contains(d));
    if !has_id(ts, d) {
        assert(!has_id(src, d));
        assert(src.contains(sv[k]));
        let i = choose|i: int| 0 <= i < src.len() && src[i] == sv[k];
        assert(src[i].blocks.contains(d));
        assert(!refs_exist(src));
    } else {
        assert(reaches(task_edge(ts), d, id));
        lemma_reaches_mono(task_edge(ts), task_edge(src), d, id);
        assert(dep_edge(sv, id, d));
        assert(dep_edge(src, id, d));
        assert(task_edge(src)(id, d));
    }
}

/// Adding the next listed edge extends the partial edge sets by it.
proof fn lemma_edge_added(
    before: Seq<TaskView>,
    after: Seq<TaskView>,
    sorted: Seq<TaskItem>,
    sv: Seq<TaskView>,
    k: int,
    j: int,
    id: u64,
    d: u64,
)
    requires
        sv == views(sorted),
        0 <= k < sorted.len(),
        0 <= j < sorted[k].blocks@.len(),
        id == sv[k].id,
        d == sorted[k].blocks@[j],
        ids_unique(sv),
        before.len() == sorted.len(),
        forall|m: int| 0 <= m < before.len() ==> #[trigger] same_loaded(
            before[m],
            expected_at(sorted, k, j, m),
        ),
        spec_add_dependency(before, id, d) == Ok::<Seq<TaskView>, TaskErrorView>(after),
    ensures
        after.len() == before.len(),
        forall|m: int| 0 <= m < after.len() ==> #[trigger] same_loaded(
            after[m],
            expected_at(sorted, k, j + 1, m),
        ),
{
    assert(same_loaded(before[k], expected_at(sorted, k, j, k)));
    assert(ids_unique(before)) by {
        assert forall|a: int, b: int| 0 <= a < before.len() && 0 <= b < before.len() && a != b implies before[a].id
            != before[b].id by {
            assert(same_loaded(before[a], expected_at(sorted, k, j, a)));
            assert(same_loaded(before[b], expected_at(sorted, k, j, b)));
            assert(sv[a] == sorted[a]@ && sv[b] == sorted[b]@);
        }
    }
    super::store::lemma_task_of(before, k);
    assert(sorted[k].blocks@.take(j + 1) =~= sorted[k].blocks@.take(j).push(d));
    assert(sorted[k].blocks@.take(j + 1).to_set() =~= sorted[k].blocks@.take(j).to_set().insert(d)) by {
        broadcast use vstd::seq::Seq::lemma_push_to_set_commute;
    }
    assert forall|m: int| 0 <= m < after.len() implies #[trigger] same_loaded(
        after[m],
        expected_at(sorted, k, j + 1, m),
    ) by {
        assert(same_loaded(before[m], expected_at(sorted, k, j, m)));
    }
}

/// Once every listed edge is in, the store holds exactly the stored tasks, which are loadable.
proof fn lemma_loaded(ts: Seq<TaskView>, sorted: Seq<TaskItem>, sv: Seq<TaskView>, src: Seq<TaskView>)
    requires
        sv == views(sorted),
        ids_unique(sv),
        graph_wf(ts),
        ts.len() == sorted.len(),
        forall|m: int| 0 <= m < ts.len() ==> #[trigger] same_loaded(
            ts[m],
            expected_at(sorted, sorted.len() as int, 0, m),
        ),
        forall|x: u64, y: u64| #[trigger] dep_edge(sv, x, y) <==> dep_edge(src, x, y),
        forall|x: u64| has_id(sv, x) <==> has_id(src, x),
        forall|x: TaskView| sv.contains(x) <==> src.contains(x),
        sv.to_multiset() == src.to_multiset(),
    ensures
        loadable(src),
        loaded_from(ts, src),
{
    assert forall|m: int| 0 <= m < ts.len() implies #[trigger] same_loaded(ts[m], sv[m]) by {
        assert(same_loaded(ts[m], expected_at(sorted, sorted.len() as int, 0, m)));
        assert(sv[m] == sorted[m]@);
        assert(sorted[m].blocks@.to_set() == sv[m].blocks);
    }
    assert forall|x: u64, y: u64| #[trigger] dep_edge(src, x, y) ==> dep_edge(ts, x, y) by {
        if dep_edge(src, x, y) {
            assert(dep_edge(sv, x, y));
            let i = choose|i: int| 0 <= i < sv.len() && sv[i].id == x && (#[trigger] sv[i].blocks).contains(y);
            let q = choose|q: int| 0 <= q < sv.len() && sv[q].id == y;
            assert(same_loaded(ts[i], sv[i]));
            assert(same_loaded(ts[q], sv[q]));
        }
    }
    lemma_acyclic_sub(task_edge(ts), task_edge(src));
    assert(refs_exist(sv)) by {
        assert forall|i: int, d: u64| 0 <= i < sv.len() && (#[trigger] sv[i].blocks.contains(d)) implies has_id(sv, d) by {
            assert(same_loaded(ts[i], sv[i]));
            assert(ts[i].blocks.contains(d));
            let q = choose|q: int| 0 <= q < ts.len() && ts[q].id == d;
            assert(same_loaded(ts[q], sv[q]));
        }
    }
    lemma_same_elements(sv, src);
    assert(ids_unique(src)) by {
        assert forall|a: int, b: int| 0 <= a < src.len() && 0 <= b < src.len() && a != b implies src[a].id != src[b].id by {
            if src[a].id == src[b].id {
                if src[a] == src[b] {
                    assert(src.to_multiset().count(src[a]) >= 2) by {
                        lemma_count_two(src, a, b);
                    }
                    assert(sv.to_multiset().count(src[a]) >= 2);
                    lemma_count_two_back(sv, src[a]);
                } else {
                    assert(sv.contains(src[a]) && sv.contains(src[b]));
                    let i = choose|i: int| 0 <= i < sv.len() && sv[i] == src[a];
                    let j = choose|j: int| 0 <= j < sv.len() && sv[j] == src[b];
                    assert(i != j);
                }
            }
        }
    }
    assert forall|k: int| 0 <= k < src.len() implies #[trigger] has_loaded(ts, src[k]) by {
        assert(src.contains(src[k]));
        let i = choose|i: int| 0 <= i < sv.len() && sv[i] == src[k];
        assert(same_loaded(ts[i], sv[i]));
        assert(same_loaded(ts[i], src[k]));
    }
    assert forall|i: int| 0 <= i < ts.len() implies #[trigger] loaded_one_of(ts[i], src) by {
        assert(sv.contains(sv[i]));
        let k = choose|k: int| 0 <= k < src.len() && src[k] == sv[i];
        assert(same_loaded(ts[i], sv[i]));
        assert(same_loaded(ts[i], src[k]));
    }
    assert(src.len() == sv.len()) by {
        assert(src.to_multiset().len() == src.len());
        assert(sv.to_multiset().len() == sv.len());
    }
}

proof fn lemma_count_two(s: Seq<TaskView>, a: int, b: int)
    requires
        0 <= a < s.len(),
        0 <= b < s.len(),
        a != b,
        s[a] == s[b],
    ensures
        s.to_multiset().count(s[a]) >= 2,
    decreases s.len(),
{
    let x = s[a];
    let last = s.len() - 1;
    let d = s.drop_last();
    assert(s =~= d.push(s.last()));
    if a != last && b != last {
        lemma_count_two(d, a, b);
    } else {
        let other = if a == last { b } else { a };
        assert(d[other] == x);
        assert(d.contains(x));
        assert(d.to_multiset().count(x) >= 1);
    }
}

proof fn lemma_count_two_back(s: Seq<TaskView>, x: TaskView)
    requires
        s.to_multiset().count(x) >= 2,
    ensures
        exists|i: int, j: int| 0 <= i < s.len() && 0 <= j < s.len() && i != j && s[i] == x && s[j] == x,
    decreases s.len(),
{
    let d = s.drop_last();
    assert(s =~= d.push(s.last()));
    if s.last() == x {
        assert(d.to_multiset().count(x) >= 1);
        assert(d.contains(x));
        let i = choose|i: int| 0 <= i < d.len() && d[i] == x;
        assert(s[i] == x && s[s.len() - 1] == x);
    } else {
        lemma_count_two_back(d, x);
        let (i, j) = choose|i: int, j: int| 0 <= i < d.len() && 0 <= j < d.len() && i != j && d[i] == x && d[j] == x;
        assert(s[i] == x && s[j] == x);
    }
}

} // verus!
