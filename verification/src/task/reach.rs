//! The dependency relation of a task list, and an exact reachability search over it.
use vstd::prelude::*;

use super::graph::{acyclic, is_path, lemma_reaches_refl, lemma_reaches_step, reaches, step_ok};
use super::types::{TaskItem, TaskView, views};

verus! {

/// Ids are pairwise distinct.
pub open spec fn ids_unique(ts: Seq<TaskView>) -> bool {
    forall|i: int, j: int| 0 <= i < ts.len() && 0 <= j < ts.len() && i != j ==> ts[i].id != ts[j].id
}

pub open spec fn has_id(ts: Seq<TaskView>, id: u64) -> bool {
    exists|i: int| 0 <= i < ts.len() && ts[i].id == id
}

/// `a -> b`: task `a` exists, lists `b` among the tasks it blocks, and `b` exists.
pub open spec fn dep_edge(ts: Seq<TaskView>, a: u64, b: u64) -> bool {
    &&& exists|i: int| 0 <= i < ts.len() && ts[i].id == a && (#[trigger] ts[i].blocks).contains(b)
    &&& has_id(ts, b)
}

pub open spec fn task_edge(ts: Seq<TaskView>) -> spec_fn(u64, u64) -> bool {
    |a: u64, b: u64| dep_edge(ts, a, b)
}

pub fn index_of(tasks: &Vec<TaskItem>, id: u64) -> (r: Option<usize>)
    ensures
        match r {
            Some(i) => i < tasks@.len() && tasks@[i as int].id == id,
            None => forall|i: int| 0 <= i < tasks@.len() ==> tasks@[i].id != id,
        },
{
    let mut i: usize = 0;
    while i < tasks.len()
        invariant
            i <= tasks@.len(),
            forall|k: int| 0 <= k < i ==> tasks@[k].id != id,
        decreases tasks.len() - i,
    {
        if tasks[i].id == id {
            return Some(i);
        }
        i += 1;
    }
    None
}

pub open spec fn count_true(s: Seq<bool>) -> nat
    decreases s.len(),
{
    if s.len() == 0 {
        0
    } else {
        count_true(s.drop_last()) + if s.last() {
            1nat
        } else {
            0nat
        }
    }
}

proof fn lemma_count_true_bound(s: Seq<bool>)
    ensures
        count_true(s) <= s.len(),
    decreases s.len(),
{
    if s.len() > 0 {
        lemma_count_true_bound(s.drop_last());
    }
}

proof fn lemma_count_true_set(s: Seq<bool>, j: int)
    requires
        0 <= j < s.len(),
        !s[j],
    ensures
        count_true(s.update(j, true)) == count_true(s) + 1,
    decreases s.len(),
{
    let t = s.update(j, true);
    if j == s.len() - 1 {
        assert(t.drop_last() =~= s.drop_last());
    } else {
        assert(t.drop_last() =~= s.drop_last().update(j, true));
        lemma_count_true_set(s.drop_last(), j);
    }
}

proof fn lemma_count_true_lt(s: Seq<bool>, j: int)
    requires
        0 <= j < s.len(),
        !s[j],
    ensures
        count_true(s) < s.len(),
{
    lemma_count_true_set(s, j);
    lemma_count_true_bound(s.update(j, true));
}

proof fn lemma_count_true_single(n: nat, start: int)
    requires
        0 <= start < n,
    ensures
        count_true(Seq::new(n, |k: int| k == start)) == 1,
    decreases n,
{
    let s = Seq::new(n, |k: int| k == start);
    if n - 1 == start {
        lemma_count_true_none((n - 1) as nat);
        assert(s.drop_last() =~= Seq::new((n - 1) as nat, |k: int| false));
    } else {
        assert(s.drop_last() =~= Seq::new((n - 1) as nat, |k: int| k == start));
        lemma_count_true_single((n - 1) as nat, start);
    }
}

proof fn lemma_count_true_none(n: nat)
    ensures
        count_true(Seq::new(n, |k: int| false)) == 0,
    decreases n,
{
    if n > 0 {
        assert(Seq::new(n, |k: int| false).drop_last() =~= Seq::new((n - 1) as nat, |k: int| false));
        lemma_count_true_none((n - 1) as nat);
    }
}

/// Every walk from the start id stays inside a set of marked tasks that is closed under edges.
proof fn lemma_closed_marks(ts: Seq<TaskView>, marked: Seq<bool>, start: int, p: Seq<u64>, k: int)
    requires
        ids_unique(ts),
        marked.len() == ts.len(),
        0 <= start < ts.len(),
        marked[start],
        forall|i: int, j: int|
            0 <= i < ts.len() && 0 <= j < ts.len() && marked[i] && #[trigger] ts[i].blocks.contains(ts[j].id) ==> marked[j],
        is_path(task_edge(ts), p),
        p[0] == ts[start].id,
        0 <= k < p.len(),
    ensures
        exists|i: int| 0 <= i < ts.len() && marked[i] && ts[i].id == p[k],
    decreases k,
{
    if k > 0 {
        lemma_closed_marks(ts, marked, start, p, k - 1);
        let i = choose|i: int| 0 <= i < ts.len() && marked[i] && ts[i].id == p[k - 1];
        assert(step_ok(task_edge(ts), p, k - 1));
        assert(dep_edge(ts, p[k - 1], p[k]));
        let i2 = choose|i2: int|
            0 <= i2 < ts.len() && ts[i2].id == p[k - 1] && (#[trigger] ts[i2].blocks).contains(
                p[k],
            );
        assert(i2 == i);
        let j = choose|j: int| 0 <= j < ts.len() && ts[j].id == p[k];
        assert(marked[j]);
    } else {
        assert(marked[start]);
    }
}

/// Decides whether the task `from` reaches `to` along dependency edges
/// (a task always reaches itself).
pub fn reaches_from(tasks: &Vec<TaskItem>, from: u64, to: u64) -> (r: bool)
    requires
        ids_unique(views(tasks@)),
    ensures
        r == reaches(task_edge(views(tasks@)), from, to),
{
    let ghost ts = views(tasks@);
    let ghost e = task_edge(ts);
    if from == to {
        proof {
            lemma_reaches_refl(e, from);
        }
        return true;
    }
    let start = match index_of(tasks, from) {
        Some(i) => i,
        None => {
            proof {
                if reaches(e, from, to) {
                    let p = choose|p: Seq<u64>| #[trigger] is_path(e, p) && p[0] == from && p.last() == to;
                    assert(step_ok(e, p, 0));
                    let i = choose|i: int|
                        0 <= i < ts.len() && ts[i].id == p[0] && (#[trigger] ts[i].blocks).contains(p[1]);
                    assert(tasks@[i].id == from);
                }
            }
            return false;
        }
    };
    let n = tasks.len();
    let mut marked: Vec<bool> = Vec::new();
    let mut k: usize = 0;
    while k < n
        invariant
            k <= n,
            n == tasks@.len(),
            marked@ == Seq::new(k as nat, |q: int| q == start),
        decreases n - k,
    {
        marked.push(k == start);
        k += 1;
        assert(marked@ =~= Seq::new(k as nat, |q: int| q == start));
    }
    proof {
        lemma_count_true_single(n as nat, start as int);
        lemma_reaches_refl(e, from);
    }
    let mut count: usize = 1;
    let mut stack: Vec<usize> = Vec::new();
    stack.push(start);
    assert(stack@[0] == start);
    assert(stack@.contains(start));
    assert forall|i: int| 0 <= i < n && #[trigger] marked@[i] implies i == start by {}
    while stack.len() > 0
        invariant
            n == tasks@.len(),
            ts == views(tasks@),
            e == task_edge(ts),
            ids_unique(ts),
            from != to,
            start < n,
            tasks@[start as int].id == from,
            marked@.len() == n,
            marked@[start as int],
            count == count_true(marked@),
            forall|q: int| 0 <= q < stack@.len() ==> stack@[q] < n && marked@[stack@[q] as int],
            forall|i: int| 0 <= i < n && #[trigger] marked@[i] ==> reaches(e, from, ts[i].id),
            forall|i: int| 0 <= i < n && #[trigger] marked@[i] ==> ts[i].id != to,
            forall|i: int, j: int|
                0 <= i < n && 0 <= j < n && marked@[i] && !stack@.contains(i as usize)
                    && #[trigger] ts[i].blocks.contains(ts[j].id) ==> marked@[j],
        decreases n - count, stack.len(),
    {
        proof {
            lemma_count_true_bound(marked@);
        }
        let ghost count0 = count;
        let ghost stack0 = stack@;
        let x = stack.pop().unwrap();
        let ghost s = stack@;
        assert(stack0 == s.push(x));
        let deps = &tasks[x].blocks;
        let mut d: usize = 0;
        while d < deps.len()
            invariant
                n == tasks@.len(),
                ts == views(tasks@),
                e == task_edge(ts),
                ids_unique(ts),
                from != to,
                start < n,
                x < n,
                marked@[x as int],
                deps == tasks@[x as int].blocks,
                d <= deps@.len(),
                marked@.len() == n,
                marked@[start as int],
                count == count_true(marked@),
                count >= count0,
                count == count0 ==> stack@.len() == s.len(),
                count <= n,
                stack0 == s.push(x),
                forall|v: usize| s.contains(v) ==> stack@.contains(v),
                forall|q: int| 0 <= q < stack@.len() ==> stack@[q] < n && marked@[stack@[q] as int],
                forall|i: int| 0 <= i < n && #[trigger] marked@[i] ==> reaches(e, from, ts[i].id),
                forall|i: int| 0 <= i < n && #[trigger] marked@[i] ==> ts[i].id != to,
                forall|i: int, j: int|
                    0 <= i < n && 0 <= j < n && marked@[i] && i != x && !stack@.contains(i as usize)
                        && #[trigger] ts[i].blocks.contains(ts[j].id) ==> marked@[j],
                forall|q: int, j: int| #![trigger deps@[q], ts[j]]
                    0 <= q < d && 0 <= j < n && ts[j].id == deps@[q] ==> marked@[j],
            decreases deps@.len() - d,
        {
            let y = deps[d];
            match index_of(tasks, y) {
                Some(j) => {
                    if !marked[j] {
                        proof {
                            assert(ts[x as int].blocks.contains(y));
                            assert(dep_edge(ts, ts[x as int].id, y));
                            lemma_reaches_step(e, from, ts[x as int].id, y);
                            lemma_count_true_set(marked@, j as int);
                            lemma_count_true_lt(marked@, j as int);
                        }
                        if y == to {
                            assert(reaches(e, from, to));
                            return true;
                        }
                        let ghost st_before = stack@;
                        let ghost mk_before = marked@;
                        marked.set(j, true);
                        count += 1;
                        stack.push(j);
                        proof {
                            lemma_count_true_bound(marked@);
                            assert forall|v: usize| st_before.contains(v) implies stack@.contains(v) by {
                                let w = choose|w: int| 0 <= w < st_before.len() && st_before[w] == v;
                                assert(stack@[w] == v);
                            }
                            assert(stack@[stack@.len() - 1] == j);
                            assert forall|i: int, j3: int|
                                0 <= i < n && 0 <= j3 < n && marked@[i] && i != x && !stack@.contains(i as usize)
                                    && #[trigger] ts[i].blocks.contains(ts[j3].id) implies marked@[j3] by {
                                assert(i != j);
                                assert(mk_before[i]);
                                if st_before.contains(i as usize) {
                                    assert(stack@.contains(i as usize));
                                }
                            }
                        }
                    }
                },
                None => {},
            }
            proof {
                assert forall|q: int, j2: int| #![trigger deps@[q], ts[j2]]
                    0 <= q < d + 1 && 0 <= j2 < n && ts[j2].id == deps@[q] implies marked@[j2] by {
                    if q == d {
                        assert(tasks@[j2].id == y);
                    }
                }
            }
            d += 1;
        }
        proof {
            assert forall|i: int, j: int|
                0 <= i < n && 0 <= j < n && marked@[i] && !stack@.contains(i as usize)
                    && #[trigger] ts[i].blocks.contains(ts[j].id) implies marked@[j] by {
                if i == x {
                    assert(ts[x as int].blocks == deps@.to_set());
                    let q = choose|q: int| 0 <= q < deps@.len() && deps@[q] == ts[j].id;
                }
            }
        }
    }
    proof {
        if reaches(e, from, to) {
            let p = choose|p: Seq<u64>| #[trigger] is_path(e, p) && p[0] == from && p.last() == to;
            assert forall|i: int, j: int|
                0 <= i < ts.len() && 0 <= j < ts.len() && marked@[i] && #[trigger] ts[i].blocks.contains(ts[j].id) implies marked@[j] by {
                assert(!stack@.contains(i as usize));
            }
            lemma_closed_marks(ts, marked@, start as int, p, p.len() - 1);
        }
    }
    false
}

} // verus!
