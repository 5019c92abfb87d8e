//! Paths and reachability over an abstract dependency relation between task ids.
use vstd::prelude::*;

verus! {

/// One step of `p` (from position `i` to `i + 1`) follows the relation `e`.
pub open spec fn step_ok(e: spec_fn(u64, u64) -> bool, p: Seq<u64>, i: int) -> bool {
    e(p[i], p[i + 1])
}

/// `p` is a non-empty walk along `e`.
pub open spec fn is_path(e: spec_fn(u64, u64) -> bool, p: Seq<u64>) -> bool {
    &&& p.len() > 0
    &&& forall|i: int| 0 <= i < p.len() - 1 ==> #[trigger] step_ok(e, p, i)
}

/// There is a walk along `e` from `a` to `b` (every id reaches itself).
pub open spec fn reaches(e: spec_fn(u64, u64) -> bool, a: u64, b: u64) -> bool {
    exists|p: Seq<u64>| #[trigger] is_path(e, p) && p[0] == a && p.last() == b
}

/// No edge of `e` can be followed back to its source.
pub open spec fn acyclic(e: spec_fn(u64, u64) -> bool) -> bool {
    forall|a: u64, b: u64| #[trigger] e(a, b) ==> !reaches(e, b, a)
}

pub proof fn lemma_reaches_refl(e: spec_fn(u64, u64) -> bool, a: u64)
    ensures
        reaches(e, a, a),
{
    let p = seq![a];
    assert(is_path(e, p));
}

pub proof fn lemma_reaches_step(e: spec_fn(u64, u64) -> bool, a: u64, b: u64, c: u64)
    requires
        reaches(e, a, b),
        e(b, c),
    ensures
        reaches(e, a, c),
{
    let p = choose|p: Seq<u64>| #[trigger] is_path(e, p) && p[0] == a && p.last() == b;
    let q = p.push(c);
    assert forall|i: int| 0 <= i < q.len() - 1 implies #[trigger] step_ok(e, q, i) by {
        if i < p.len() - 1 {
            assert(step_ok(e, p, i));
        }
    }
    assert(is_path(e, q));
}

/// Walks compose.
pub proof fn lemma_reaches_trans(e: spec_fn(u64, u64) -> bool, a: u64, b: u64, c: u64)
    requires
        reaches(e, a, b),
        reaches(e, b, c),
    ensures
        reaches(e, a, c),
{
    let q = choose|q: Seq<u64>| #[trigger] is_path(e, q) && q[0] == b && q.last() == c;
    lemma_reaches_trans_path(e, a, q);
}

proof fn lemma_reaches_trans_path(e: spec_fn(u64, u64) -> bool, a: u64, q: Seq<u64>)
    requires
        is_path(e, q),
        reaches(e, a, q[0]),
    ensures
        reaches(e, a, q.last()),
    decreases q.len(),
{
    if q.len() > 1 {
        let r = q.drop_last();
        assert forall|i: int| 0 <= i < r.len() - 1 implies #[trigger] step_ok(e, r, i) by {
            assert(step_ok(e, q, i));
        }
        lemma_reaches_trans_path(e, a, r);
        assert(step_ok(e, q, q.len() - 2));
        lemma_reaches_step(e, a, r.last(), q.last());
    }
}

/// A walk along a smaller relation is a walk along a larger one.
pub proof fn lemma_reaches_mono(
    e1: spec_fn(u64, u64) -> bool,
    e2: spec_fn(u64, u64) -> bool,
    a: u64,
    b: u64,
)
    requires
        forall|x: u64, y: u64| #[trigger] e1(x, y) ==> e2(x, y),
        reaches(e1, a, b),
    ensures
        reaches(e2, a, b),
{
    let p = choose|p: Seq<u64>| #[trigger] is_path(e1, p) && p[0] == a && p.last() == b;
    assert forall|i: int| 0 <= i < p.len() - 1 implies #[trigger] step_ok(e2, p, i) by {
        assert(step_ok(e1, p, i));
    }
    assert(is_path(e2, p));
}

/// A walk in `e` extended by the single edge `u -> v` either avoids the new edge
/// or passes through it.
proof fn lemma_reaches_with_edge_path(
    e: spec_fn(u64, u64) -> bool,
    e2: spec_fn(u64, u64) -> bool,
    u: u64,
    v: u64,
    p: Seq<u64>,
)
    requires
        forall|x: u64, y: u64| #[trigger] e2(x, y) ==> e(x, y) || (x == u && y == v),
        is_path(e2, p),
    ensures
        reaches(e, p[0], p.last()) || (reaches(e, p[0], u) && reaches(e, v, p.last())),
    decreases p.len(),
{
    if p.len() == 1 {
        lemma_reaches_refl(e, p[0]);
    } else {
        let r = p.drop_last();
        assert forall|i: int| 0 <= i < r.len() - 1 implies #[trigger] step_ok(e2, r, i) by {
            assert(step_ok(e2, p, i));
        }
        lemma_reaches_with_edge_path(e, e2, u, v, r);
        assert(step_ok(e2, p, p.len() - 2));
        let z = r.last();
        let y = p.last();
        if e(z, y) {
            if reaches(e, p[0], z) {
                lemma_reaches_step(e, p[0], z, y);
            } else {
                lemma_reaches_step(e, v, z, y);
            }
        } else {
            assert(z == u && y == v);
            lemma_reaches_refl(e, v);
            if reaches(e, p[0], z) {
            }
        }
    }
}

pub proof fn lemma_reaches_with_edge(
    e: spec_fn(u64, u64) -> bool,
    e2: spec_fn(u64, u64) -> bool,
    u: u64,
    v: u64,
    a: u64,
    b: u64,
)
    requires
        forall|x: u64, y: u64| #[trigger] e2(x, y) ==> e(x, y) || (x == u && y == v),
        reaches(e2, a, b),
    ensures
        reaches(e, a, b) || (reaches(e, a, u) && reaches(e, v, b)),
{
    let p = choose|p: Seq<u64>| #[trigger] is_path(e2, p) && p[0] == a && p.last() == b;
    lemma_reaches_with_edge_path(e, e2, u, v, p);
}

/// Adding the edge `u -> v` keeps a relation acyclic when `v` does not already reach `u`.
pub proof fn lemma_acyclic_add_edge(
    e: spec_fn(u64, u64) -> bool,
    e2: spec_fn(u64, u64) -> bool,
    u: u64,
    v: u64,
)
    requires
        acyclic(e),
        !reaches(e, v, u),
        forall|x: u64, y: u64| #[trigger] e2(x, y) ==> e(x, y) || (x == u && y == v),
    ensures
        acyclic(e2),
{
    assert forall|a: u64, b: u64| #[trigger] e2(a, b) implies !reaches(e2, b, a) by {
        if reaches(e2, b, a) {
            lemma_reaches_with_edge(e, e2, u, v, b, a);
            if e(a, b) {
                if reaches(e, b, a) {
                    assert(!reaches(e, b, a));
                } else {
                    // v ~> a -> b ~> u
                    lemma_reaches_step(e, v, a, b);
                    lemma_reaches_trans(e, v, b, u);
                }
            } else {
                assert(a == u && b == v);
            }
        }
    }
}

/// Removing edges keeps a relation acyclic.
pub proof fn lemma_acyclic_sub(e: spec_fn(u64, u64) -> bool, e2: spec_fn(u64, u64) -> bool)
    requires
        acyclic(e),
        forall|x: u64, y: u64| #[trigger] e2(x, y) ==> e(x, y),
    ensures
        acyclic(e2),
{
    assert forall|a: u64, b: u64| #[trigger] e2(a, b) implies !reaches(e2, b, a) by {
        if reaches(e2, b, a) {
            lemma_reaches_mono(e2, e, b, a);
            assert(e(a, b));
        }
    }
}

} // verus!
