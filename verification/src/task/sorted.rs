//! Strictly increasing id lists, edited as sets.
use vstd::prelude::*;

use super::types::strictly_sorted;

verus! {

/// Adds `x` to a strictly increasing list, keeping it strictly increasing.
pub fn insert_sorted(v: &mut Vec<u64>, x: u64)
    requires
        strictly_sorted(old(v)@),
    ensures
        strictly_sorted(final(v)@),
        final(v)@.to_set() == old(v)@.to_set().insert(x),
        old(v)@.contains(x) ==> final(v)@ == old(v)@,
        final(v)@.len() >= old(v)@.len(),
{
    let mut p: usize = 0;
    while p < v.len() && v[p] < x
        invariant
            p <= v@.len(),
            forall|k: int| 0 <= k < p ==> v@[k] < x,
        decreases v.len() - p,
    {
        p += 1;
    }
    if p < v.len() && v[p] == x {
        assert(v@.to_set() =~= old(v)@.to_set().insert(x));
        return;
    }
    let ghost before = v@;
    v.insert(p, x);
    proof {
        assert(v@ == before.insert(p as int, x));
        assert forall|i: int, j: int| 0 <= i < j < v@.len() implies v@[i] < v@[j] by {
            if j < p {
            } else if j == p {
            } else if i < p {
                assert(before[j - 1] >= x || before[j - 1] > x);
            } else if i == p {
                assert(before[p as int] != x);
                if j - 1 > p {
                    assert(before[p as int] < before[j - 1]);
                }
            } else {
            }
        }
        assert forall|y: u64| v@.to_set().contains(y) <==> before.to_set().insert(x).contains(y) by {
            if v@.contains(y) {
                let k = choose|k: int| 0 <= k < v@.len() && v@[k] == y;
                if k < p {
                    assert(before[k] == y);
                } else if k > p {
                    assert(before[k - 1] == y);
                }
            }
            if before.contains(y) {
                let k = choose|k: int| 0 <= k < before.len() && before[k] == y;
                if k < p {
                    assert(v@[k] == y);
                } else {
                    assert(v@[k + 1] == y);
                }
            }
            if y == x {
                assert(v@[p as int] == x);
            }
        }
        assert(v@.to_set() =~= before.to_set().insert(x));
        if before.contains(x) {
            let k = choose|k: int| 0 <= k < before.len() && before[k] == x;
            if k < p {
            } else if k > p {
                assert(before[p as int] < before[k]);
            }
        }
    }
}

/// Removes `x` from a strictly increasing list, keeping it strictly increasing.
pub fn remove_sorted(v: &mut Vec<u64>, x: u64)
    requires
        strictly_sorted(old(v)@),
    ensures
        strictly_sorted(final(v)@),
        final(v)@.to_set() == old(v)@.to_set().remove(x),
        !old(v)@.contains(x) ==> final(v)@ == old(v)@,
{
    let mut p: usize = 0;
    while p < v.len() && v[p] != x
        invariant
            p <= v@.len(),
            forall|k: int| 0 <= k < p ==> v@[k] != x,
        decreases v.len() - p,
    {
        p += 1;
    }
    if p == v.len() {
        assert(v@.to_set() =~= old(v)@.to_set().remove(x));
        return;
    }
    let ghost before = v@;
    v.remove(p);
    proof {
        assert(v@ == before.remove(p as int));
        assert forall|i: int, j: int| 0 <= i < j < v@.len() implies v@[i] < v@[j] by {
            if i < p && j >= p {
                assert(before[i] < before[j + 1]);
            } else if i >= p {
                assert(before[i + 1] < before[j + 1]);
            }
        }
        assert forall|y: u64| v@.to_set().contains(y) <==> before.to_set().remove(x).contains(y) by {
            if v@.contains(y) {
                let k = choose|k: int| 0 <= k < v@.len() && v@[k] == y;
                if k < p {
                    assert(before[k] == y);
                    assert(before[k] < before[p as int]);
                } else {
                    assert(before[k + 1] == y);
                    assert(before[p as int] < before[k + 1]);
                }
            }
            if before.contains(y) && y != x {
                let k = choose|k: int| 0 <= k < before.len() && before[k] == y;
                if k < p {
                    assert(v@[k] == y);
                } else {
                    assert(k != p);
                    assert(v@[k - 1] == y);
                }
            }
        }
        assert(v@.to_set() =~= before.to_set().remove(x));
    }
}

} // verus!
