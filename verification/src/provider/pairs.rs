//! Name/value pairs kept as a map keyed by name: headers and query parameters.
use vstd::prelude::*;

use super::definition::pairs_view;
use crate::text::str_eq;

verus! {

/// No two pairs share a name.
pub open spec fn names_unique(ps: Seq<(Seq<char>, Seq<char>)>) -> bool {
    forall|i: int, j: int| 0 <= i < j < ps.len() ==> #[trigger] ps[i].0 != #[trigger] ps[j].0
}

/// Some pair of `ps` is `(name, value)`.
pub open spec fn has_pair(ps: Seq<(Seq<char>, Seq<char>)>, name: Seq<char>, value: Seq<char>) -> bool {
    exists|k: int| 0 <= k < ps.len() && #[trigger] ps[k] == (name, value)
}

/// `k` is the first position of a pair named `name`.
pub open spec fn is_first_named(ps: Seq<(Seq<char>, Seq<char>)>, name: Seq<char>, k: int) -> bool {
    &&& 0 <= k < ps.len()
    &&& ps[k].0 == name
    &&& forall|j: int| 0 <= j < k ==> #[trigger] ps[j].0 != name
}

/// `ps` with `name` set to `value`: the first pair of that name takes the value in place; with
/// no such pair the new pair goes last.
pub open spec fn with_pair(ps: Seq<(Seq<char>, Seq<char>)>, name: Seq<char>, value: Seq<char>) -> Seq<
    (Seq<char>, Seq<char>),
> {
    if exists|k: int| is_first_named(ps, name, k) {
        ps.update(choose|k: int| is_first_named(ps, name, k), (name, value))
    } else {
        ps.push((name, value))
    }
}

/// Setting `name` to `value` keeps the names distinct; afterwards `name` holds `value` and no
/// other value, and every other name holds exactly the values it held before.
pub proof fn law_set_pair(ps: Seq<(Seq<char>, Seq<char>)>, name: Seq<char>, value: Seq<char>)
    requires
        names_unique(ps),
    ensures
        names_unique(with_pair(ps, name, value)),
        forall|v: Seq<char>| has_pair(with_pair(ps, name, value), name, v) <==> v == value,
        forall|other: Seq<char>, v: Seq<char>|
            other != name ==> (has_pair(with_pair(ps, name, value), other, v) <==> has_pair(ps, other, v)),
{
    let w = with_pair(ps, name, value);
    if exists|k: int| is_first_named(ps, name, k) {
        let k = choose|k: int| is_first_named(ps, name, k);
        assert(w == ps.update(k, (name, value)));
        assert forall|i: int, j: int| 0 <= i < j < w.len() implies #[trigger] w[i].0 != #[trigger] w[j].0 by {
            if i != k && j != k {
                assert(ps[i].0 != ps[j].0);
            } else if i == k {
                assert(ps[k].0 != ps[j].0);
            } else {
                assert(ps[i].0 != ps[k].0);
            }
        }
        assert(has_pair(w, name, value)) by {
            assert(w[k] == (name, value));
        }
        assert forall|v: Seq<char>| #[trigger] has_pair(w, name, v) implies v == value by {
            let q = choose|q: int| 0 <= q < w.len() && #[trigger] w[q] == (name, v);
            if q != k {
                assert(w[q] == ps[q]);
                if q < k {
                    assert(ps[k].0 != ps[q].0);
                } else {
                    assert(ps[q].0 != ps[k].0);
                }
            }
        }
        assert forall|other: Seq<char>, v: Seq<char>| other != name implies (#[trigger] has_pair(w, other, v)
            <==> has_pair(ps, other, v)) by {
            if has_pair(w, other, v) {
                let q = choose|q: int| 0 <= q < w.len() && #[trigger] w[q] == (other, v);
                assert(q != k);
                assert(ps[q] == w[q]);
            }
            if has_pair(ps, other, v) {
                let q = choose|q: int| 0 <= q < ps.len() && #[trigger] ps[q] == (other, v);
                assert(q != k);
                assert(w[q] == ps[q]);
            }
        }
    } else {
        assert(w == ps.push((name, value)));
        let n = ps.len() as int;
        assert forall|q: int| 0 <= q < n implies #[trigger] ps[q].0 != name by {
            if ps[q].0 == name {
                lemma_first_named_exists(ps, name, q);
            }
        }
        assert forall|i: int, j: int| 0 <= i < j < w.len() implies #[trigger] w[i].0 != #[trigger] w[j].0 by {
            if j == n {
                assert(w[i] == ps[i]);
                assert(ps[i].0 != name);
            } else {
                assert(ps[i].0 != ps[j].0);
            }
        }
        assert(has_pair(w, name, value)) by {
            assert(w[n] == (name, value));
        }
        assert forall|v: Seq<char>| #[trigger] has_pair(w, name, v) implies v == value by {
            let q = choose|q: int| 0 <= q < w.len() && #[trigger] w[q] == (name, v);
            if q < n {
                assert(w[q] == ps[q]);
                assert(ps[q].0 != name);
            }
        }
        assert forall|other: Seq<char>, v: Seq<char>| other != name implies (#[trigger] has_pair(w, other, v)
            <==> has_pair(ps, other, v)) by {
            if has_pair(w, other, v) {
                let q = choose|q: int| 0 <= q < w.len() && #[trigger] w[q] == (other, v);
                assert(q != n);
                assert(ps[q] == w[q]);
            }
            if has_pair(ps, other, v) {
                let q = choose|q: int| 0 <= q < ps.len() && #[trigger] ps[q] == (other, v);
                assert(w[q] == ps[q]);
            }
        }
    }
}

/// A pair named `name` at `q` means some first position of that name exists.
proof fn lemma_first_named_exists(ps: Seq<(Seq<char>, Seq<char>)>, name: Seq<char>, q: int)
    requires
        0 <= q < ps.len(),
        ps[q].0 == name,
    ensures
        exists|k: int| is_first_named(ps, name, k),
    decreases q,
{
    if forall|j: int| 0 <= j < q ==> #[trigger] ps[j].0 != name {
        assert(is_first_named(ps, name, q));
    } else {
        let j = choose|j: int| 0 <= j < q && #[trigger] ps[j].0 == name;
        lemma_first_named_exists(ps, name, j);
    }
}

/// Sets `name` to `value` among the pairs `ps`.
pub fn set_pair(ps: &mut Vec<(String, String)>, name: &str, value: &str)
    ensures
        pairs_view(final(ps)@) == with_pair(pairs_view(old(ps)@), name@, value@),
{
    let ghost start = pairs_view(ps@);
    let n = ps.len();
    let mut i: usize = 0;
    while i < n
        invariant
            n == ps@.len(),
            start == pairs_view(ps@),
            start == pairs_view(old(ps)@),
            i <= n,
            forall|j: int| 0 <= j < i ==> #[trigger] start[j].0 != name@,
        decreases n - i,
    {
        let found = str_eq(ps[i].0.as_str(), name);
        if found {
            proof {
                assert(start[i as int] == (ps@[i as int].0@, ps@[i as int].1@));
                assert(is_first_named(start, name@, i as int));
                let k = choose|k: int| is_first_named(start, name@, k);
                if k < i {
                    assert(start[k].0 != name@);
                } else if k > i {
                    assert(start[i as int].0 != name@);
                }
                assert(with_pair(start, name@, value@) == start.update(i as int, (name@, value@)));
            }
            ps.set(i, (name.to_owned(), value.to_owned()));
            assert(pairs_view(ps@) =~= start.update(i as int, (name@, value@)));
            return;
        }
        proof {
            assert(start[i as int] == (ps@[i as int].0@, ps@[i as int].1@));
        }
        i += 1;
    }
    proof {
        if exists|k: int| is_first_named(start, name@, k) {
            let k = choose|k: int| is_first_named(start, name@, k);
            assert(start[k].0 != name@);
        }
    }
    ps.push((name.to_owned(), value.to_owned()));
    assert(pairs_view(ps@) =~= start.push((name@, value@)));
}

} // verus!
