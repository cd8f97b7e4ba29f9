use vstd::prelude::*;
use crate::window::WindowId;

verus! {

/// Whether a sequence of identifiers is strictly increasing.
pub open spec fn ascending(s: Seq<WindowId>) -> bool {
    forall|i: int, j: int| 0 <= i < j < s.len() ==> s[i] < s[j]
}

/// Whether `m` is the smallest member of `s`.
pub open spec fn is_least(s: Set<WindowId>, m: WindowId) -> bool {
    s.contains(m) && forall|x: WindowId| s.contains(x) ==> m <= x
}

/// The smallest member of a finite set that is not empty.
pub open spec fn least(s: Set<WindowId>) -> WindowId {
    choose|m: WindowId| is_least(s, m)
}

/// The members of a finite set, from the smallest to the largest.
pub open spec fn in_order(s: Set<WindowId>) -> Seq<WindowId>
    decreases s.len(),
    when s.finite()
{
    if s.contains(least(s)) {
        seq![least(s)] + in_order(s.remove(least(s)))
    } else {
        Seq::empty()
    }
}

/// A finite set that is not empty has a smallest member.
pub proof fn lemma_least_exists(s: Set<WindowId>)
    requires
        s.finite(),
        s.len() > 0,
    ensures
        is_least(s, least(s)),
    decreases s.len(),
{
    let e = s.choose();
    let rest = s.remove(e);
    if rest.len() == 0 {
        assert forall|x: WindowId| s.contains(x) implies e <= x by {
            if x != e {
                assert(rest.contains(x));
            }
        }
        assert(is_least(s, e));
    } else {
        lemma_least_exists(rest);
        let m = least(rest);
        let w = if e <= m { e } else { m };
        assert forall|x: WindowId| s.contains(x) implies w <= x by {
            if x != e {
                assert(rest.contains(x));
            }
        }
        assert(is_least(s, w));
    }
}

/// `in_order` lists exactly the members of the set, each once, smallest first.
pub proof fn lemma_in_order(s: Set<WindowId>)
    requires
        s.finite(),
    ensures
        ascending(in_order(s)),
        in_order(s).len() == s.len(),
        forall|x: WindowId| in_order(s).contains(x) <==> s.contains(x),
    decreases s.len(),
{
    if s.len() == 0 {
        assert(!s.contains(least(s)));
        assert(in_order(s) =~= Seq::empty());
    } else {
        lemma_least_exists(s);
        let m = least(s);
        let rest = s.remove(m);
        lemma_in_order(rest);
        let tail = in_order(rest);
        let all = in_order(s);
        assert(all =~= seq![m] + tail);
        assert forall|x: WindowId| all.contains(x) <==> s.contains(x) by {
            if all.contains(x) {
                let i = choose|i: int| 0 <= i < all.len() && all[i] == x;
                if i > 0 {
                    assert(tail[i - 1] == x);
                    assert(tail.contains(x));
                }
            }
            if s.contains(x) {
                if x == m {
                    assert(all[0] == x);
                } else {
                    assert(rest.contains(x));
                    assert(tail.contains(x));
                    let i = choose|i: int| 0 <= i < tail.len() && tail[i] == x;
                    assert(all[i + 1] == x);
                }
            }
        }
        assert forall|i: int, j: int| 0 <= i < j < all.len() implies all[i] < all[j] by {
            assert(tail[j - 1] == all[j]);
            assert(tail.contains(all[j]));
            assert(rest.contains(all[j]));
            if i > 0 {
                assert(tail[i - 1] == all[i]);
                assert(tail[i - 1] < tail[j - 1]);
            } else {
                assert(all[0] == m);
                assert(s.contains(all[j]));
            }
        }
    }
}

/// A strictly increasing sequence is the ordered listing of its own members.
pub proof fn lemma_in_order_unique(q: Seq<WindowId>, s: Set<WindowId>)
    requires
        ascending(q),
        forall|x: WindowId| q.contains(x) <==> s.contains(x),
    ensures
        s.finite(),
        q == in_order(s),
    decreases q.len(),
{
    assert(s =~= q.to_set());
    vstd::seq_lib::seq_to_set_is_finite(q);
    if q.len() == 0 {
        assert forall|x: WindowId| !s.contains(x) by {
            assert(!q.contains(x));
        }
        assert(q =~= in_order(s));
    } else {
        let h = q[0];
        assert(q.contains(h));
        assert forall|x: WindowId| s.contains(x) implies h <= x by {
            assert(q.contains(x));
        }
        assert(is_least(s, h));
        let m = least(s);
        assert(is_least(s, m));
        assert(m == h);
        let tail = q.drop_first();
        let rest = s.remove(h);
        assert forall|x: WindowId| tail.contains(x) <==> rest.contains(x) by {
            if tail.contains(x) {
                let i = choose|i: int| 0 <= i < tail.len() && tail[i] == x;
                assert(q[i + 1] == x);
                assert(q.contains(x));
            }
            if rest.contains(x) {
                assert(q.contains(x));
                let i = choose|i: int| 0 <= i < q.len() && q[i] == x;
                assert(tail[i - 1] == x);
            }
        }
        assert(ascending(tail)) by {
            assert forall|i: int, j: int| 0 <= i < j < tail.len() implies tail[i] < tail[j] by {
                assert(tail[i] == q[i + 1]);
                assert(tail[j] == q[j + 1]);
            }
        }
        lemma_in_order_unique(tail, rest);
        assert(q =~= seq![h] + tail);
    }
}

} // verus!
