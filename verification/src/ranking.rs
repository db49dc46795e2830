//! Listing order: a strict weak order on listed items and a stable sort
//! by it.
use vstd::prelude::*;
use vstd::multiset::Multiset;
use vstd::seq_lib::group_to_multiset_ensures;

verus! {

/// Items listed in an order: `ranks_before` is a strict weak order.
pub trait Ranked: Sized {
    /// Whether `self` is listed before `other`.
    spec fn ranks_before(&self, other: &Self) -> bool;

    /// Whether `self` is listed before `other`.
    fn listed_first(&self, other: &Self) -> (b: bool)
        ensures
            b == self.ranks_before(other),
    ;

    /// The order laws: never both ways, and "not after" is transitive.
    proof fn lemma_ranking(a: &Self, b: &Self, c: &Self)
        ensures
            !(a.ranks_before(b) && b.ranks_before(a)),
            !b.ranks_before(a) && !c.ranks_before(b) ==> !c.ranks_before(a),
    ;
}

/// Whether `s` is in listing order: no item ranks before an earlier one.
pub open spec fn spec_ranked<T: Ranked>(s: Seq<T>) -> bool {
    forall|i: int, j: int| #![trigger s[i], s[j]] 0 <= i < j < s.len() ==> !s[j].ranks_before(&s[i])
}

/// The items, rearranged into listing order.
pub fn sort_ranked<T: Ranked>(items: Vec<T>) -> (r: Vec<T>)
    ensures
        r@.to_multiset() == items@.to_multiset(),
        spec_ranked(r@),
{
    broadcast use group_to_multiset_ensures, vstd::multiset::group_multiset_axioms;

    let mut rest = items;
    let mut out: Vec<T> = Vec::new();
    let ghost all = rest@.to_multiset();
    while rest.len() > 0
        invariant
            out@.to_multiset().add(rest@.to_multiset()) == all,
            spec_ranked(out@),
        decreases rest@.len(),
    {
        let ghost rest0 = rest@;
        let x = rest.pop().unwrap();
        proof {
            assert(rest0 =~= rest@.push(x));
        }
        let mut pos: usize = 0;
        while pos < out.len() && out[pos].listed_first(&x)
            invariant
                pos <= out@.len(),
                forall|k: int| 0 <= k < pos ==> (#[trigger] out@[k]).ranks_before(&x),
            decreases out@.len() - pos,
        {
            pos += 1;
        }
        let ghost out0 = out@;
        out.insert(pos, x);
        proof {
            assert(out@ == out0.insert(pos as int, x));
            assert forall|i: int, j: int| #![trigger out@[i], out@[j]] 0 <= i < j < out@.len() implies !out@[j].ranks_before(
                &out@[i],
            ) by {
                if j < pos {
                    assert(out@[i] == out0[i] && out@[j] == out0[j]);
                } else if j == pos {
                    assert(out0[i].ranks_before(&x));
                    T::lemma_ranking(&out0[i], &x, &x);
                } else if i == pos {
                    assert(out@[j] == out0[j - 1]);
                    assert(!out0[pos as int].ranks_before(&x));
                    if j - 1 > pos {
                        assert(!out0[j - 1].ranks_before(&out0[pos as int]));
                    } else {
                        T::lemma_ranking(&out0[pos as int], &out0[pos as int], &x);
                    }
                    T::lemma_ranking(&x, &out0[pos as int], &out0[j - 1]);
                } else if i < pos {
                    assert(out@[i] == out0[i] && out@[j] == out0[j - 1]);
                } else {
                    assert(out@[i] == out0[i - 1] && out@[j] == out0[j - 1]);
                }
            }
            vstd::seq_lib::to_multiset_build(rest@, x);
            vstd::seq_lib::to_multiset_insert(out0, pos as int, x);
            assert(rest0.to_multiset() == rest@.to_multiset().insert(x));
            assert(out@.to_multiset() == out0.to_multiset().insert(x));
            assert(out0.to_multiset().add(rest0.to_multiset()) == all);
            assert(out@.to_multiset().add(rest@.to_multiset()) =~= out0.to_multiset().add(
                rest0.to_multiset(),
            ));
        }
    }
    proof {
        assert(rest@.to_multiset() =~= Multiset::empty());
        assert(out@.to_multiset() =~= all);
    }
    out
}

} // verus!
