//! Stable sorting, specified as insertion: each item goes after every
//! earlier item that does not come after it. This is the order a stable
//! sort gives.

use vstd::prelude::*;

verus! {

/// `x` inserted into `s` after the last item that `gt` does not put after `x`.
pub open spec fn insert_stable<A>(s: Seq<A>, x: A, gt: spec_fn(A, A) -> bool) -> Seq<A>
    decreases s.len(),
{
    if s.len() == 0 {
        seq![x]
    } else if gt(s.last(), x) {
        insert_stable(s.drop_last(), x, gt).push(s.last())
    } else {
        s.push(x)
    }
}

/// The stable sort of `s` under the strict order `gt` ("comes after").
pub open spec fn stable_sort<A>(s: Seq<A>, gt: spec_fn(A, A) -> bool) -> Seq<A>
    decreases s.len(),
{
    if s.len() == 0 {
        Seq::empty()
    } else {
        insert_stable(stable_sort(s.drop_last(), gt), s.last(), gt)
    }
}

/// No item comes after a later one.
pub open spec fn sorted_by<A>(s: Seq<A>, gt: spec_fn(A, A) -> bool) -> bool {
    forall|i: int, j: int| 0 <= i < j < s.len() ==> !gt(#[trigger] s[i], #[trigger] s[j])
}

/// `gt` is a strict weak order: irreflexive, asymmetric, and "not after"
/// is transitive.
pub open spec fn strict_weak_order<A>(gt: spec_fn(A, A) -> bool) -> bool {
    &&& forall|a: A, b: A| #[trigger] gt(a, b) ==> !gt(b, a)
    &&& forall|a: A, b: A, c: A| #![trigger gt(a, b), gt(b, c)] !gt(a, b) && !gt(b, c) ==> !gt(a, c)
}

/// Inserting at the position found by scanning back from the end over
/// the items that come after `x`.
pub proof fn lemma_insert_at<A>(s: Seq<A>, x: A, gt: spec_fn(A, A) -> bool, p: int)
    requires
        0 <= p <= s.len(),
        forall|j: int| p <= j < s.len() ==> gt(#[trigger] s[j], x),
        p == 0 || !gt(s[p - 1], x),
    ensures
        insert_stable(s, x, gt) == s.insert(p, x),
    decreases s.len(),
{
    if s.len() == 0 {
        assert(s.insert(p, x) =~= seq![x]);
    } else if p == s.len() {
        assert(s.insert(p, x) =~= s.push(x));
    } else {
        assert(gt(s.last(), x));
        let t = s.drop_last();
        assert forall|j: int| p <= j < t.len() implies gt(#[trigger] t[j], x) by {
            assert(t[j] == s[j]);
        }
        if p > 0 {
            assert(t[p - 1] == s[p - 1]);
        }
        lemma_insert_at(t, x, gt, p);
        assert(t.insert(p, x).push(s.last()) =~= s.insert(p, x));
    }
}

/// Insertion keeps the items, adding `x`.
pub proof fn lemma_insert_multiset<A>(s: Seq<A>, x: A, gt: spec_fn(A, A) -> bool)
    ensures
        insert_stable(s, x, gt).to_multiset() == s.to_multiset().insert(x),
        insert_stable(s, x, gt).len() == s.len() + 1,
    decreases s.len(),
{
    broadcast use vstd::seq_lib::group_to_multiset_ensures;

    if s.len() == 0 {
        assert(seq![x] =~= Seq::<A>::empty().push(x));
    } else if gt(s.last(), x) {
        lemma_insert_multiset(s.drop_last(), x, gt);
        assert(s.drop_last().push(s.last()) =~= s);
        assert(insert_stable(s, x, gt).to_multiset() =~= s.to_multiset().insert(x));
    } else {
    }
}

/// Sorting keeps exactly the items it was given.
pub proof fn law_stable_sort_permutes<A>(s: Seq<A>, gt: spec_fn(A, A) -> bool)
    ensures
        stable_sort(s, gt).to_multiset() == s.to_multiset(),
        stable_sort(s, gt).len() == s.len(),
    decreases s.len(),
{
    broadcast use vstd::seq_lib::group_to_multiset_ensures;

    if s.len() > 0 {
        law_stable_sort_permutes(s.drop_last(), gt);
        lemma_insert_multiset(stable_sort(s.drop_last(), gt), s.last(), gt);
        assert(s.drop_last().push(s.last()) =~= s);
        assert(stable_sort(s, gt).to_multiset() =~= s.to_multiset());
    }
}

proof fn lemma_insert_sorted<A>(s: Seq<A>, x: A, gt: spec_fn(A, A) -> bool)
    requires
        strict_weak_order(gt),
        sorted_by(s, gt),
    ensures
        sorted_by(insert_stable(s, x, gt), gt),
        insert_stable(s, x, gt).len() == s.len() + 1,
        forall|k: int|
            0 <= k < insert_stable(s, x, gt).len() ==> #[trigger] insert_stable(s, x, gt)[k] == x
                || s.contains(insert_stable(s, x, gt)[k]),
    decreases s.len(),
{
    if s.len() == 0 {
    } else if gt(s.last(), x) {
        let t = s.drop_last();
        assert(sorted_by(t, gt)) by {
            assert forall|i: int, j: int| 0 <= i < j < t.len() implies !gt(#[trigger] t[i], #[trigger] t[j]) by {
                assert(t[i] == s[i] && t[j] == s[j]);
            }
        }
        lemma_insert_sorted(t, x, gt);
        let r = insert_stable(t, x, gt);
        let out = r.push(s.last());
        assert forall|i: int, j: int| 0 <= i < j < out.len() implies !gt(#[trigger] out[i], #[trigger] out[j]) by {
            if j == out.len() - 1 {
                assert(out[j] == s.last());
                let y = r[i];
                if y == x {
                    assert(!gt(x, s.last()));
                } else {
                    assert(t.contains(y));
                    let m = choose|m: int| 0 <= m < t.len() && t[m] == y;
                    assert(s[m] == y);
                    assert(!gt(s[m], s[s.len() - 1]));
                }
            } else {
                assert(out[i] == r[i] && out[j] == r[j]);
            }
        }
        assert forall|k: int| 0 <= k < out.len() implies #[trigger] out[k] == x || s.contains(out[k]) by {
            if k == out.len() - 1 {
                assert(s[s.len() - 1] == out[k]);
            } else {
                assert(out[k] == r[k]);
                if r[k] != x {
                    let m = choose|m: int| 0 <= m < t.len() && t[m] == r[k];
                    assert(s[m] == r[k]);
                }
            }
        }
    } else {
        let out = s.push(x);
        assert forall|i: int, j: int| 0 <= i < j < out.len() implies !gt(#[trigger] out[i], #[trigger] out[j]) by {
            if j == out.len() - 1 {
                if i < s.len() - 1 {
                    assert(!gt(s[i], s[s.len() - 1]));
                }
            } else {
                assert(out[i] == s[i] && out[j] == s[j]);
            }
        }
        assert forall|k: int| 0 <= k < out.len() implies #[trigger] out[k] == x || s.contains(out[k]) by {
            if k < s.len() {
                assert(out[k] == s[k]);
            }
        }
    }
}

/// Under a strict weak order, the result of sorting is sorted.
pub proof fn law_stable_sort_sorted<A>(s: Seq<A>, gt: spec_fn(A, A) -> bool)
    requires
        strict_weak_order(gt),
    ensures
        sorted_by(stable_sort(s, gt), gt),
    decreases s.len(),
{
    if s.len() > 0 {
        law_stable_sort_sorted(s.drop_last(), gt);
        lemma_insert_sorted(stable_sort(s.drop_last(), gt), s.last(), gt);
    }
}

/// Neither of `x` and `e` comes after the other: they have equal keys.
pub open spec fn tied<A>(x: A, e: A, gt: spec_fn(A, A) -> bool) -> bool {
    !gt(x, e) && !gt(e, x)
}

/// The items of `s` tied with `e`, in their order in `s`.
pub open spec fn tied_with<A>(s: Seq<A>, e: A, gt: spec_fn(A, A) -> bool) -> Seq<A>
    decreases s.len(),
{
    if s.len() == 0 {
        Seq::empty()
    } else if tied(s.last(), e, gt) {
        tied_with(s.drop_last(), e, gt).push(s.last())
    } else {
        tied_with(s.drop_last(), e, gt)
    }
}

proof fn lemma_insert_tied<A>(s: Seq<A>, x: A, e: A, gt: spec_fn(A, A) -> bool)
    requires
        strict_weak_order(gt),
    ensures
        tied_with(insert_stable(s, x, gt), e, gt) == if tied(x, e, gt) {
            tied_with(s, e, gt).push(x)
        } else {
            tied_with(s, e, gt)
        },
    decreases s.len(),
{
    if s.len() == 0 {
        assert(seq![x].drop_last() =~= s);
    } else if gt(s.last(), x) {
        let t = s.drop_last();
        lemma_insert_tied(t, x, e, gt);
        let q = insert_stable(t, x, gt);
        assert(q.push(s.last()).drop_last() =~= q);
        if tied(x, e, gt) && tied(s.last(), e, gt) {
            // Both tied with `e` would tie `s.last()` with `x`, which comes before it.
            assert(!gt(s.last(), e) && !gt(e, x));
        }
    } else {
        assert(s.push(x).drop_last() =~= s);
    }
}

/// Sorting is stable: the items with equal keys keep the order they had.
pub proof fn law_stable_sort_keeps_ties<A>(s: Seq<A>, e: A, gt: spec_fn(A, A) -> bool)
    requires
        strict_weak_order(gt),
    ensures
        tied_with(stable_sort(s, gt), e, gt) == tied_with(s, e, gt),
    decreases s.len(),
{
    if s.len() > 0 {
        law_stable_sort_keeps_ties(s.drop_last(), e, gt);
        lemma_insert_tied(stable_sort(s.drop_last(), gt), s.last(), e, gt);
    }
}

} // verus!
