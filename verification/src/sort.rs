//! Stable insertion order: what a stable sort by a strict "goes before"
//! relation yields.
use vstd::prelude::*;

verus! {

/// Where `x` goes among the already sorted `s`: after every element that
/// `x` does not go before.
pub open spec fn insert_pos<A>(s: Seq<A>, x: A, before: spec_fn(A, A) -> bool) -> int
    decreases s.len(),
{
    if s.len() == 0 {
        0
    } else if !before(x, s.last()) {
        s.len() as int
    } else {
        insert_pos(s.drop_last(), x, before)
    }
}

/// `s` stably sorted by `before`: each element in turn is placed after
/// the elements it does not go before.
pub open spec fn stable_sort<A>(s: Seq<A>, before: spec_fn(A, A) -> bool) -> Seq<A>
    decreases s.len(),
{
    if s.len() == 0 {
        s
    } else {
        let t = stable_sort(s.drop_last(), before);
        t.insert(insert_pos(t, s.last(), before), s.last())
    }
}

pub proof fn lemma_insert_pos<A>(s: Seq<A>, x: A, before: spec_fn(A, A) -> bool)
    ensures
        0 <= insert_pos(s, x, before) <= s.len(),
        forall|j: int| insert_pos(s, x, before) <= j < s.len() ==> before(x, #[trigger] s[j]),
        insert_pos(s, x, before) > 0 ==> !before(x, s[insert_pos(s, x, before) - 1]),
    decreases s.len(),
{
    if s.len() > 0 && before(x, s.last()) {
        lemma_insert_pos(s.drop_last(), x, before);
        assert forall|j: int| insert_pos(s, x, before) <= j < s.len() implies before(x, #[trigger] s[j]) by {
            if j < s.len() - 1 {
                assert(s.drop_last()[j] == s[j]);
            }
        }
        if insert_pos(s, x, before) > 0 {
            assert(s.drop_last()[insert_pos(s, x, before) - 1] == s[insert_pos(s, x, before) - 1]);
        }
    }
}

/// A stable sort keeps exactly the elements it was given.
pub proof fn law_stable_sort_permutation<A>(s: Seq<A>, before: spec_fn(A, A) -> bool)
    ensures
        stable_sort(s, before).to_multiset() == s.to_multiset(),
        stable_sort(s, before).len() == s.len(),
    decreases s.len(),
{
    broadcast use vstd::seq_lib::to_multiset_build, vstd::seq_lib::to_multiset_insert;
    if s.len() > 0 {
        law_stable_sort_permutation(s.drop_last(), before);
        let t = stable_sort(s.drop_last(), before);
        lemma_insert_pos(t, s.last(), before);
        assert(s.drop_last().push(s.last()) =~= s);
    }
}

/// In the result of a stable sort no element goes before an element
/// placed ahead of it, when "goes before" is a strict weak order.
pub proof fn law_stable_sort_sorted<A>(s: Seq<A>, before: spec_fn(A, A) -> bool)
    requires
        forall|a: A| !#[trigger] before(a, a),
        forall|a: A, b: A, c: A| #[trigger] before(a, b) && #[trigger] before(b, c) ==> before(a, c),
        forall|a: A, b: A, c: A|
            !#[trigger] before(a, b) && !before(b, a) && !#[trigger] before(b, c) && !before(c, b)
                ==> !before(a, c) && !before(c, a),
    ensures
        forall|i: int, j: int|
            0 <= i < j < stable_sort(s, before).len() ==> !before(
                #[trigger] stable_sort(s, before)[j],
                #[trigger] stable_sort(s, before)[i],
            ),
    decreases s.len(),
{
    if s.len() > 0 {
        law_stable_sort_sorted(s.drop_last(), before);
        law_stable_sort_permutation(s.drop_last(), before);
        let t = stable_sort(s.drop_last(), before);
        let x = s.last();
        lemma_insert_pos(t, x, before);
        let p = insert_pos(t, x, before);
        let u = t.insert(p, x);
        assert(u == stable_sort(s, before));
        assert forall|i: int, j: int| 0 <= i < j < u.len() implies !before(#[trigger] u[j], #[trigger] u[i]) by {
            if j < p {
                assert(u[i] == t[i] && u[j] == t[j]);
            } else if j == p {
                // u[i] = t[i] with i < p; x does not go before t[p-1], and t is sorted
                assert(u[i] == t[i]);
                assert(u[j] == x);
                if i < p - 1 {
                    assert(!before(t[p - 1], t[i]));
                    if before(x, t[i]) {
                        // t[p-1] and t[i]: !before(t[p-1], t[i]); x not before t[p-1]
                        if before(t[i], t[p - 1]) {
                            assert(before(x, t[p - 1]));
                        } else {
                            // t[i] ~ t[p-1] (incomparable), x before t[i]
                            if !before(t[p - 1], x) {
                                assert(!before(x, t[i]));
                            } else {
                                assert(before(t[p - 1], t[i]));
                            }
                        }
                    }
                }
            } else if i == p {
                assert(u[i] == x);
                assert(u[j] == t[j - 1]);
                assert(before(x, t[j - 1]));
                if before(t[j - 1], x) {
                    assert(before(x, x));
                }
            } else if i < p {
                assert(u[i] == t[i]);
                assert(u[j] == t[j - 1]);
            } else {
                assert(u[i] == t[i - 1]);
                assert(u[j] == t[j - 1]);
            }
        }
    }
}

} // verus!
