//! Session bookkeeping: the session store, session locks and shared todo lists.
use vstd::prelude::*;
use crate::text::{concat_str, owned, str_eq};
use crate::types::{Session, SessionTime, SessionView, os};

verus! {

/// The views of a sequence of sessions.
pub open spec fn svs(v: Seq<Session>) -> Seq<SessionView> {
    v.map_values(|s: Session| s@)
}

/// The index of the session with id `id` in `s`, or `-1`.
pub open spec fn sess_index(s: Seq<SessionView>, id: Seq<char>) -> int
    decreases s.len(),
{
    if s.len() == 0 {
        -1
    } else if s.last().id == id {
        s.len() - 1
    } else {
        sess_index(s.drop_last(), id)
    }
}

pub proof fn lemma_sess_index(s: Seq<SessionView>, id: Seq<char>)
    ensures
        -1 <= sess_index(s, id) < s.len(),
        sess_index(s, id) >= 0 ==> s[sess_index(s, id)].id == id,
        sess_index(s, id) == -1 <==> forall|j: int| 0 <= j < s.len() ==> s[j].id != id,
        forall|j: int| sess_index(s, id) < j < s.len() ==> s[j].id != id,
    decreases s.len(),
{
    if s.len() > 0 {
        lemma_sess_index(s.drop_last(), id);
        assert forall|j: int| 0 <= j < s.len() - 1 implies s.drop_last()[j] == s[j] by {}
        if s.last().id != id {
            assert forall|j: int| 0 <= j < s.len() && sess_index(s, id) == -1 implies s[j].id != id by {
                if j < s.len() - 1 {
                    assert(s.drop_last()[j] == s[j]);
                }
            }
            if sess_index(s, id) >= 0 {
                assert(s.drop_last()[sess_index(s, id)] == s[sess_index(s, id)]);
            }
        }
    }
}

/// No two sessions of `s` have the same id.
pub open spec fn ids_unique(s: Seq<SessionView>) -> bool {
    forall|i: int, j: int| 0 <= i < s.len() && 0 <= j < s.len() && i != j ==> s[i].id != s[j].id
}

pub proof fn lemma_sess_index_unique(s: Seq<SessionView>, id: Seq<char>, i: int)
    requires
        ids_unique(s),
        0 <= i < s.len(),
        s[i].id == id,
    ensures
        sess_index(s, id) == i,
{
    lemma_sess_index(s, id);
}

/// The session with id `id`.
pub open spec fn sess_get(s: Seq<SessionView>, id: Seq<char>) -> Option<SessionView> {
    let i = sess_index(s, id);
    if i >= 0 {
        Some(s[i])
    } else {
        None
    }
}

/// `s` with `x` stored under its id, replacing the session with that id.
pub open spec fn sess_put(s: Seq<SessionView>, x: SessionView) -> Seq<SessionView> {
    let i = sess_index(s, x.id);
    if i >= 0 {
        s.update(i, x)
    } else {
        s.push(x)
    }
}

/// `s` without the session with id `id`.
pub open spec fn sess_remove(s: Seq<SessionView>, id: Seq<char>) -> Seq<SessionView> {
    let i = sess_index(s, id);
    if i >= 0 {
        s.remove(i)
    } else {
        s
    }
}

pub proof fn lemma_put_unique(s: Seq<SessionView>, x: SessionView)
    requires
        ids_unique(s),
    ensures
        ids_unique(sess_put(s, x)),
{
    lemma_sess_index(s, x.id);
    let t = sess_put(s, x);
    let i = sess_index(s, x.id);
    assert forall|a: int, b: int| 0 <= a < t.len() && 0 <= b < t.len() && a != b implies t[a].id != t[b].id by {
        if i >= 0 {
            if a != i {
                assert(t[a] == s[a]);
            }
            if b != i {
                assert(t[b] == s[b]);
            }
        } else {
            if a < s.len() {
                assert(t[a] == s[a]);
            }
            if b < s.len() {
                assert(t[b] == s[b]);
            }
        }
    }
}

/// Storing the same session twice is storing it once.
pub proof fn lemma_put_twice(s: Seq<SessionView>, x: SessionView)
    ensures
        sess_put(sess_put(s, x), x) == sess_put(s, x),
{
    let t = sess_put(s, x);
    let i = sess_index(s, x.id);
    lemma_sess_index(s, x.id);
    lemma_sess_index(t, x.id);
    if i >= 0 {
        assert(t[i].id == x.id);
        assert forall|j: int| i < j < t.len() implies t[j].id != x.id by {
            assert(t[j] == s[j]);
        }
        assert(sess_index(t, x.id) == i);
        assert(t.update(i, x) =~= t);
    } else {
        assert(t[t.len() - 1].id == x.id);
        assert(sess_index(t, x.id) == t.len() - 1);
        assert(t.update(t.len() - 1, x) =~= t);
    }
}

pub proof fn lemma_remove_unique(s: Seq<SessionView>, id: Seq<char>)
    requires
        ids_unique(s),
    ensures
        ids_unique(sess_remove(s, id)),
        sess_get(sess_remove(s, id), id) is None,
{
    lemma_sess_index(s, id);
    let t = sess_remove(s, id);
    let i = sess_index(s, id);
    if i >= 0 {
        assert forall|a: int, b: int| 0 <= a < t.len() && 0 <= b < t.len() && a != b implies t[a].id != t[b].id by {
            let aa = if a < i { a } else { a + 1 };
            let bb = if b < i { b } else { b + 1 };
            assert(t[a] == s[aa]);
            assert(t[b] == s[bb]);
        }
        assert forall|j: int| 0 <= j < t.len() implies t[j].id != id by {
            let jj = if j < i { j } else { j + 1 };
            assert(t[j] == s[jj]);
        }
    }
    lemma_sess_index(t, id);
}

/// Where a session goes among sessions sorted newest first: after every
/// session created at the same time or later.
pub open spec fn newest_first_pos(s: Seq<SessionView>, x: SessionView) -> int
    decreases s.len(),
{
    if s.len() == 0 {
        0
    } else if s.last().time.created >= x.time.created {
        s.len() as int
    } else {
        newest_first_pos(s.drop_last(), x)
    }
}

/// The sessions of `s` sorted by creation time, newest first; sessions
/// created at the same time keep their order (a stable sort).
pub open spec fn newest_first(s: Seq<SessionView>) -> Seq<SessionView>
    decreases s.len(),
{
    if s.len() == 0 {
        s
    } else {
        let t = newest_first(s.drop_last());
        t.insert(newest_first_pos(t, s.last()), s.last())
    }
}

pub proof fn lemma_pos_bounds(s: Seq<SessionView>, x: SessionView)
    ensures
        0 <= newest_first_pos(s, x) <= s.len(),
        forall|j: int| newest_first_pos(s, x) <= j < s.len() ==> s[j].time.created < x.time.created,
    decreases s.len(),
{
    if s.len() > 0 && s.last().time.created < x.time.created {
        lemma_pos_bounds(s.drop_last(), x);
        assert forall|j: int| newest_first_pos(s, x) <= j < s.len() implies s[j].time.created < x.time.created by {
            if j < s.len() - 1 {
                assert(s.drop_last()[j] == s[j]);
            }
        }
    }
}

/// Sessions ordered newest first.
pub open spec fn is_newest_first(s: Seq<SessionView>) -> bool {
    forall|i: int, j: int| 0 <= i < j < s.len() ==> s[i].time.created >= s[j].time.created
}

/// Sorting newest first yields sessions ordered newest first, of the same
/// number.
pub proof fn lemma_newest_first_sorted(s: Seq<SessionView>)
    ensures
        is_newest_first(newest_first(s)),
        newest_first(s).len() == s.len(),
    decreases s.len(),
{
    if s.len() > 0 {
        lemma_newest_first_sorted(s.drop_last());
        let t = newest_first(s.drop_last());
        let x = s.last();
        lemma_pos_bounds(t, x);
        lemma_pos_before(t, x);
        let p = newest_first_pos(t, x);
        let u = t.insert(p, x);
        assert forall|i: int, j: int| 0 <= i < j < u.len() implies u[i].time.created >= u[j].time.created by {
            if j < p {
            } else if j == p {
                assert(u[i] == t[i]);
            } else if i == p {
                assert(u[j] == t[j - 1]);
            } else if i < p {
                assert(u[i] == t[i]);
                assert(u[j] == t[j - 1]);
            } else {
                assert(u[i] == t[i - 1]);
                assert(u[j] == t[j - 1]);
            }
        }
    }
}

pub proof fn lemma_pos_before(s: Seq<SessionView>, x: SessionView)
    requires
        is_newest_first(s),
    ensures
        forall|j: int| 0 <= j < newest_first_pos(s, x) ==> s[j].time.created >= x.time.created,
    decreases s.len(),
{
    if s.len() > 0 {
        if s.last().time.created >= x.time.created {
        } else {
            assert(is_newest_first(s.drop_last()));
            lemma_pos_before(s.drop_last(), x);
            lemma_pos_bounds(s.drop_last(), x);
            assert forall|j: int| 0 <= j < newest_first_pos(s, x) implies s[j].time.created >= x.time.created by {
                assert(s.drop_last()[j] == s[j]);
            }
        }
    }
}

/// Sort sessions by creation time, newest first (see [`newest_first`]).
pub fn sort_newest_first(v: &Vec<Session>) -> (r: Vec<Session>)
    ensures
        svs(r@) == newest_first(svs(v@)),
{
    let ghost orig = svs(v@);
    let mut r: Vec<Session> = Vec::new();
    let mut i: usize = 0;
    while i < v.len()
        invariant
            i <= v@.len(),
            orig == svs(v@),
            svs(r@) == newest_first(orig.take(i as int)),
        decreases v@.len() - i,
    {
        let x = v[i].copy();
        proof {
            assert(orig.take(i + 1).drop_last() =~= orig.take(i as int));
            assert(orig.take(i + 1).last() == x@);
        }
        let ghost t = svs(r@);
        let mut j: usize = r.len();
        assert(t.take(j as int) =~= t);
        while j > 0 && r[j - 1].time.created < x.time.created
            invariant
                j <= r@.len(),
                t == svs(r@),
                newest_first_pos(t, x@) == newest_first_pos(t.take(j as int), x@),
            decreases j,
        {
            proof {
                assert(t.take(j as int).drop_last() =~= t.take(j - 1));
            }
            j = j - 1;
        }
        proof {
            if j > 0 {
                assert(t.take(j as int).last() == t[j - 1]);
            } else {
                assert(t.take(0) =~= Seq::<SessionView>::empty());
            }
        }
        r.insert(j, x);
        assert(svs(r@) =~= t.insert(j as int, x@));
        i = i + 1;
    }
    assert(orig.take(v@.len() as int) =~= orig);
    r
}

/// The last session with a given id is the one `sess_index` finds.
pub proof fn lemma_sess_last_match(s: Seq<SessionView>, id: Seq<char>, i: int)
    requires
        0 <= i < s.len(),
        s[i].id == id,
        forall|j: int| i < j < s.len() ==> s[j].id != id,
    ensures
        sess_index(s, id) == i,
    decreases s.len(),
{
    if i < s.len() - 1 {
        lemma_sess_last_match(s.drop_last(), id, i);
    }
}

/// A lookup of the id of a session just stored gives that session back.
pub proof fn law_get_after_put(s: Seq<SessionView>, x: SessionView)
    ensures
        sess_get(sess_put(s, x), x.id) == Some(x),
{
    lemma_sess_index(s, x.id);
    let i = sess_index(s, x.id);
    let t = sess_put(s, x);
    if i >= 0 {
        lemma_sess_last_match(t, x.id, i);
    } else {
        lemma_sess_last_match(t, x.id, s.len() as int);
    }
}

/// Storing a session leaves the sessions of every other id as they were.
pub proof fn law_put_keeps_others(s: Seq<SessionView>, x: SessionView, id: Seq<char>)
    requires
        id != x.id,
    ensures
        sess_get(sess_put(s, x), id) == sess_get(s, id),
{
    lemma_sess_index(s, x.id);
    lemma_sess_index(s, id);
    let t = sess_put(s, x);
    let k = sess_index(s, id);
    lemma_sess_index(t, id);
    if k >= 0 {
        lemma_sess_last_match(t, id, k);
    } else {
        assert forall|j: int| 0 <= j < t.len() implies t[j].id != id by {
            if j < s.len() && t[j] != s[j] {
            }
        }
    }
}

/// After a session is removed a lookup of its id finds nothing, and the
/// sessions of every other id stay as they were.
pub proof fn law_get_after_remove(s: Seq<SessionView>, id: Seq<char>, other: Seq<char>)
    requires
        ids_unique(s),
    ensures
        sess_get(sess_remove(s, id), id) is None,
        other != id ==> sess_get(sess_remove(s, id), other) == sess_get(s, other),
{
    lemma_remove_unique(s, id);
    if other != id {
        lemma_sess_index(s, id);
        lemma_sess_index(s, other);
        let i = sess_index(s, id);
        let t = sess_remove(s, id);
        let k = sess_index(s, other);
        lemma_sess_index(t, other);
        if i >= 0 {
            if k >= 0 {
                let kk = if k < i { k } else { k - 1 };
                assert(t[kk] == s[k]);
                lemma_sess_index_unique(t, other, kk);
            } else {
                assert forall|j: int| 0 <= j < t.len() implies t[j].id != other by {
                    let jj = if j < i { j } else { j + 1 };
                    assert(t[j] == s[jj]);
                }
            }
        }
    }
}

/// Sorting newest first keeps exactly the sessions it was given.
pub proof fn law_newest_first_permutation(s: Seq<SessionView>)
    ensures
        newest_first(s).to_multiset() == s.to_multiset(),
    decreases s.len(),
{
    broadcast use vstd::seq_lib::to_multiset_build, vstd::seq_lib::to_multiset_insert;
    if s.len() > 0 {
        law_newest_first_permutation(s.drop_last());
        lemma_newest_first_sorted(s.drop_last());
        let t = newest_first(s.drop_last());
        lemma_pos_bounds(t, s.last());
        assert(s.drop_last().push(s.last()) =~= s);
    }
}

} // verus!
