//! Lists of entries keyed by strings, read as maps: the entry that counts
//! for a key is its last one.
use vstd::prelude::*;
use crate::text::str_eq;

verus! {

/// The index of the last occurrence of `id` in `keys`, or `-1`.
pub open spec fn key_index(keys: Seq<Seq<char>>, id: Seq<char>) -> int
    decreases keys.len(),
{
    if keys.len() == 0 {
        -1
    } else if keys.last() == id {
        keys.len() - 1
    } else {
        key_index(keys.drop_last(), id)
    }
}

pub proof fn lemma_key_index(keys: Seq<Seq<char>>, id: Seq<char>)
    ensures
        -1 <= key_index(keys, id) < keys.len(),
        key_index(keys, id) >= 0 ==> keys[key_index(keys, id)] == id,
        key_index(keys, id) == -1 <==> forall|j: int| 0 <= j < keys.len() ==> keys[j] != id,
        forall|j: int| key_index(keys, id) < j < keys.len() ==> keys[j] != id,
    decreases keys.len(),
{
    if keys.len() > 0 {
        lemma_key_index(keys.drop_last(), id);
        if keys.last() != id {
            assert forall|j: int| 0 <= j < keys.len() - 1 implies keys.drop_last()[j] == keys[j] by {}
        }
    }
}

pub proof fn lemma_last_match(keys: Seq<Seq<char>>, id: Seq<char>, i: int)
    requires
        0 <= i < keys.len(),
        keys[i] == id,
        forall|j: int| i < j < keys.len() ==> keys[j] != id,
    ensures
        key_index(keys, id) == i,
    decreases keys.len(),
{
    if i < keys.len() - 1 {
        lemma_last_match(keys.drop_last(), id, i);
    }
}

/// The keys of a list of entries.
pub open spec fn entry_keys<V>(e: Seq<(String, V)>) -> Seq<Seq<char>> {
    e.map_values(|x: (String, V)| x.0@)
}

/// A list of entries read as a map.
pub open spec fn entries_map<V>(e: Seq<(String, V)>) -> Map<Seq<char>, V> {
    Map::new(
        |k: Seq<char>| key_index(entry_keys(e), k) >= 0,
        |k: Seq<char>| e[key_index(entry_keys(e), k)].1,
    )
}

/// The index of the entry that counts for `key`.
pub fn entry_position<V>(e: &Vec<(String, V)>, key: &str) -> (r: Option<usize>)
    ensures
        match r {
            Some(i) => i == key_index(entry_keys(e@), key@) && i < e@.len(),
            None => key_index(entry_keys(e@), key@) == -1,
        },
{
    proof {
        lemma_key_index(entry_keys(e@), key@);
    }
    let mut i: usize = e.len();
    while i > 0
        invariant
            i <= e@.len(),
            forall|j: int| i <= j < e@.len() ==> entry_keys(e@)[j] != key@,
        decreases i,
    {
        if str_eq(e[i - 1].0.as_str(), key) {
            proof {
                lemma_last_match(entry_keys(e@), key@, i - 1);
            }
            return Some(i - 1);
        }
        i = i - 1;
    }
    None
}

/// The value stored for `key`.
pub fn get_entry<'a, V>(e: &'a Vec<(String, V)>, key: &str) -> (r: Option<&'a V>)
    ensures
        match r {
            Some(v) => entries_map(e@).dom().contains(key@) && *v == entries_map(e@)[key@],
            None => !entries_map(e@).dom().contains(key@),
        },
{
    match entry_position(e, key) {
        Some(i) => Some(&e[i].1),
        None => None,
    }
}

/// No key occurs twice.
pub open spec fn keys_unique(k: Seq<Seq<char>>) -> bool {
    forall|i: int, j: int| 0 <= i < k.len() && 0 <= j < k.len() && i != j ==> k[i] != k[j]
}

/// With distinct keys, the entry with a key is the one that counts.
pub proof fn lemma_unique_index(k: Seq<Seq<char>>, id: Seq<char>, i: int)
    requires
        keys_unique(k),
        0 <= i < k.len(),
        k[i] == id,
    ensures
        key_index(k, id) == i,
{
    lemma_key_index(k, id);
}

/// Store `val` under `key`, replacing the value stored for it.
pub fn set_entry<V>(e: &mut Vec<(String, V)>, key: String, val: V)
    ensures
        entries_map(final(e)@) == entries_map(old(e)@).insert(key@, val),
        keys_unique(entry_keys(old(e)@)) ==> keys_unique(entry_keys(final(e)@)),
{
    let ghost old_e = e@;
    let ghost ok = entry_keys(old_e);
    let ghost k = key@;
    let ghost v = val;
    proof {
        lemma_key_index(ok, k);
    }
    match entry_position(e, key.as_str()) {
        Some(i) => {
            e.set(i, (key, val));
            proof {
                let ne = e@;
                assert(entry_keys(ne) =~= ok);
                assert forall|q: Seq<char>| q != k && key_index(ok, q) >= 0 implies ne[key_index(entry_keys(ne), q)] == old_e[key_index(ok, q)] by {
                    lemma_key_index(ok, q);
                }
                assert(entries_map(ne) =~= entries_map(old_e).insert(k, v));
            }
        },
        None => {
            proof {
                assert(forall|j: int| 0 <= j < ok.len() ==> ok[j] != k);
            }
            e.push((key, val));
            proof {
                let ne = e@;
                let nk = entry_keys(ne);
                assert(nk =~= ok.push(k));
                assert(nk.drop_last() =~= ok);
                assert forall|q: Seq<char>| q != k implies key_index(nk, q) == key_index(ok, q) by {}
                assert forall|q: Seq<char>| q != k && key_index(ok, q) >= 0 implies ne[key_index(nk, q)] == old_e[key_index(ok, q)] by {
                    lemma_key_index(ok, q);
                }
                assert(entries_map(ne) =~= entries_map(old_e).insert(k, v));
            }
        },
    }
}

/// Remove the entry stored for `key`, giving back its value.
pub fn remove_entry<V>(e: &mut Vec<(String, V)>, key: &str) -> (r: Option<V>)
    requires
        keys_unique(entry_keys(old(e)@)),
    ensures
        entries_map(final(e)@) == entries_map(old(e)@).remove(key@),
        keys_unique(entry_keys(final(e)@)),
        r == if entries_map(old(e)@).dom().contains(key@) {
            Some(entries_map(old(e)@)[key@])
        } else {
            None::<V>
        },
{
    let ghost old_e = e@;
    let ghost ok = entry_keys(old_e);
    let ghost k = key@;
    proof {
        lemma_key_index(ok, k);
    }
    match entry_position(e, key) {
        None => {
            assert(entries_map(old_e) =~= entries_map(old_e).remove(k));
            None
        },
        Some(i) => {
            let (_, v) = e.remove(i);
            proof {
                let ne = e@;
                let nk = entry_keys(ne);
                assert forall|j: int| 0 <= j < ne.len() implies ne[j] == old_e[if j < i { j } else { j + 1 }] by {}
                assert forall|a: int, b: int| 0 <= a < nk.len() && 0 <= b < nk.len() && a != b implies nk[a] != nk[b] by {
                    let aa = if a < i { a } else { a + 1 };
                    let bb = if b < i { b } else { b + 1 };
                    assert(nk[a] == ok[aa]);
                    assert(nk[b] == ok[bb]);
                }
                assert forall|q: Seq<char>| q != k && key_index(ok, q) >= 0 implies key_index(nk, q) >= 0
                    && ne[key_index(nk, q)] == old_e[key_index(ok, q)] by {
                    lemma_key_index(ok, q);
                    let kq = key_index(ok, q);
                    let kk = if kq < i { kq } else { kq - 1 };
                    assert(nk[kk] == q);
                    lemma_unique_index(nk, q, kk);
                }
                assert forall|q: Seq<char>| key_index(ok, q) < 0 || q == k implies key_index(nk, q) < 0 by {
                    lemma_key_index(ok, q);
                    lemma_key_index(nk, q);
                    if key_index(nk, q) >= 0 {
                        let j = key_index(nk, q);
                        let jj = if j < i { j } else { j + 1 };
                        assert(nk[j] == ok[jj]);
                    }
                }
                assert(entries_map(ne) =~= entries_map(old_e).remove(k));
            }
            Some(v)
        },
    }
}

} // verus!
