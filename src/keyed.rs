//! Sequences of `(key, value)` pairs used as maps: keys are unique, and an
//! insertion with a key that is already present replaces the value in place.
use vstd::prelude::*;

verus! {

pub open spec fn has_key<V>(s: Seq<(Seq<char>, V)>, k: Seq<char>) -> bool {
    exists|i: int| 0 <= i < s.len() && #[trigger] s[i].0 == k
}

pub open spec fn keys_unique<V>(s: Seq<(Seq<char>, V)>) -> bool {
    forall|i: int, j: int| 0 <= i < s.len() && 0 <= j < s.len() && #[trigger] s[i].0 == #[trigger] s[j].0 ==> i == j
}

/// The position of key `k`, when it is present.
pub open spec fn key_index<V>(s: Seq<(Seq<char>, V)>, k: Seq<char>) -> int
    recommends
        has_key(s, k),
{
    choose|i: int| 0 <= i < s.len() && #[trigger] s[i].0 == k
}

/// The value stored under `k`.
pub open spec fn lookup<V>(s: Seq<(Seq<char>, V)>, k: Seq<char>) -> Option<V> {
    if has_key(s, k) {
        Some(s[key_index(s, k)].1)
    } else {
        None
    }
}

/// Insert `(k, v)`: replace the value in place when `k` is present, else append.
pub open spec fn upsert<V>(s: Seq<(Seq<char>, V)>, k: Seq<char>, v: V) -> Seq<(Seq<char>, V)> {
    if has_key(s, k) {
        s.update(key_index(s, k), (k, v))
    } else {
        s.push((k, v))
    }
}

/// Insert every pair of `s`, in order, into an empty map.
pub open spec fn index_all<V>(s: Seq<(Seq<char>, V)>) -> Seq<(Seq<char>, V)>
    decreases s.len(),
{
    if s.len() == 0 {
        Seq::empty()
    } else {
        upsert(index_all(s.drop_last()), s.last().0, s.last().1)
    }
}

/// The value of the last pair of `s` with key `k`.
pub open spec fn last_value<V>(s: Seq<(Seq<char>, V)>, k: Seq<char>) -> Option<V>
    decreases s.len(),
{
    if s.len() == 0 {
        None
    } else if s.last().0 == k {
        Some(s.last().1)
    } else {
        last_value(s.drop_last(), k)
    }
}

pub proof fn lemma_upsert<V>(s: Seq<(Seq<char>, V)>, k: Seq<char>, v: V)
    requires
        keys_unique(s),
    ensures
        keys_unique(upsert(s, k, v)),
        forall|k2: Seq<char>| #[trigger]
            lookup(upsert(s, k, v), k2) == if k2 == k {
                Some(v)
            } else {
                lookup(s, k2)
            },
        forall|k2: Seq<char>| #[trigger] has_key(upsert(s, k, v), k2) == (k2 == k || has_key(s, k2)),
{
    let t = upsert(s, k, v);
    if has_key(s, k) {
        let idx = key_index(s, k);
        assert forall|k2: Seq<char>| #[trigger] has_key(t, k2) == (k2 == k || has_key(s, k2)) by {
            if has_key(s, k2) {
                let j = key_index(s, k2);
                if j != idx {
                    assert(t[j].0 == k2);
                }
            }
            if k2 == k {
                assert(t[idx].0 == k2);
            }
        }
        assert forall|k2: Seq<char>| #[trigger]
            lookup(t, k2) == if k2 == k {
                Some(v)
            } else {
                lookup(s, k2)
            } by {
            if has_key(t, k2) {
                let j = key_index(t, k2);
                if k2 == k {
                    assert(t[idx].0 == k2);
                } else {
                    assert(s[j].0 == k2);
                    assert(s[key_index(s, k2)].0 == k2);
                }
            }
        }
    } else {
        assert forall|k2: Seq<char>| #[trigger] has_key(t, k2) == (k2 == k || has_key(s, k2)) by {
            if has_key(s, k2) {
                let j = key_index(s, k2);
                assert(t[j].0 == k2);
            }
            if k2 == k {
                assert(t[s.len() as int].0 == k2);
            }
        }
        assert forall|k2: Seq<char>| #[trigger]
            lookup(t, k2) == if k2 == k {
                Some(v)
            } else {
                lookup(s, k2)
            } by {
            if has_key(t, k2) {
                let j = key_index(t, k2);
                if k2 != k {
                    assert(s[j].0 == k2);
                    assert(s[key_index(s, k2)].0 == k2);
                }
            }
        }
    }
}

/// Indexing a sequence of pairs keeps, for every key, the value of the last pair
/// with that key, and holds each key once.
pub proof fn lemma_index_all<V>(s: Seq<(Seq<char>, V)>)
    ensures
        keys_unique(index_all(s)),
        forall|k: Seq<char>| #[trigger] lookup(index_all(s), k) == last_value(s, k),
    decreases s.len(),
{
    if s.len() > 0 {
        lemma_index_all(s.drop_last());
        lemma_upsert(index_all(s.drop_last()), s.last().0, s.last().1);
    }
}

/// Where the pair at `j` is the last with its key, its value is the key's last value.
pub proof fn lemma_last_value_at<V>(s: Seq<(Seq<char>, V)>, j: int)
    requires
        0 <= j < s.len(),
        forall|k: int| j < k < s.len() ==> (#[trigger] s[k]).0 != s[j].0,
    ensures
        last_value(s, s[j].0) == Some(s[j].1),
    decreases s.len(),
{
    if j < s.len() - 1 {
        let t = s.drop_last();
        assert forall|k: int| j < k < t.len() implies (#[trigger] t[k]).0 != t[j].0 by {
            assert(t[k] == s[k]);
        }
        lemma_last_value_at(t, j);
    }
}

/// The last value of a key in `a + b` is its last in `b`, or else its last in `a`.
pub proof fn lemma_last_value_append<V>(a: Seq<(Seq<char>, V)>, b: Seq<(Seq<char>, V)>, k: Seq<char>)
    ensures
        last_value(a + b, k) == match last_value(b, k) {
            Some(v) => Some(v),
            None => last_value(a, k),
        },
    decreases b.len(),
{
    if b.len() == 0 {
        assert(a + b =~= a);
    } else {
        assert((a + b).drop_last() =~= a + b.drop_last());
        lemma_last_value_append(a, b.drop_last(), k);
    }
}

/// The first position at which `s` has key `k`.
pub fn position_of<V>(s: &Vec<(String, V)>, k: &String) -> (r: Option<usize>)
    ensures
        r matches Some(i) ==> i < s@.len() && s@[i as int].0@ == k@,
        r is None ==> forall|i: int| 0 <= i < s@.len() ==> (#[trigger] s@[i]).0@ != k@,
{
    let mut i: usize = 0;
    while i < s.len()
        invariant
            i <= s@.len(),
            forall|j: int| 0 <= j < i ==> (#[trigger] s@[j]).0@ != k@,
        decreases s@.len() - i,
    {
        if s[i].0 == *k {
            return Some(i);
        }
        i = i + 1;
    }
    None
}

/// The map that a vector of pairs stands for.
pub open spec fn pairs_view<V: View>(s: Seq<(String, V)>) -> Seq<(Seq<char>, V::V)> {
    s.map_values(|p: (String, V)| (p.0@, p.1@))
}

/// Insert `(k, x)` into a vector of pairs with unique keys.
pub fn upsert_vec<V: View>(v: &mut Vec<(String, V)>, k: String, x: V)
    requires
        keys_unique(pairs_view(old(v)@)),
    ensures
        pairs_view(final(v)@) == upsert(pairs_view(old(v)@), k@, x@),
        keys_unique(pairs_view(final(v)@)),
{
    let ghost before = pairs_view(v@);
    proof {
        lemma_upsert(before, k@, x@);
    }
    match position_of(v, &k) {
        Some(i) => {
            proof {
                assert(before[i as int].0 == k@);
                assert(has_key(before, k@));
                assert(before[key_index(before, k@)].0 == k@);
            }
            let ghost kv = k@;
            let ghost xv = x@;
            v.set(i, (k, x));
            assert(pairs_view(v@) =~= before.update(i as int, (kv, xv)));
        },
        None => {
            assert(!has_key(before, k@)) by {
                if has_key(before, k@) {
                    let j = key_index(before, k@);
                    assert(v@[j].0@ == k@);
                }
            }
            let ghost kv = k@;
            let ghost xv = x@;
            v.push((k, x));
            assert(pairs_view(v@) =~= before.push((kv, xv)));
        },
    }
}

/// The value stored under `k` in a vector of pairs with unique keys.
pub fn get_vec<'a, V: View>(v: &'a Vec<(String, V)>, k: &String) -> (r: Option<&'a V>)
    requires
        keys_unique(pairs_view(v@)),
    ensures
        r is None <==> lookup(pairs_view(v@), k@) is None,
        r matches Some(x) ==> lookup(pairs_view(v@), k@) == Some(x@),
{
    let ghost pv = pairs_view(v@);
    match position_of(v, k) {
        Some(i) => {
            assert(pv[i as int].0 == k@);
            assert(has_key(pv, k@));
            assert(pv[key_index(pv, k@)].0 == k@);
            Some(&v[i].1)
        },
        None => {
            assert(!has_key(pv, k@)) by {
                if has_key(pv, k@) {
                    let j = key_index(pv, k@);
                    assert(v@[j].0@ == k@);
                }
            }
            None
        },
    }
}

} // verus!
