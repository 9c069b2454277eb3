//! Sequences of keyed entries, the mathematical model of insertion-ordered maps.
use vstd::prelude::*;

verus! {

/// Index of the first entry of `s` whose key is `k`.
pub open spec fn find_key<V>(s: Seq<(Seq<char>, V)>, k: Seq<char>) -> Option<int>
    decreases s.len(),
{
    if s.len() == 0 {
        None
    } else {
        match find_key(s.drop_last(), k) {
            Some(i) => Some(i),
            None => if s.last().0 == k {
                Some(s.len() - 1)
            } else {
                None
            },
        }
    }
}

/// The value stored under `k`, if any.
pub open spec fn lookup<V>(s: Seq<(Seq<char>, V)>, k: Seq<char>) -> Option<V> {
    match find_key(s, k) {
        Some(i) => Some(s[i].1),
        None => None,
    }
}

/// Inserting `(k, v)` as an insertion-ordered map does: an existing key keeps
/// its place and gets the new value; a new key goes last.
pub open spec fn seq_insert<V>(s: Seq<(Seq<char>, V)>, k: Seq<char>, v: V) -> Seq<(Seq<char>, V)> {
    match find_key(s, k) {
        Some(i) => s.update(i, (k, v)),
        None => s.push((k, v)),
    }
}

/// The set of keys of `s`.
pub open spec fn key_set<V>(s: Seq<(Seq<char>, V)>) -> Set<Seq<char>> {
    Set::new(|k: Seq<char>| exists|i: int| 0 <= i < s.len() && (#[trigger] s[i]).0 == k)
}

/// Facts about [`find_key`].
pub proof fn lemma_find_key<V>(s: Seq<(Seq<char>, V)>, k: Seq<char>)
    ensures
        find_key(s, k) matches Some(i) ==> 0 <= i < s.len() && s[i].0 == k && forall|j: int|
            0 <= j < i ==> (#[trigger] s[j]).0 != k,
        find_key(s, k) is None ==> forall|j: int| 0 <= j < s.len() ==> (#[trigger] s[j]).0 != k,
        find_key(s, k) is Some <==> key_set(s).contains(k),
    decreases s.len(),
{
    if s.len() > 0 {
        lemma_find_key(s.drop_last(), k);
        assert forall|j: int| 0 <= j < s.len() - 1 implies s.drop_last()[j] == s[j] by {}
        if find_key(s, k) is Some {
            let i = find_key(s, k)->0;
            assert(s[i].0 == k);
        } else {
            assert(!key_set(s).contains(k));
        }
    }
}

/// The keys after [`seq_insert`] are the old keys plus `k`.
pub proof fn lemma_insert_keys<V>(s: Seq<(Seq<char>, V)>, k: Seq<char>, v: V)
    ensures
        key_set(seq_insert(s, k, v)) == key_set(s).insert(k),
        lookup(seq_insert(s, k, v), k) == Some(v),
        forall|k2: Seq<char>| k2 != k ==> lookup(seq_insert(s, k, v), k2) == lookup(s, k2),
{
    lemma_find_key(s, k);
    let t = seq_insert(s, k, v);
    lemma_find_key(t, k);
    if find_key(s, k) is Some {
        let i = find_key(s, k)->0;
        assert(t[i].0 == k);
        let i2 = find_key(t, k)->0;
        if i2 < i {
            assert(s[i2].0 == k);
        }
        if i2 > i {
            assert(t[i].0 != k);
        }
    } else {
        assert(t[s.len() as int].0 == k);
        let i2 = find_key(t, k)->0;
        if i2 < s.len() {
            assert(s[i2].0 == k);
        }
    }
    assert forall|k2: Seq<char>| #[trigger] key_set(t).contains(k2) <==> key_set(s).insert(k).contains(k2) by {
        if key_set(s).contains(k2) {
            let j = choose|j: int| 0 <= j < s.len() && (#[trigger] s[j]).0 == k2;
            assert(t[j].0 == k2);
        }
        if k2 == k {
            if find_key(s, k) is None {
                assert(t[s.len() as int].0 == k);
            }
        }
        if key_set(t).contains(k2) {
            let j = choose|j: int| 0 <= j < t.len() && (#[trigger] t[j]).0 == k2;
            if k2 != k && j < s.len() {
                assert(s[j].0 == k2);
            }
        }
    }
    assert(key_set(t) =~= key_set(s).insert(k));
    assert forall|k2: Seq<char>| k2 != k implies lookup(t, k2) == lookup(s, k2) by {
        lemma_find_key(s, k2);
        lemma_find_key(t, k2);
        if find_key(s, k2) is Some {
            let i = find_key(s, k2)->0;
            assert(t[i].0 == k2);
            if find_key(t, k2) is Some {
                let i2 = find_key(t, k2)->0;
                if i2 < i {
                    assert(s[i2].0 == k2);
                }
            }
        } else {
            if find_key(t, k2) is Some {
                let i2 = find_key(t, k2)->0;
                if i2 < s.len() {
                    assert(s[i2].0 == k2);
                }
            }
        }
    }
}

/// The keyed view of a vector of named entries.
pub open spec fn keyed<V>(s: Seq<(String, V)>) -> Seq<(Seq<char>, V)> {
    s.map_values(|e: (String, V)| (e.0@, e.1))
}

/// No two entries of `s` have the same key.
pub open spec fn distinct_keys<V>(s: Seq<(Seq<char>, V)>) -> bool {
    forall|i: int, j: int| 0 <= i < j < s.len() ==> (#[trigger] s[i]).0 != (#[trigger] s[j]).0
}

/// Inserting twice the same entry is inserting it once.
pub proof fn lemma_insert_twice<V>(s: Seq<(Seq<char>, V)>, k: Seq<char>, v: V)
    ensures
        seq_insert(seq_insert(s, k, v), k, v) == seq_insert(s, k, v),
{
    let t = seq_insert(s, k, v);
    lemma_find_key(s, k);
    lemma_find_key(t, k);
    if find_key(s, k) is Some {
        let i = find_key(s, k)->0;
        assert(t[i].0 == k);
        let i2 = find_key(t, k)->0;
        if i2 < i {
            assert(s[i2].0 == k);
        }
        if i2 > i {
            assert(t[i].0 != k);
        }
        assert(t.update(i, (k, v)) =~= t);
    } else {
        assert(t[s.len() as int].0 == k);
        let i2 = find_key(t, k)->0;
        if i2 < s.len() {
            assert(s[i2].0 == k);
        }
        assert(t.update(s.len() as int, (k, v)) =~= t);
    }
}

/// Insertion keeps the keys distinct.
pub proof fn lemma_insert_distinct<V>(s: Seq<(Seq<char>, V)>, k: Seq<char>, v: V)
    requires
        distinct_keys(s),
    ensures
        distinct_keys(seq_insert(s, k, v)),
{
    lemma_find_key(s, k);
    let t = seq_insert(s, k, v);
    assert forall|i: int, j: int| 0 <= i < j < t.len() implies (#[trigger] t[i]).0 != (
    #[trigger] t[j]).0 by {
        if find_key(s, k) is None {
            if j == s.len() {
                assert(s[i].0 != k);
            }
        }
    }
}

/// Position of the entry keyed `k` in `v`; see [`find_key`].
pub fn find_index<V>(v: &Vec<(String, V)>, k: &str) -> (r: Option<usize>)
    ensures
        match r {
            Some(i) => find_key(keyed(v@), k@) == Some(i as int),
            None => find_key(keyed(v@), k@) is None,
        },
{
    proof {
        lemma_find_key(keyed(v@), k@);
    }
    let mut i: usize = 0;
    while i < v.len()
        invariant
            0 <= i <= v.len(),
            forall|j: int| 0 <= j < i ==> (#[trigger] keyed(v@)[j]).0 != k@,
            find_key(keyed(v@), k@) matches Some(f) ==> 0 <= f < v@.len() && keyed(v@)[f].0
                == k@ && forall|j: int| 0 <= j < f ==> (#[trigger] keyed(v@)[j]).0 != k@,
            find_key(keyed(v@), k@) is None ==> forall|j: int|
                0 <= j < v@.len() ==> (#[trigger] keyed(v@)[j]).0 != k@,
        decreases v.len() - i,
    {
        if crate::text::same_text(v[i].0.as_str(), k) {
            assert(keyed(v@)[i as int].0 == k@);
            return Some(i);
        }
        assert(keyed(v@)[i as int].0 != k@);
        i += 1;
    }
    None
}

/// Inserts `(k, val)` as an insertion-ordered map does; see [`seq_insert`].
pub fn insert_entry<V>(v: &mut Vec<(String, V)>, k: String, val: V)
    ensures
        keyed(final(v)@) == seq_insert(keyed(old(v)@), k@, val),
{
    proof {
        lemma_find_key(keyed(v@), k@);
    }
    match find_index(v, k.as_str()) {
        Some(i) => {
            let ghost kk = k@;
            v.set(i, (k, val));
            assert(keyed(v@) =~= keyed(old(v)@).update(i as int, (kk, val)));
        },
        None => {
            let ghost kk = k@;
            v.push((k, val));
            assert(keyed(v@) =~= keyed(old(v)@).push((kk, val)));
        },
    }
}

} // verus!
