//! Lookups in parallel key and value vectors whose keys are unique.
//!
//! A pair of sequences `keys` and `vals` of equal length, with no key twice,
//! stands for the map from `keys[i]` to `vals[i]`.

use vstd::prelude::*;

use crate::primitives::{bytes_eq, Address, H256};

verus! {

/// The map that unique `keys` and parallel `vals` stand for.
pub open spec fn assoc<K, V>(keys: Seq<K>, vals: Seq<V>) -> Map<K, V> {
    Map::new(|k: K| keys.contains(k), |k: K| vals[keys.index_of(k)])
}

pub proof fn lemma_assoc_at<K, V>(keys: Seq<K>, vals: Seq<V>, i: int)
    requires
        keys.no_duplicates(),
        0 <= i < keys.len(),
    ensures
        assoc(keys, vals).contains_key(keys[i]),
        assoc(keys, vals)[keys[i]] == vals[i],
{
    assert(keys.contains(keys[i]));
    let j = keys.index_of(keys[i]);
    assert(0 <= j < keys.len() && keys[j] == keys[i]);
}

pub proof fn lemma_assoc_push<K, V>(keys: Seq<K>, vals: Seq<V>, k: K, v: V)
    requires
        keys.no_duplicates(),
        keys.len() == vals.len(),
        !keys.contains(k),
    ensures
        keys.push(k).no_duplicates(),
        assoc(keys.push(k), vals.push(v)) == assoc(keys, vals).insert(k, v),
{
    let (nk, nv) = (keys.push(k), vals.push(v));
    assert forall|a: int, b: int| 0 <= a < b < nk.len() implies nk[a] != nk[b] by {
        if b == keys.len() {
            assert(keys[a] == nk[a]);
        }
    }
    let m = assoc(nk, nv);
    let e = assoc(keys, vals).insert(k, v);
    assert forall|x: K| #[trigger] m.contains_key(x) == e.contains_key(x) by {
        if x == k {
            assert(nk[keys.len() as int] == x);
        }
        if keys.contains(x) {
            let j = keys.index_of(x);
            assert(nk[j] == x);
        }
        if nk.contains(x) && x != k {
            let j = nk.index_of(x);
            assert(j < keys.len());
            assert(keys[j] == x);
        }
    }
    assert forall|x: K| #[trigger] m.contains_key(x) implies m[x] == e[x] by {
        if x == k {
            lemma_assoc_at(nk, nv, keys.len() as int);
        } else {
            let j = keys.index_of(x);
            lemma_assoc_at(nk, nv, j);
            lemma_assoc_at(keys, vals, j);
        }
    }
    assert(m =~= e);
}

pub proof fn lemma_assoc_update<K, V>(keys: Seq<K>, vals: Seq<V>, i: int, v: V)
    requires
        keys.no_duplicates(),
        keys.len() == vals.len(),
        0 <= i < keys.len(),
    ensures
        assoc(keys, vals.update(i, v)) == assoc(keys, vals).insert(keys[i], v),
{
    let nv = vals.update(i, v);
    let m = assoc(keys, nv);
    let e = assoc(keys, vals).insert(keys[i], v);
    assert(keys.contains(keys[i]));
    assert forall|x: K| #[trigger] m.contains_key(x) implies m[x] == e[x] by {
        let j = keys.index_of(x);
        lemma_assoc_at(keys, nv, j);
        lemma_assoc_at(keys, vals, j);
    }
    assert(m =~= e);
}

/// A sequence without duplicates whose elements all occur in another
/// sequence without duplicates is no longer than it.
pub proof fn lemma_unique_subseq_len<K>(a: Seq<K>, b: Seq<K>)
    requires
        a.no_duplicates(),
        forall|x: K| a.contains(x) ==> b.contains(x),
    ensures
        a.len() <= b.len(),
{
    broadcast use vstd::seq_lib::seq_to_set_is_finite;

    a.unique_seq_to_set();
    b.lemma_cardinality_of_set();
    assert(a.to_set().subset_of(b.to_set()));
    vstd::set_lib::lemma_len_subset(a.to_set(), b.to_set());
}

/// The position of `h` in `keys`, if it is there.
pub fn find_hash(keys: &Vec<H256>, h: &H256) -> (r: Option<usize>)
    ensures
        match r {
            Some(i) => i < keys@.len() && keys@[i as int] == *h,
            None => !keys@.contains(*h),
        },
{
    let mut i: usize = 0;
    while i < keys.len()
        invariant
            i <= keys@.len(),
            forall|j: int| 0 <= j < i ==> keys@[j] != *h,
        decreases keys@.len() - i,
    {
        if bytes_eq(&keys[i].0, &h.0) {
            return Some(i);
        }
        i = i + 1;
    }
    None
}

/// The position of `a` in `keys`, if it is there.
pub fn find_address(keys: &Vec<Address>, a: &Address) -> (r: Option<usize>)
    ensures
        match r {
            Some(i) => i < keys@.len() && keys@[i as int] == *a,
            None => !keys@.contains(*a),
        },
{
    let mut i: usize = 0;
    while i < keys.len()
        invariant
            i <= keys@.len(),
            forall|j: int| 0 <= j < i ==> keys@[j] != *a,
        decreases keys@.len() - i,
    {
        if bytes_eq(&keys[i].0, &a.0) {
            return Some(i);
        }
        i = i + 1;
    }
    None
}

} // verus!
