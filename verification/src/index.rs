use vstd::prelude::*;

verus! {

/// `i` is the first position of `k` in `keys`.
pub open spec fn is_first(keys: Seq<u64>, k: u64, i: int) -> bool {
    &&& 0 <= i < keys.len()
    &&& keys[i] == k
    &&& forall|j: int| 0 <= j < i ==> keys[j] != k
}

/// The first position of `k` in `keys`, if `k` occurs there. Every lookup by
/// id in a project answers with the first match.
pub open spec fn first_index(keys: Seq<u64>, k: u64) -> Option<int> {
    if exists|i: int| is_first(keys, k, i) {
        Some(choose|i: int| is_first(keys, k, i))
    } else {
        None
    }
}

pub open spec fn as_index(r: Option<usize>) -> Option<int> {
    match r {
        Some(i) => Some(i as int),
        None => None,
    }
}

pub proof fn lemma_first_index_some(keys: Seq<u64>, k: u64, i: int)
    requires
        is_first(keys, k, i),
    ensures
        first_index(keys, k) == Some(i),
{
    let c = choose|c: int| is_first(keys, k, c);
    assert(is_first(keys, k, c));
    if c < i {
        assert(keys[c] != k);
    } else if c > i {
        assert(keys[i] != k);
    }
}

pub proof fn lemma_first_index_none(keys: Seq<u64>, k: u64)
    requires
        forall|j: int| 0 <= j < keys.len() ==> keys[j] != k,
    ensures
        first_index(keys, k) is None,
{
}

/// When `k` occurs, its first position exists.
pub proof fn lemma_first_index_exists(keys: Seq<u64>, k: u64, w: int)
    requires
        0 <= w < keys.len(),
        keys[w] == k,
    ensures
        first_index(keys, k) is Some,
    decreases w,
{
    if exists|j: int| 0 <= j < w && keys[j] == k {
        let j = choose|j: int| 0 <= j < w && keys[j] == k;
        lemma_first_index_exists(keys, k, j);
    } else {
        assert(is_first(keys, k, w));
    }
}

} // verus!
