//! Stable descending order of a list of keys, described by each key's rank.
use vstd::prelude::*;
use vstd::set_lib::{lemma_int_range, lemma_map_size, lemma_subset_equality, set_int_range};

verus! {

/// Entry `j` comes before entry `i` in the descending order: it has a larger
/// key, or an equal key and an earlier position.
pub open spec fn outranks(keys: Seq<u64>, j: int, i: int) -> bool {
    keys[j] > keys[i] || (keys[j] == keys[i] && j < i)
}

/// How many of the first `k` entries come before entry `i`.
pub open spec fn rank_below(keys: Seq<u64>, i: int, k: int) -> nat
    decreases k,
{
    if k <= 0 {
        0
    } else {
        rank_below(keys, i, k - 1) + (if outranks(keys, k - 1, i) {
            1nat
        } else {
            0nat
        })
    }
}

/// The position of entry `i` once the entries are sorted by descending key,
/// equal keys keeping their order.
pub open spec fn rank(keys: Seq<u64>, i: int) -> nat {
    rank_below(keys, i, keys.len() as int)
}

proof fn lemma_rank_below_bound(keys: Seq<u64>, i: int, k: int)
    requires
        0 <= i < keys.len(),
        0 <= k <= keys.len(),
    ensures
        rank_below(keys, i, k) + (if i < k {
            1int
        } else {
            0int
        }) <= k,
    decreases k,
{
    if k > 0 {
        lemma_rank_below_bound(keys, i, k - 1);
    }
}

proof fn lemma_rank_below_mono(keys: Seq<u64>, i: int, i2: int, k: int)
    requires
        0 <= i < keys.len(),
        0 <= i2 < keys.len(),
        0 <= k <= keys.len(),
        outranks(keys, i, i2),
    ensures
        rank_below(keys, i, k) + (if i < k {
            1int
        } else {
            0int
        }) <= rank_below(keys, i2, k),
    decreases k,
{
    if k > 0 {
        lemma_rank_below_mono(keys, i, i2, k - 1);
    }
}

/// Every rank is a position of the list.
pub proof fn lemma_rank_in_range(keys: Seq<u64>, i: int)
    requires
        0 <= i < keys.len(),
    ensures
        rank(keys, i) < keys.len(),
{
    lemma_rank_below_bound(keys, i, keys.len() as int);
}

/// An entry that comes before another has a smaller rank.
pub proof fn lemma_rank_order(keys: Seq<u64>, i: int, i2: int)
    requires
        0 <= i < keys.len(),
        0 <= i2 < keys.len(),
        outranks(keys, i, i2),
    ensures
        rank(keys, i) < rank(keys, i2),
{
    lemma_rank_below_mono(keys, i, i2, keys.len() as int);
}

/// Distinct entries have distinct ranks, and a smaller rank means a key at
/// least as large.
pub proof fn lemma_rank_injective(keys: Seq<u64>, i: int, i2: int)
    requires
        0 <= i < keys.len(),
        0 <= i2 < keys.len(),
        i != i2,
    ensures
        rank(keys, i) != rank(keys, i2),
        rank(keys, i) < rank(keys, i2) ==> keys[i] >= keys[i2],
{
    if outranks(keys, i, i2) {
        lemma_rank_order(keys, i, i2);
    } else {
        assert(outranks(keys, i2, i));
        lemma_rank_order(keys, i2, i);
    }
}

/// Every position of the list is the rank of some entry.
pub proof fn lemma_rank_onto(keys: Seq<u64>, r: int)
    requires
        0 <= r < keys.len(),
    ensures
        exists|i: int| 0 <= i < keys.len() && rank(keys, i) == r,
{
    let n = keys.len() as int;
    let dom = set_int_range(0, n);
    let f = |i: int| rank(keys, i) as int;
    lemma_int_range(0, n);
    assert forall|a: int, b: int| dom.contains(a) && dom.contains(b) && #[trigger] f(a) == #[trigger] f(b) implies a == b by {
        if a != b {
            lemma_rank_injective(keys, a, b);
        }
    }
    lemma_map_size(dom, dom.map(f), f);
    assert forall|x: int| dom.map(f).contains(x) implies dom.contains(x) by {
        let i = choose|i: int| dom.contains(i) && f(i) == x;
        lemma_rank_in_range(keys, i);
    }
    lemma_subset_equality(dom.map(f), dom);
    assert(dom.map(f).contains(r));
}

/// Computes the rank of entry `i`.
pub fn rank_of(keys: &Vec<u64>, i: usize) -> (r: usize)
    requires
        i < keys@.len(),
    ensures
        r == rank(keys@, i as int),
{
    let mut count: usize = 0;
    let mut j: usize = 0;
    while j < keys.len()
        invariant
            i < keys@.len(),
            j <= keys@.len(),
            count == rank_below(keys@, i as int, j as int),
        decreases keys@.len() - j,
    {
        proof {
            lemma_rank_below_bound(keys@, i as int, j as int + 1);
        }
        if keys[j] > keys[i] || (keys[j] == keys[i] && j < i) {
            count = count + 1;
        }
        j = j + 1;
    }
    count
}

} // verus!
