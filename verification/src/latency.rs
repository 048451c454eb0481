//! The latency summary printed at the end of a run: the latencies in
//! ascending order, and the one reported as the 99th percentile.
//!
//! Latencies are given by order keys: integers that order them as the
//! latencies themselves are ordered, equal keys for equal latencies.

use vstd::prelude::*;

verus! {

/// Whether latency `a` comes before latency `b` in the stable ascending
/// order: a smaller key first, and among equal keys the earlier one.
pub open spec fn sorts_before(keys: Seq<u64>, a: int, b: int) -> bool {
    keys[a] < keys[b] || (keys[a] == keys[b] && a < b)
}

/// Whether `order` lists the positions of `keys` in stable ascending order
/// (each position once, as the strict order leaves no room for repeats).
pub open spec fn is_stable_ascending(keys: Seq<u64>, order: Seq<usize>) -> bool {
    &&& order.len() == keys.len()
    &&& forall|i: int| 0 <= i < order.len() ==> #[trigger] order[i] < keys.len()
    &&& forall|i: int, j: int|
        0 <= i < j < order.len() ==> sorts_before(keys, #[trigger] order[i] as int, #[trigger] order[j] as int)
}

/// The positions of `keys` in stable ascending order of their keys: what a
/// stable sort of the latencies by their order does to their positions.
pub fn stable_order(keys: &Vec<u64>) -> (order: Vec<usize>)
    ensures
        is_stable_ascending(keys@, order@),
{
    let mut order: Vec<usize> = Vec::new();
    let mut i: usize = 0;
    while i < keys.len()
        invariant
            0 <= i <= keys.len(),
            order.len() == i,
            forall|k: int| 0 <= k < order.len() ==> #[trigger] order[k] < i,
            forall|a: int, b: int|
                0 <= a < b < order.len() ==> sorts_before(keys@, #[trigger] order[a] as int, #[trigger] order[b] as int),
        decreases keys.len() - i,
    {
        let key = keys[i];
        let mut pos: usize = 0;
        while pos < order.len() && keys[order[pos]] <= key
            invariant
                0 <= pos <= order.len(),
                order.len() == i,
                i < keys.len(),
                key == keys[i as int],
                forall|k: int| 0 <= k < order.len() ==> #[trigger] order[k] < i,
                forall|k: int| 0 <= k < pos ==> keys[#[trigger] order[k] as int] <= key,
            decreases order.len() - pos,
        {
            pos = pos + 1;
        }
        let ghost old_order = order@;
        proof {
            assert forall|k: int| pos <= k < old_order.len() implies key < keys[
                #[trigger] old_order[k] as int] by {
                if k > pos {
                    assert(sorts_before(keys@, old_order[pos as int] as int, old_order[k] as int));
                }
            }
        }
        order.insert(pos, i);
        assert forall|a: int, b: int|
            0 <= a < b < order.len() implies sorts_before(keys@, #[trigger] order[a] as int, #[trigger] order[b] as int) by {
            if b < pos {
                assert(order[a] == old_order[a] && order[b] == old_order[b]);
            } else if b == pos {
                assert(order[a] == old_order[a]);
            } else if a == pos {
                assert(order[b] == old_order[b - 1]);
            } else if a < pos {
                assert(order[a] == old_order[a] && order[b] == old_order[b - 1]);
            } else {
                assert(order[a] == old_order[a - 1] && order[b] == old_order[b - 1]);
            }
        }
        assert forall|k: int| 0 <= k < order.len() implies #[trigger] order[k] < i + 1 by {
            if k < pos {
                assert(order[k] == old_order[k]);
            } else if k > pos {
                assert(order[k] == old_order[k - 1]);
            }
        }
        i = i + 1;
    }
    order
}

/// An order in stable ascending order lists every latency exactly once: it
/// is a permutation of the positions `0..keys.len()`.
pub proof fn lemma_order_is_permutation(keys: Seq<u64>, order: Seq<usize>)
    requires
        is_stable_ascending(keys, order),
    ensures
        forall|i: int, j: int| 0 <= i < j < order.len() ==> order[i] != order[j],
        forall|p: usize| p < keys.len() ==> #[trigger] order.contains(p),
{
    let n = keys.len() as int;
    let ords = order.map_values(|v: usize| v as int);
    assert forall|i: int, j: int| 0 <= i < j < order.len() implies order[i] != order[j] by {
        assert(sorts_before(keys, order[i] as int, order[j] as int));
    }
    assert(ords.no_duplicates()) by {
        assert forall|i: int, j: int| 0 <= i < ords.len() && 0 <= j < ords.len() && i != j implies ords[i]
            != ords[j] by {
            if i < j {
                assert(sorts_before(keys, order[i] as int, order[j] as int));
            } else {
                assert(sorts_before(keys, order[j] as int, order[i] as int));
            }
        }
    }
    ords.unique_seq_to_set();
    let range = vstd::set_lib::set_int_range(0, n);
    vstd::set_lib::lemma_int_range(0, n);
    assert(ords.to_set().subset_of(range)) by {
        assert forall|v: int| ords.to_set().contains(v) implies range.contains(v) by {
            let i = choose|i: int| 0 <= i < ords.len() && ords[i] == v;
            assert(order[i] < keys.len());
        }
    }
    vstd::seq_lib::seq_to_set_is_finite(ords);
    vstd::set_lib::lemma_subset_equality(ords.to_set(), range);
    assert forall|p: usize| p < keys.len() implies #[trigger] order.contains(p) by {
        assert(range.contains(p as int));
        assert(ords.to_set().contains(p as int));
        let i = choose|i: int| 0 <= i < ords.len() && ords[i] == p as int;
        assert(order[i] == p);
    }
}

/// The position in ascending order of the latency reported as the 99th
/// percentile among `n` latencies: the second largest, where there are at
/// least two.
pub open spec fn spec_p99_rank(n: nat) -> Option<nat> {
    if n > 1 {
        Some((n - 2) as nat)
    } else {
        None
    }
}

/// The end-of-run summary of a list of latencies.
pub struct LatencySummary {
    /// Positions of the latencies in stable ascending order.
    pub order: Vec<usize>,
    /// Position of the latency reported as the 99th percentile, if any.
    pub p99: Option<usize>,
}

/// Sorts the latencies given by `keys` and picks the one reported as the
/// 99th percentile: the second largest, where there are at least two.
pub fn summarize(keys: &Vec<u64>) -> (res: LatencySummary)
    ensures
        is_stable_ascending(keys@, res.order@),
        keys.len() > 1 ==> res.p99 == Some(res.order@[keys.len() - 2]),
        keys.len() <= 1 ==> res.p99 is None,
{
    let order = stable_order(keys);
    let p99 = if order.len() > 1 {
        Some(order[order.len() - 2])
    } else {
        None
    };
    LatencySummary { order, p99 }
}

/// The latency reported as the 99th percentile has exactly one latency after
/// it in the stable ascending order, and none of the others has a larger key.
pub proof fn lemma_p99_is_second_largest(keys: Seq<u64>, order: Seq<usize>)
    requires
        is_stable_ascending(keys, order),
        keys.len() > 1,
    ensures
        forall|i: int|
            0 <= i < order.len() && i != order.len() - 1 ==> keys[#[trigger] order[i] as int]
                <= keys[order[order.len() - 2] as int],
        keys[order[order.len() - 2] as int] <= keys[order[order.len() - 1] as int],
{
    let n = order.len() as int;
    assert(sorts_before(keys, order[n - 2] as int, order[n - 1] as int));
    assert forall|i: int|
        0 <= i < order.len() && i != order.len() - 1 implies keys[#[trigger] order[i] as int]
        <= keys[order[order.len() - 2] as int] by {
        if i < n - 2 {
            assert(sorts_before(keys, order[i] as int, order[n - 2] as int));
        }
    }
}

} // verus!
