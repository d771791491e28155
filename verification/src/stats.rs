//! Percentiles of a set of samples, by the nearest-rank method.

use vstd::prelude::*;
use vstd::relations::{sorted_by, total_ordering};
use vstd::seq_lib::lemma_sorted_unique;
use crate::error::Error;

verus! {

/// The order of the samples.
pub open spec fn at_most() -> spec_fn(u64, u64) -> bool {
    |a: u64, b: u64| a <= b
}

/// The samples from the smallest to the largest.
pub open spec fn ascending(samples: Seq<u64>) -> Seq<u64> {
    samples.sort_by(at_most())
}

/// The rank, counted from 1, of the `pct`-th percentile among `n` samples:
/// `pct` hundredths of `n`, rounded up, and kept between 1 and `n`.
pub open spec fn nearest_rank(n: nat, pct: nat) -> nat {
    let rank = (pct * n + 99) / 100;
    if rank < 1 {
        1
    } else if rank > n {
        n
    } else {
        rank
    }
}

/// The `pct`-th percentile of `samples`: the sample of that rank in
/// ascending order. Meaningful only if there is a sample.
pub open spec fn percentile_of(samples: Seq<u64>, pct: nat) -> u64 {
    ascending(samples)[nearest_rank(samples.len(), pct) - 1]
}

/// The four figures that a report gives of a set of samples.
#[derive(Debug, Clone, Copy, PartialEq, Eq)]
pub struct Summary {
    pub min: u64,
    pub p50: u64,
    pub p90: u64,
    pub max: u64,
}

/// The summary of `samples`: the percentiles 0, 50, 90 and 100.
pub open spec fn summary_of(samples: Seq<u64>) -> Summary {
    Summary {
        min: percentile_of(samples, 0),
        p50: percentile_of(samples, 50),
        p90: percentile_of(samples, 90),
        max: percentile_of(samples, 100),
    }
}

/// `<=` orders the samples totally.
pub proof fn lemma_at_most_total()
    ensures
        total_ordering(at_most()),
{
    assert(vstd::relations::reflexive(at_most()));
    assert(vstd::relations::antisymmetric(at_most()));
    assert(vstd::relations::transitive(at_most()));
    assert(vstd::relations::strongly_connected(at_most()));
}

/// The ascending order is an order of the same samples, and the only one:
/// whatever holds the samples of `samples` from the smallest to the largest
/// is `ascending(samples)`.
pub proof fn lemma_ascending_unique(samples: Seq<u64>, sorted: Seq<u64>)
    requires
        forall|i: int, j: int| 0 <= i < j < sorted.len() ==> sorted[i] <= sorted[j],
        sorted.to_multiset() == samples.to_multiset(),
    ensures
        sorted == ascending(samples),
        sorted.len() == samples.len(),
{
    lemma_at_most_total();
    samples.lemma_sort_by_ensures(at_most());
    assert(sorted_by(sorted, at_most()));
    lemma_sorted_unique(sorted, ascending(samples), at_most());
    vstd::seq_lib::to_multiset_len(sorted);
    vstd::seq_lib::to_multiset_len(samples);
}

/// The ascending order holds the samples, each as often as it occurs, from
/// the smallest to the largest.
pub proof fn lemma_ascending(samples: Seq<u64>)
    ensures
        ascending(samples).len() == samples.len(),
        ascending(samples).to_multiset() == samples.to_multiset(),
        forall|i: int, j: int|
            0 <= i <= j < samples.len() ==> ascending(samples)[i] <= ascending(samples)[j],
        forall|i: int| 0 <= i < samples.len() ==> samples.contains(#[trigger] ascending(samples)[i]),
        forall|i: int| 0 <= i < samples.len() ==> ascending(samples).contains(#[trigger] samples[i]),
{
    lemma_at_most_total();
    samples.lemma_sort_by_ensures(at_most());
    let sorted = ascending(samples);
    vstd::seq_lib::to_multiset_len(sorted);
    vstd::seq_lib::to_multiset_len(samples);
    assert forall|i: int, j: int| 0 <= i <= j < samples.len() implies sorted[i] <= sorted[j] by {
        if i < j {
            assert(at_most()(sorted[i], sorted[j]));
        }
    }
    assert forall|i: int| 0 <= i < samples.len() implies samples.contains(#[trigger] sorted[i]) by {
        assert(sorted.contains(sorted[i]));
    }
    assert forall|i: int| 0 <= i < samples.len() implies sorted.contains(#[trigger] samples[i]) by {
        vstd::seq_lib::to_multiset_contains(samples, samples[i]);
        vstd::seq_lib::to_multiset_contains(sorted, samples[i]);
        assert(samples.contains(samples[i]));
    }
}

/// Of samples that stand in ascending order, the percentile is the sample at
/// its rank.
pub proof fn lemma_percentile_of_ascending(samples: Seq<u64>, pct: nat)
    requires
        forall|i: int, j: int| 0 <= i < j < samples.len() ==> samples[i] <= samples[j],
    ensures
        percentile_of(samples, pct) == samples[nearest_rank(samples.len(), pct) - 1],
{
    lemma_ascending_unique(samples, samples);
}

/// Percentile 0 is the smallest sample and percentile 100 the largest, and
/// every percentile is one of the samples and lies between the two.
pub proof fn lemma_percentile_bounds(samples: Seq<u64>, pct: nat)
    requires
        samples.len() > 0,
    ensures
        samples.contains(percentile_of(samples, pct)),
        percentile_of(samples, 0) <= percentile_of(samples, pct) <= percentile_of(samples, 100),
        forall|i: int| 0 <= i < samples.len() ==> percentile_of(samples, 0) <= #[trigger] samples[i],
        forall|i: int|
            0 <= i < samples.len() ==> #[trigger] samples[i] <= percentile_of(samples, 100),
{
    let n = samples.len();
    let sorted = ascending(samples);
    lemma_ascending(samples);
    assert(nearest_rank(n, 0) == 1);
    assert(nearest_rank(n, 100) == n) by {
        assert((100 * n + 99) / 100 == n);
    }
    assert(1 <= nearest_rank(n, pct) <= n);
    assert forall|i: int| 0 <= i < n implies sorted[0] <= #[trigger] samples[i] && samples[i]
        <= sorted[n - 1] by {
        assert(sorted.contains(samples[i]));
        let k = choose|k: int| 0 <= k < sorted.len() && sorted[k] == samples[i];
        assert(sorted[0] <= sorted[k] <= sorted[n - 1]);
    }
}

/// Between percentiles the order is that of their numbers.
pub proof fn lemma_percentile_monotonic(samples: Seq<u64>, low: nat, high: nat)
    requires
        samples.len() > 0,
        low <= high,
    ensures
        percentile_of(samples, low) <= percentile_of(samples, high),
{
    let n = samples.len();
    lemma_ascending(samples);
    assert(low * n <= high * n) by (nonlinear_arith)
        requires
            low <= high,
            n >= 0,
    ;
    assert(nearest_rank(n, low) <= nearest_rank(n, high));
}

/// `slice::sort_unstable` of std, on the samples: afterwards they stand in
/// ascending order, and they are the samples that were there, each as often
/// as before.
#[verifier::external_body]
fn sort_samples(samples: &mut Vec<u64>)
    ensures
        forall|i: int, j: int|
            0 <= i < j < final(samples)@.len() ==> final(samples)@[i] <= final(samples)@[j],
        final(samples)@.to_multiset() == old(samples)@.to_multiset(),
{
    samples.sort_unstable();
}

/// A copy of the samples in ascending order.
pub fn sorted_samples(samples: &Vec<u64>) -> (sorted: Vec<u64>)
    ensures
        sorted@ == ascending(samples@),
        sorted@.len() == samples@.len(),
{
    let mut sorted: Vec<u64> = Vec::new();
    let mut i: usize = 0;
    while i < samples.len()
        invariant
            i <= samples@.len(),
            sorted@ == samples@.take(i as int),
        decreases samples@.len() - i,
    {
        sorted.push(samples[i]);
        assert(sorted@ =~= samples@.take(i + 1));
        i += 1;
    }
    assert(samples@.take(samples@.len() as int) =~= samples@);
    sort_samples(&mut sorted);
    proof {
        lemma_ascending_unique(samples@, sorted@);
    }
    sorted
}

/// The sample of rank `pct` hundredths among samples in ascending order.
fn pick(sorted: &Vec<u64>, pct: u8) -> (value: u64)
    requires
        sorted@.len() > 0,
    ensures
        value == sorted@[nearest_rank(sorted@.len(), pct as nat) - 1],
{
    let n: u128 = sorted.len() as u128;
    assert(pct * n <= 255 * 0xffff_ffff_ffff_ffff) by (nonlinear_arith)
        requires
            0 <= pct <= 255,
            0 <= n <= 0xffff_ffff_ffff_ffff,
    ;
    let raw: u128 = (pct as u128 * n + 99) / 100;
    let rank: u128 = if raw < 1 {
        1
    } else if raw > n {
        n
    } else {
        raw
    };
    sorted[(rank - 1) as usize]
}

/// The `pct`-th percentile of `samples`, by nearest rank. Of no samples
/// there is no percentile.
pub fn percentile(samples: &Vec<u64>, pct: u8) -> (found: Result<u64, Error>)
    ensures
        found is Err <==> samples@.len() == 0,
        found matches Err(e) ==> e == Error::Aggregation,
        found matches Ok(value) ==> value == percentile_of(samples@, pct as nat),
{
    if samples.len() == 0 {
        return Err(Error::Aggregation);
    }
    let sorted = sorted_samples(samples);
    Ok(pick(&sorted, pct))
}

/// The smallest sample, the 50th and 90th percentile and the largest sample.
/// Of no samples there is no summary.
pub fn summarize(samples: &Vec<u64>) -> (found: Result<Summary, Error>)
    ensures
        found is Err <==> samples@.len() == 0,
        found matches Err(e) ==> e == Error::Aggregation,
        found matches Ok(summary) ==> summary == summary_of(samples@),
{
    if samples.len() == 0 {
        return Err(Error::Aggregation);
    }
    let sorted = sorted_samples(samples);
    Ok(
        Summary {
            min: pick(&sorted, 0),
            p50: pick(&sorted, 50),
            p90: pick(&sorted, 90),
            max: pick(&sorted, 100),
        },
    )
}

} // verus!
