//! Summary statistics of a finite set of projected score samples.
use crate::fixed::{Fixed, SAMPLE_LIMIT, SCALE};
use crate::ordering::{ascending, lemma_ascending_is, sort_ascending};
use crate::rounding::{
    div_round, div_round_i128, floor_sqrt, floor_sqrt_u128, is_floor_sqrt,
    lemma_div_round_between,
};
use std::collections::HashMap;
use vstd::prelude::*;

verus! {

/// The largest variance, in raw units, of a distribution whose standard
/// deviation is at most twice `SAMPLE_LIMIT`.
pub const VARIANCE_LIMIT: i64 = 4_000_000_000_000_000_000;

/// The sum of the samples, in raw units.
pub open spec fn sum_raw(s: Seq<Fixed>) -> int
    decreases s.len(),
{
    if s.len() == 0 {
        0
    } else {
        sum_raw(s.drop_last()) + s.last().raw
    }
}

/// The sum of the squared distances of the samples from `centre`.
pub open spec fn sum_squared_deviation(s: Seq<Fixed>, centre: int) -> int
    decreases s.len(),
{
    if s.len() == 0 {
        0
    } else {
        sum_squared_deviation(s.drop_last(), centre) + (s.last().raw - centre) * (s.last().raw
            - centre)
    }
}

/// The arithmetic mean of the samples, rounded to a whole raw unit.
pub open spec fn mean_of(s: Seq<Fixed>) -> int {
    div_round(sum_raw(s), s.len() as int)
}

/// The population variance of the samples (the squared deviations are
/// divided by the number of samples, not by one less), in squared raw units.
pub open spec fn variance_of(s: Seq<Fixed>) -> int {
    div_round(sum_squared_deviation(s, mean_of(s)), s.len() as int)
}

/// The population standard deviation of the samples, rounded down.
pub open spec fn std_dev_of(s: Seq<Fixed>) -> int {
    floor_sqrt(variance_of(s))
}

/// The smallest sample.
pub open spec fn smallest(s: Seq<Fixed>) -> int
    decreases s.len(),
{
    if s.len() <= 1 {
        s.last().raw as int
    } else if s.last().raw < smallest(s.drop_last()) {
        s.last().raw as int
    } else {
        smallest(s.drop_last())
    }
}

/// The largest sample.
pub open spec fn largest(s: Seq<Fixed>) -> int
    decreases s.len(),
{
    if s.len() <= 1 {
        s.last().raw as int
    } else if s.last().raw > largest(s.drop_last()) {
        s.last().raw as int
    } else {
        largest(s.drop_last())
    }
}

/// The index, among `n` samples in ascending order, of the sample that
/// stands for percentile `rank`: `rank / 100 * (n - 1)` rounded to the
/// nearest index, a half rounding up.
pub open spec fn percentile_position(rank: int, n: int) -> int {
    (rank * (n - 1) + 50) / 100
}

/// The value reported for percentile `rank`. The median of an even number of
/// samples is the mean of the two central samples; every other percentile is
/// the sample at `percentile_position`.
pub open spec fn percentile_of(s: Seq<Fixed>, rank: int) -> int {
    let sorted = ascending(s);
    let n = s.len() as int;
    if rank == 50 && n % 2 == 0 {
        div_round(sorted[n / 2 - 1].raw + sorted[n / 2].raw, 2)
    } else {
        sorted[percentile_position(rank, n)].raw as int
    }
}

/// The percentile ranks that every distribution tabulates.
pub open spec fn tabulated_ranks() -> Set<u8> {
    set![5u8, 10u8, 25u8, 50u8, 75u8, 90u8, 95u8]
}

/// How many samples satisfy `keep`.
pub open spec fn count_where(s: Seq<Fixed>, keep: spec_fn(Fixed) -> bool) -> int
    decreases s.len(),
{
    if s.len() == 0 {
        0
    } else {
        count_where(s.drop_last(), keep) + if keep(s.last()) {
            1int
        } else {
            0int
        }
    }
}

/// How many samples are strictly greater than `threshold`.
pub open spec fn count_above(s: Seq<Fixed>, threshold: int) -> int {
    count_where(s, |x: Fixed| x.raw > threshold)
}

/// How many samples are strictly less than `threshold`.
pub open spec fn count_below(s: Seq<Fixed>, threshold: int) -> int {
    count_where(s, |x: Fixed| x.raw < threshold)
}

/// How many samples are exactly `threshold`.
pub open spec fn count_equal(s: Seq<Fixed>, threshold: int) -> int {
    count_where(s, |x: Fixed| x.raw == threshold)
}

/// How many samples lie in the closed interval from `lower` to `upper`.
pub open spec fn count_between(s: Seq<Fixed>, lower: int, upper: int) -> int {
    count_where(s, |x: Fixed| lower <= x.raw <= upper)
}

/// The share `count / n` as a fixed-point number, rounded to the nearest raw
/// unit.
pub open spec fn frequency(count: int, n: int) -> int {
    div_round(count * SCALE, n)
}

/// The sample sets a distribution can be built from: at least one sample,
/// each within `SAMPLE_LIMIT` of zero.
pub open spec fn admissible(s: Seq<Fixed>) -> bool {
    &&& 0 < s.len()
    &&& forall|i: int| 0 <= i < s.len() ==> (#[trigger] s[i]).within(SAMPLE_LIMIT as int)
}

/// One more sample adds its value to the sum.
proof fn lemma_sum_step(s: Seq<Fixed>, i: int)
    requires
        0 <= i < s.len(),
    ensures
        sum_raw(s.take(i + 1)) == sum_raw(s.take(i)) + s[i].raw,
{
    assert(s.take(i + 1).drop_last() =~= s.take(i));
}

/// One more sample adds the square of its distance from the centre.
proof fn lemma_squared_deviation_step(s: Seq<Fixed>, i: int, centre: int)
    requires
        0 <= i < s.len(),
    ensures
        sum_squared_deviation(s.take(i + 1), centre) == sum_squared_deviation(s.take(i), centre)
            + (s[i].raw - centre) * (s[i].raw - centre),
{
    assert(s.take(i + 1).drop_last() =~= s.take(i));
}

/// One more sample adds one to the count if it is to be kept.
proof fn lemma_count_step(s: Seq<Fixed>, i: int, keep: spec_fn(Fixed) -> bool)
    requires
        0 <= i < s.len(),
    ensures
        count_where(s.take(i + 1), keep) == count_where(s.take(i), keep) + if keep(s[i]) {
            1int
        } else {
            0int
        },
{
    assert(s.take(i + 1).drop_last() =~= s.take(i));
}

/// Samples that all lie between `lo` and `hi` sum to between `lo * n` and
/// `hi * n`.
pub proof fn lemma_sum_between(s: Seq<Fixed>, lo: int, hi: int)
    requires
        forall|i: int| 0 <= i < s.len() ==> lo <= (#[trigger] s[i]).raw <= hi,
    ensures
        lo * s.len() <= sum_raw(s) <= hi * s.len(),
    decreases s.len(),
{
    if s.len() > 0 {
        let rest = s.drop_last();
        assert forall|i: int| 0 <= i < rest.len() implies lo <= (#[trigger] rest[i]).raw <= hi by {
            assert(rest[i] == s[i]);
        }
        lemma_sum_between(rest, lo, hi);
        assert(lo <= s.last().raw <= hi);
        assert(lo * s.len() == lo * rest.len() + lo) by (nonlinear_arith)
            requires
                s.len() == rest.len() + 1,
        ;
        assert(hi * s.len() == hi * rest.len() + hi) by (nonlinear_arith)
            requires
                s.len() == rest.len() + 1,
        ;
    }
}

/// Samples that all lie within `spread` of `centre` have squared deviations
/// that sum to at most `spread * spread * n`, and never to less than zero.
proof fn lemma_squared_deviation_between(s: Seq<Fixed>, centre: int, spread: int)
    requires
        forall|i: int| 0 <= i < s.len() ==> -spread <= (#[trigger] s[i]).raw - centre <= spread,
    ensures
        0 <= sum_squared_deviation(s, centre) <= spread * spread * s.len(),
    decreases s.len(),
{
    if s.len() > 0 {
        let rest = s.drop_last();
        assert forall|i: int| 0 <= i < rest.len() implies -spread <= (#[trigger] rest[i]).raw
            - centre <= spread by {
            assert(rest[i] == s[i]);
        }
        lemma_squared_deviation_between(rest, centre, spread);
        let d = s.last().raw - centre;
        assert(-spread <= d <= spread);
        assert(0 <= d * d <= spread * spread) by (nonlinear_arith)
            requires
                -spread <= d <= spread,
        ;
        assert(spread * spread * s.len() == spread * spread * rest.len() + spread * spread)
            by (nonlinear_arith)
            requires
                s.len() == rest.len() + 1,
        ;
    } else {
        assert(spread * spread * s.len() == 0) by (nonlinear_arith)
            requires
                s.len() == 0,
        ;
    }
}

/// A count of samples is never negative and never more than their number.
pub proof fn lemma_count_bounds(s: Seq<Fixed>, keep: spec_fn(Fixed) -> bool)
    ensures
        0 <= count_where(s, keep) <= s.len(),
    decreases s.len(),
{
    if s.len() > 0 {
        lemma_count_bounds(s.drop_last(), keep);
    }
}

/// Every sample is either above, below or exactly at a threshold.
pub proof fn lemma_count_partition(s: Seq<Fixed>, threshold: int)
    ensures
        count_above(s, threshold) + count_below(s, threshold) + count_equal(s, threshold)
            == s.len(),
    decreases s.len(),
{
    if s.len() > 0 {
        lemma_count_partition(s.drop_last(), threshold);
    }
}

/// `smallest` and `largest` bound every sample.
pub proof fn lemma_extremes_bound(s: Seq<Fixed>)
    requires
        s.len() > 0,
    ensures
        forall|i: int| 0 <= i < s.len() ==> smallest(s) <= (#[trigger] s[i]).raw <= largest(s),
    decreases s.len(),
{
    if s.len() > 1 {
        let rest = s.drop_last();
        lemma_extremes_bound(rest);
        assert forall|i: int| 0 <= i < s.len() implies smallest(s) <= (#[trigger] s[i]).raw
            <= largest(s) by {
            if i < rest.len() {
                assert(rest[i] == s[i]);
            }
        }
    }
}

/// The inputs that `ProbabilityDistribution::try_new` turns away.
#[derive(Clone, Copy, Debug, PartialEq, Eq, Structural)]
pub enum SampleError {
    /// There is no sample at all.
    Empty,
    /// Some sample is further than `SAMPLE_LIMIT` from zero.
    OutOfRange,
}

/// A finite set of projected scores for one team, with its summary
/// statistics.
#[derive(Clone, Debug, PartialEq)]
pub struct ProbabilityDistribution {
    pub mean: Fixed,
    pub std_dev: Fixed,
    pub samples: Vec<Fixed>,
    pub percentiles: HashMap<u8, Fixed>,
}

/// Two to the power of 64: the weight of the upper half of a sum that is
/// kept in two halves.
const HALF_RANGE: u128 = 0x1_0000_0000_0000_0000;

/// The sum of the samples.
fn total_of(samples: &Vec<Fixed>) -> (total: i128)
    requires
        forall|i: int| 0 <= i < samples@.len() ==> (#[trigger] samples@[i]).within(SAMPLE_LIMIT as int),
    ensures
        total == sum_raw(samples@),
{
    let n = samples.len();
    let mut total: i128 = 0;
    let mut i: usize = 0;
    while i < n
        invariant
            i <= n == samples@.len(),
            forall|k: int|
                0 <= k < samples@.len() ==> (#[trigger] samples@[k]).within(SAMPLE_LIMIT as int),
            total == sum_raw(samples@.take(i as int)),
            -1_000_000_000_000 * i <= total <= 1_000_000_000_000 * i,
        decreases n - i,
    {
        proof {
            lemma_sum_step(samples@, i as int);
            assert(samples@[i as int].within(SAMPLE_LIMIT as int));
        }
        total = total + samples[i].raw as i128;
        i = i + 1;
    }
    assert(samples@.take(i as int) =~= samples@);
    total
}

/// The sum of the squared distances of the samples from `centre`, in two
/// halves: the sum is `upper * 2^64 + lower`. One number could not hold the
/// sum of as many squares as a vector may have samples.
fn squared_deviation_total(samples: &Vec<Fixed>, centre: i64) -> (total: (u128, u128))
    requires
        forall|i: int| 0 <= i < samples@.len() ==> (#[trigger] samples@[i]).within(SAMPLE_LIMIT as int),
        -SAMPLE_LIMIT <= centre <= SAMPLE_LIMIT,
    ensures
        total.0 * HALF_RANGE + total.1 == sum_squared_deviation(samples@, centre as int),
        total.1 < HALF_RANGE,
{
    let n = samples.len();
    let mut upper: u128 = 0;
    let mut lower: u128 = 0;
    let mut i: usize = 0;
    while i < n
        invariant
            i <= n == samples@.len(),
            forall|k: int|
                0 <= k < samples@.len() ==> (#[trigger] samples@[k]).within(SAMPLE_LIMIT as int),
            -SAMPLE_LIMIT <= centre <= SAMPLE_LIMIT,
            upper * 0x1_0000_0000_0000_0000 + lower == sum_squared_deviation(
                samples@.take(i as int),
                centre as int,
            ),
            lower < 0x1_0000_0000_0000_0000,
            upper * 0x1_0000_0000_0000_0000 + lower <= 4_000_000_000_000_000_000_000_000 * i,
        decreases n - i,
    {
        proof {
            lemma_squared_deviation_step(samples@, i as int, centre as int);
            assert(samples@[i as int].within(SAMPLE_LIMIT as int));
        }
        let d: i128 = samples[i].raw as i128 - centre as i128;
        assert(0 <= d * d <= 4_000_000_000_000_000_000_000_000) by (nonlinear_arith)
            requires
                -2_000_000_000_000 <= d <= 2_000_000_000_000,
        ;
        let square: u128 = (d * d) as u128;
        let low_sum: u128 = lower + square % HALF_RANGE;
        lower = low_sum % HALF_RANGE;
        upper = upper + square / HALF_RANGE + low_sum / HALF_RANGE;
        i = i + 1;
    }
    assert(samples@.take(i as int) =~= samples@);
    (upper, lower)
}

/// The mean of `count` squares whose sum is `upper * 2^64 + lower`, rounded
/// to the nearest integer, ties to even.
fn mean_square(upper: u128, lower: u128, count: usize) -> (mean: u128)
    requires
        count > 0,
        lower < HALF_RANGE,
        upper * HALF_RANGE + lower <= 4_000_000_000_000_000_000_000_000 * count,
    ensures
        mean == div_round(upper * HALF_RANGE + lower, count as int),
        mean <= 4_000_000_000_000_000_000_000_000,
{
    let n: u128 = count as u128;
    let ghost sum: int = upper * HALF_RANGE + lower;
    // long division, upper half first
    let q1: u128 = upper / n;
    let r1: u128 = upper % n;
    assert(r1 * 0x1_0000_0000_0000_0000 + lower < n * 0x1_0000_0000_0000_0000) by (nonlinear_arith)
        requires
            r1 < n,
            lower < 0x1_0000_0000_0000_0000,
    ;
    assert(n * 0x1_0000_0000_0000_0000 <= 0xffff_ffff_ffff_ffff * 0x1_0000_0000_0000_0000)
        by (nonlinear_arith)
        requires
            n <= 0xffff_ffff_ffff_ffff,
    ;
    let rest: u128 = r1 * HALF_RANGE + lower;
    let q0: u128 = rest / n;
    let r0: u128 = rest % n;
    proof {
        vstd::arithmetic::div_mod::lemma_fundamental_div_mod(upper as int, n as int);
        vstd::arithmetic::div_mod::lemma_fundamental_div_mod(rest as int, n as int);
        assert(sum == n * (q1 * 0x1_0000_0000_0000_0000 + q0) + r0) by (nonlinear_arith)
            requires
                sum == upper * 0x1_0000_0000_0000_0000 + lower,
                upper == n * q1 + r1,
                rest == r1 * 0x1_0000_0000_0000_0000 + lower,
                rest == n * q0 + r0,
        ;
        assert(q1 * 0x1_0000_0000_0000_0000 + q0 <= 4_000_000_000_000_000_000_000_000)
            by (nonlinear_arith)
            requires
                sum == n * (q1 * 0x1_0000_0000_0000_0000 + q0) + r0,
                sum <= 4_000_000_000_000_000_000_000_000 * n,
                n > 0,
                r0 >= 0,
                q1 >= 0,
                q0 >= 0,
        ;
        assert(q1 * 0x1_0000_0000_0000_0000 <= q1 * 0x1_0000_0000_0000_0000 + q0);
        vstd::arithmetic::div_mod::lemma_fundamental_div_mod_converse(
            sum,
            n as int,
            q1 * 0x1_0000_0000_0000_0000 + q0,
            r0 as int,
        );
    }
    let quotient: u128 = q1 * HALF_RANGE + q0;
    let up = r0 > n - r0 || (r0 == n - r0 && quotient % 2 != 0);
    proof {
        lemma_div_round_between(sum, n as int, 0, 4_000_000_000_000_000_000_000_000);
    }
    if up {
        quotient + 1
    } else {
        quotient
    }
}

/// The value at percentile `rank` of samples already in ascending order.
fn percentile_value(sorted: &Vec<Fixed>, rank: u8) -> (value: Fixed)
    requires
        sorted@.len() > 0,
        rank <= 100,
    ensures
        value.raw == if rank == 50 && sorted@.len() % 2 == 0 {
            div_round(
                sorted@[sorted@.len() / 2 - 1].raw + sorted@[sorted@.len() as int / 2].raw,
                2,
            )
        } else {
            sorted@[percentile_position(rank as int, sorted@.len() as int)].raw as int
        },
{
    let n = sorted.len();
    if rank == 50 && n % 2 == 0 {
        let low = sorted[n / 2 - 1].raw;
        let high = sorted[n / 2].raw;
        let pair: i128 = low as i128 + high as i128;
        proof {
            lemma_div_round_between(pair as int, 2, i64::MIN as int, i64::MAX as int);
        }
        Fixed { raw: div_round_i128(pair, 2) as i64 }
    } else {
        let span: u128 = (n - 1) as u128;
        assert(rank * span <= 100 * span) by (nonlinear_arith)
            requires
                rank <= 100,
                span >= 0,
        ;
        let position: u128 = (rank as u128 * span + 50) / 100;
        sorted[position as usize]
    }
}

/// Whether a sample set can be summarized, and if not, why.
fn check_samples(samples: &Vec<Fixed>) -> (verdict: Result<(), SampleError>)
    ensures
        verdict is Ok <==> admissible(samples@),
        verdict == Err::<(), SampleError>(SampleError::Empty) <==> samples@.len() == 0,
{
    if samples.len() == 0 {
        return Err(SampleError::Empty);
    }
    let mut i: usize = 0;
    while i < samples.len()
        invariant
            i <= samples@.len(),
            forall|k: int| 0 <= k < i ==> (#[trigger] samples@[k]).within(SAMPLE_LIMIT as int),
        decreases samples@.len() - i,
    {
        if !samples[i].is_within(SAMPLE_LIMIT) {
            return Err(SampleError::OutOfRange);
        }
        i = i + 1;
    }
    Ok(())
}

impl ProbabilityDistribution {
    /// The summary statistics are those of the samples: the mean, the
    /// population standard deviation, and one tabulated value for each of
    /// the ranks 5, 10, 25, 50, 75, 90 and 95.
    pub open spec fn summarizes(&self) -> bool {
        &&& self.samples@.len() > 0
        &&& self.mean.raw == mean_of(self.samples@)
        &&& self.std_dev.raw == std_dev_of(self.samples@)
        &&& self.percentiles@.dom() == tabulated_ranks()
        &&& forall|rank: u8| #[trigger]
            tabulated_ranks().contains(rank) ==> self.percentiles@[rank].raw == percentile_of(
                self.samples@,
                rank as int,
            )
    }

    /// The mean is within `SAMPLE_LIMIT` of zero and the standard deviation
    /// lies between zero and twice that limit.
    pub open spec fn moments_in_range(&self) -> bool {
        &&& self.mean.within(SAMPLE_LIMIT as int)
        &&& 0 <= self.std_dev.raw <= 2 * SAMPLE_LIMIT
    }

    /// Summarizes a non-empty set of samples.
    pub fn new(samples: Vec<Fixed>) -> (dist: Self)
        requires
            admissible(samples@),
        ensures
            dist.samples@ == samples@,
            dist.summarizes(),
            dist.moments_in_range(),
            smallest(samples@) <= dist.mean.raw <= largest(samples@),
            is_floor_sqrt(dist.std_dev.raw as int, variance_of(samples@)),
    {
        broadcast use vstd::std_specs::hash::group_hash_axioms;

        let n: i128 = samples.len() as i128;
        let total = total_of(&samples);
        proof {
            lemma_sum_between(samples@, -SAMPLE_LIMIT as int, SAMPLE_LIMIT as int);
            lemma_div_round_between(total as int, n as int, -SAMPLE_LIMIT as int, SAMPLE_LIMIT as int);
            lemma_extremes_bound(samples@);
            lemma_sum_between(samples@, smallest(samples@), largest(samples@));
            lemma_div_round_between(total as int, n as int, smallest(samples@), largest(samples@));
        }
        let mean: i64 = div_round_i128(total, n) as i64;
        let (upper, lower) = squared_deviation_total(&samples, mean);
        proof {
            lemma_squared_deviation_between(samples@, mean as int, 2 * SAMPLE_LIMIT);
        }
        let variance: u128 = mean_square(upper, lower, samples.len());
        let root: u64 = floor_sqrt_u128(variance);
        assert(root <= 2_000_000_000_000) by (nonlinear_arith)
            requires
                root * root <= variance,
                variance <= 4_000_000_000_000_000_000_000_000,
                root >= 0,
        ;
        let sorted = sort_ascending(&samples);
        let mut percentiles: HashMap<u8, Fixed> = HashMap::new();
        percentiles.insert(5, percentile_value(&sorted, 5));
        percentiles.insert(10, percentile_value(&sorted, 10));
        percentiles.insert(25, percentile_value(&sorted, 25));
        percentiles.insert(50, percentile_value(&sorted, 50));
        percentiles.insert(75, percentile_value(&sorted, 75));
        percentiles.insert(90, percentile_value(&sorted, 90));
        percentiles.insert(95, percentile_value(&sorted, 95));
        assert(percentiles@.dom() =~= tabulated_ranks());
        ProbabilityDistribution {
            mean: Fixed { raw: mean },
            std_dev: Fixed { raw: root as i64 },
            samples,
            percentiles,
        }
    }

    /// Summarizes a set of samples, or says why it cannot be summarized.
    pub fn try_new(samples: Vec<Fixed>) -> (outcome: Result<Self, SampleError>)
        ensures
            outcome is Ok <==> admissible(samples@),
            outcome matches Ok(dist) ==> dist.samples@ == samples@ && dist.summarizes()
                && dist.moments_in_range(),
            outcome matches Err(e) ==> (e == SampleError::Empty <==> samples@.len() == 0),
    {
        match check_samples(&samples) {
            Ok(()) => Ok(Self::new(samples)),
            Err(e) => Err(e),
        }
    }

    /// The square of the standard deviation.
    pub fn variance(&self) -> (v: Fixed)
        requires
            self.std_dev.within(2 * SAMPLE_LIMIT),
        ensures
            v.raw == div_round(self.std_dev.raw * self.std_dev.raw, SCALE as int),
            0 <= v.raw <= VARIANCE_LIMIT,
    {
        let s: i128 = self.std_dev.raw as i128;
        assert(0 <= s * s <= 4_000_000_000_000_000_000 * 1_000_000) by (nonlinear_arith)
            requires
                -2_000_000_000_000 <= s <= 2_000_000_000_000,
        ;
        proof {
            lemma_div_round_between((s * s) as int, SCALE as int, 0, 4_000_000_000_000_000_000);
        }
        Fixed { raw: div_round_i128(s * s, SCALE as i128) as i64 }
    }

    /// The tabulated value for percentile `rank`, if that rank is tabulated.
    pub fn get_percentile(&self, percentile: u8) -> (value: Option<Fixed>)
        ensures
            value == if self.percentiles@.contains_key(percentile) {
                Some(self.percentiles@[percentile])
            } else {
                None
            },
    {
        broadcast use vstd::std_specs::hash::group_hash_axioms;

        match self.percentiles.get(&percentile) {
            Some(v) => Some(*v),
            None => None,
        }
    }

    /// The share of samples strictly greater than `threshold`.
    pub fn probability_above(&self, threshold: Fixed) -> (p: Fixed)
        requires
            self.samples@.len() > 0,
        ensures
            p.raw == frequency(
                count_above(self.samples@, threshold.raw as int),
                self.samples@.len() as int,
            ),
            0 <= p.raw <= SCALE,
    {
        let hits = self.tally_above(threshold);
        share(hits, self.samples.len())
    }

    /// The share of samples strictly less than `threshold`.
    pub fn probability_below(&self, threshold: Fixed) -> (p: Fixed)
        requires
            self.samples@.len() > 0,
        ensures
            p.raw == frequency(
                count_below(self.samples@, threshold.raw as int),
                self.samples@.len() as int,
            ),
            0 <= p.raw <= SCALE,
    {
        let hits = self.tally_below(threshold);
        share(hits, self.samples.len())
    }

    /// The share of samples that lie in the closed interval from `lower` to
    /// `upper`.
    pub fn probability_between(&self, lower: Fixed, upper: Fixed) -> (p: Fixed)
        requires
            self.samples@.len() > 0,
        ensures
            p.raw == frequency(
                count_between(self.samples@, lower.raw as int, upper.raw as int),
                self.samples@.len() as int,
            ),
            0 <= p.raw <= SCALE,
    {
        let hits = self.tally_between(lower, upper);
        share(hits, self.samples.len())
    }

    /// How many samples are strictly greater than `threshold`.
    fn tally_above(&self, threshold: Fixed) -> (hits: usize)
        ensures
            hits == count_above(self.samples@, threshold.raw as int),
            hits <= self.samples@.len(),
    {
        let mut hits: usize = 0;
        let mut i: usize = 0;
        while i < self.samples.len()
            invariant
                i <= self.samples@.len(),
                hits <= i,
                hits == count_above(self.samples@.take(i as int), threshold.raw as int),
            decreases self.samples@.len() - i,
        {
            proof {
                lemma_count_step(self.samples@, i as int, |x: Fixed| x.raw > threshold.raw);
            }
            if self.samples[i].raw > threshold.raw {
                hits = hits + 1;
            }
            i = i + 1;
        }
        assert(self.samples@.take(i as int) =~= self.samples@);
        hits
    }

    /// How many samples are strictly less than `threshold`.
    fn tally_below(&self, threshold: Fixed) -> (hits: usize)
        ensures
            hits == count_below(self.samples@, threshold.raw as int),
            hits <= self.samples@.len(),
    {
        let mut hits: usize = 0;
        let mut i: usize = 0;
        while i < self.samples.len()
            invariant
                i <= self.samples@.len(),
                hits <= i,
                hits == count_below(self.samples@.take(i as int), threshold.raw as int),
            decreases self.samples@.len() - i,
        {
            proof {
                lemma_count_step(self.samples@, i as int, |x: Fixed| x.raw < threshold.raw);
            }
            if self.samples[i].raw < threshold.raw {
                hits = hits + 1;
            }
            i = i + 1;
        }
        assert(self.samples@.take(i as int) =~= self.samples@);
        hits
    }

    /// How many samples lie between `lower` and `upper`, both included.
    fn tally_between(&self, lower: Fixed, upper: Fixed) -> (hits: usize)
        ensures
            hits == count_between(self.samples@, lower.raw as int, upper.raw as int),
            hits <= self.samples@.len(),
    {
        let mut hits: usize = 0;
        let mut i: usize = 0;
        while i < self.samples.len()
            invariant
                i <= self.samples@.len(),
                hits <= i,
                hits == count_between(
                    self.samples@.take(i as int),
                    lower.raw as int,
                    upper.raw as int,
                ),
            decreases self.samples@.len() - i,
        {
            proof {
                lemma_count_step(
                    self.samples@,
                    i as int,
                    |x: Fixed| lower.raw <= x.raw <= upper.raw,
                );
            }
            if lower.raw <= self.samples[i].raw && self.samples[i].raw <= upper.raw {
                hits = hits + 1;
            }
            i = i + 1;
        }
        assert(self.samples@.take(i as int) =~= self.samples@);
        hits
    }
}

/// `hits / n` as a fixed-point share.
fn share(hits: usize, n: usize) -> (p: Fixed)
    requires
        hits <= n,
        n > 0,
    ensures
        p.raw == frequency(hits as int, n as int),
        0 <= p.raw <= SCALE,
{
    assert(0 <= hits * SCALE <= n * SCALE) by (nonlinear_arith)
        requires
            0 <= hits <= n,
            SCALE > 0,
    ;
    proof {
        lemma_div_round_between((hits * SCALE) as int, n as int, 0, SCALE as int);
    }
    Fixed { raw: div_round_i128(hits as i128 * SCALE as i128, n as i128) as i64 }
}

} // verus!
