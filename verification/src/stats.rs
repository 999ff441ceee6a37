use vstd::prelude::*;
use vstd::arithmetic::div_mod::{
    lemma_div_by_multiple_is_strongly_ordered,
    lemma_div_is_ordered,
    lemma_div_multiples_vanish_fancy,
    lemma_div_pos_is_pos,
    lemma_basic_div,
    lemma_div_denominator,
    lemma_div_multiples_vanish,
    lemma_fundamental_div_mod,
    lemma_mod_pos_bound,
};

verus! {

/// `a / t` rounded to the nearest integer, halves rounded away from zero
/// (the rounding of `f64::round`); `t` is positive.
pub open spec fn round_half_away(a: int, t: int) -> int {
    if a >= 0 {
        (2 * a + t) / (2 * t)
    } else {
        -((t - 2 * a) / (2 * t))
    }
}

/// Saturates an integer into the range of `i32`, as a float-to-`i32` cast does.
pub open spec fn clamp_to_i32(x: int) -> int {
    if x > i32::MAX {
        i32::MAX as int
    } else if x < i32::MIN {
        i32::MIN as int
    } else {
        x
    }
}

/// The Net Promoter Score: the share of promoters minus the share of
/// detractors, in percent, rounded to a whole number; 0 when there are no
/// answers.
pub open spec fn nps_of(promoters: int, detractors: int, total: int) -> int {
    if total == 0 {
        0
    } else {
        clamp_to_i32(round_half_away(100 * (promoters - detractors), total))
    }
}

/// A count as a share of a total, in tenths of a percent, rounded to the
/// nearest tenth; 0 when the total is 0.
pub open spec fn pct_tenths_of(count: int, total: int) -> int {
    if total == 0 {
        0
    } else {
        round_half_away(1000 * count, total)
    }
}

/// Net Promoter Score of `promoters` and `detractors` among `total` answers.
///
/// The percentage difference is rounded exactly, halves away from zero, in
/// integer arithmetic. A computation in `f64` can land a hair short of an
/// exact half (such as -12.5 for 1 promoter and 4 detractors among 24) and
/// round it the other way; here it cannot.
pub fn calculate_nps(promoters: u64, detractors: u64, total: u64) -> (r: i32)
    ensures
        r == nps_of(promoters as int, detractors as int, total as int),
        total == 0 ==> r == 0,
        0 < total && promoters <= total && detractors <= total ==> {
            &&& promoters >= detractors ==> 200 * (promoters - detractors) - total < 2 * total * r
                <= 200 * (promoters - detractors) + total
            &&& promoters < detractors ==> 200 * (promoters - detractors) - total <= 2 * total * r
                < 200 * (promoters - detractors) + total
        },
{
    proof {
        if promoters <= total && detractors <= total {
            lemma_nps_rounds_to_nearest(promoters as int, detractors as int, total as int);
        }
    }
    if total == 0 {
        return 0;
    }
    let p: u128 = promoters as u128 * 100;
    let d: u128 = detractors as u128 * 100;
    let t: u128 = total as u128;
    if p >= d {
        let q: u128 = (2 * (p - d) + t) / (2 * t);
        if q > 2147483647 {
            i32::MAX
        } else {
            q as i32
        }
    } else {
        let q: u128 = (2 * (d - p) + t) / (2 * t);
        if q >= 2147483648 {
            i32::MIN
        } else {
            -(q as i32)
        }
    }
}

/// Share of `count` in `total`, in tenths of a percent (so 1000 is 100%),
/// rounded exactly, halves up. Divided by ten it is the percentage with one
/// decimal that the dashboard shows.
pub fn percentage_tenths(count: u64, total: u64) -> (r: u128)
    ensures
        r == pct_tenths_of(count as int, total as int),
        total == 0 ==> r == 0,
        total > 0 ==> 2000 * count - total < 2 * total * r <= 2000 * count + total,
{
    proof {
        lemma_percentage_rounds_to_nearest(count as int, total as int);
    }
    if total == 0 {
        return 0;
    }
    let c: u128 = count as u128 * 1000;
    let t: u128 = total as u128;
    (2 * c + t) / (2 * t)
}

/// The three groups into which NPS splits its 0 to 10 answers.
#[derive(Debug, Clone, Copy, PartialEq, Eq, Structural)]
pub enum ScoreBand {
    Promoter,
    Passive,
    Detractor,
}

/// The group of a score: 9 and above promote, 7 and 8 are passive, 6 and
/// below detract.
pub open spec fn band_of(score: int) -> ScoreBand {
    if score >= 9 {
        ScoreBand::Promoter
    } else if score >= 7 {
        ScoreBand::Passive
    } else {
        ScoreBand::Detractor
    }
}

/// An inclusive range of scores; a missing end is unbounded.
#[derive(Debug, Clone, Copy, PartialEq, Eq, Structural)]
pub struct ScoreRange {
    pub min: Option<i32>,
    pub max: Option<i32>,
}

impl ScoreRange {
    pub open spec fn contains(self, score: int) -> bool {
        &&& (self.min matches Some(lo) ==> lo <= score)
        &&& (self.max matches Some(hi) ==> score <= hi)
    }
}

impl ScoreBand {
    pub open spec fn spec_range(self) -> ScoreRange {
        match self {
            ScoreBand::Promoter => ScoreRange { min: Some(9), max: None },
            ScoreBand::Passive => ScoreRange { min: Some(7), max: Some(8) },
            ScoreBand::Detractor => ScoreRange { min: None, max: Some(6) },
        }
    }

    /// The scores of this group, as a range for a store query.
    pub fn range(&self) -> (r: ScoreRange)
        ensures
            r == self.spec_range(),
    {
        match self {
            ScoreBand::Promoter => ScoreRange { min: Some(9), max: None },
            ScoreBand::Passive => ScoreRange { min: Some(7), max: Some(8) },
            ScoreBand::Detractor => ScoreRange { min: None, max: Some(6) },
        }
    }
}

/// Every score lies in the range of exactly one group, the group it belongs to.
pub proof fn lemma_bands_partition(score: int, band: ScoreBand)
    ensures
        band.spec_range().contains(score) <==> band_of(score) == band,
{
}

/// How many of `scores` fall in `band`.
pub open spec fn band_count(scores: Seq<int>, band: ScoreBand) -> nat
    decreases scores.len(),
{
    if scores.len() == 0 {
        0
    } else {
        band_count(scores.drop_last(), band) + if band_of(scores.last()) == band {
            1nat
        } else {
            0nat
        }
    }
}

/// Every answer is a promoter, a passive or a detractor: the three counts
/// add up to the number of answers.
pub proof fn lemma_band_counts_add_up(scores: Seq<int>)
    ensures
        band_count(scores, ScoreBand::Promoter) + band_count(scores, ScoreBand::Passive)
            + band_count(scores, ScoreBand::Detractor) == scores.len(),
    decreases scores.len(),
{
    if scores.len() > 0 {
        lemma_band_counts_add_up(scores.drop_last());
    }
}

/// The score of any set of answers lies between -100 and 100.
pub proof fn lemma_nps_of_scores_bounded(scores: Seq<int>)
    ensures
        -100 <= nps_of(
            band_count(scores, ScoreBand::Promoter) as int,
            band_count(scores, ScoreBand::Detractor) as int,
            scores.len() as int,
        ) <= 100,
{
    lemma_band_counts_add_up(scores);
    lemma_nps_bounds(
        band_count(scores, ScoreBand::Promoter) as int,
        band_count(scores, ScoreBand::Detractor) as int,
        scores.len() as int,
    );
}

/// Dashboard figures for a set of answers.
#[derive(Debug, Clone, Copy, PartialEq, Eq, Structural)]
pub struct NpsStats {
    pub total: u64,
    pub promoters: u64,
    pub passives: u64,
    pub detractors: u64,
    pub nps: i32,
    pub promoter_pct_tenths: u128,
    pub passive_pct_tenths: u128,
    pub detractor_pct_tenths: u128,
}

/// Builds the dashboard figures from the answer counts of each group.
pub fn build_stats(total: u64, promoters: u64, passives: u64, detractors: u64) -> (s: NpsStats)
    ensures
        s.total == total,
        s.promoters == promoters,
        s.passives == passives,
        s.detractors == detractors,
        s.nps == nps_of(promoters as int, detractors as int, total as int),
        s.promoter_pct_tenths == pct_tenths_of(promoters as int, total as int),
        s.passive_pct_tenths == pct_tenths_of(passives as int, total as int),
        s.detractor_pct_tenths == pct_tenths_of(detractors as int, total as int),
{
    NpsStats {
        total,
        promoters,
        passives,
        detractors,
        nps: calculate_nps(promoters, detractors, total),
        promoter_pct_tenths: percentage_tenths(promoters, total),
        passive_pct_tenths: percentage_tenths(passives, total),
        detractor_pct_tenths: percentage_tenths(detractors, total),
    }
}

/// `round_half_away(a, t)` is an integer nearest to `a / t`: within half of
/// it, with a tie going away from zero.
proof fn lemma_round_nearest(a: int, t: int)
    requires
        t > 0,
    ensures
        a >= 0 ==> 2 * a - t < 2 * t * round_half_away(a, t) <= 2 * a + t,
        a < 0 ==> 2 * a - t <= 2 * t * round_half_away(a, t) < 2 * a + t,
{
    if a >= 0 {
        let x = 2 * a + t;
        let q = x / (2 * t);
        lemma_fundamental_div_mod(x, 2 * t);
        lemma_mod_pos_bound(x, 2 * t);
        assert(2 * t * q == (2 * t) * q) by (nonlinear_arith);
    } else {
        let x = t - 2 * a;
        let q = x / (2 * t);
        lemma_fundamental_div_mod(x, 2 * t);
        lemma_mod_pos_bound(x, 2 * t);
        assert(2 * t * (-q) == -((2 * t) * q)) by (nonlinear_arith);
    }
}

/// The share in tenths of a percent is the integer nearest to
/// `1000 * count / total` (halves rounded up): twice the total times the
/// result lies within one total of `2000 * count`.
pub proof fn lemma_percentage_rounds_to_nearest(count: int, total: int)
    requires
        count >= 0,
    ensures
        total == 0 ==> pct_tenths_of(count, total) == 0,
        total > 0 ==> 2000 * count - total < 2 * total * pct_tenths_of(count, total) <= 2000
            * count + total,
{
    if total > 0 {
        lemma_round_nearest(1000 * count, total);
    }
}

/// The score is the whole number nearest to the percentage difference
/// `100 * (promoters - detractors) / total`, halves rounded away from zero:
/// twice the total times the score lies within one total of
/// `200 * (promoters - detractors)`.
pub proof fn lemma_nps_rounds_to_nearest(promoters: int, detractors: int, total: int)
    requires
        0 <= promoters <= total,
        0 <= detractors <= total,
    ensures
        total == 0 ==> nps_of(promoters, detractors, total) == 0,
        total > 0 && promoters >= detractors ==> 200 * (promoters - detractors) - total < 2 * total
            * nps_of(promoters, detractors, total) <= 200 * (promoters - detractors) + total,
        total > 0 && promoters < detractors ==> 200 * (promoters - detractors) - total <= 2 * total
            * nps_of(promoters, detractors, total) < 200 * (promoters - detractors) + total,
{
    if total > 0 {
        lemma_nps_bounds(promoters, detractors, total);
        let a = 100 * (promoters - detractors);
        lemma_round_nearest(a, total);
        if a >= 0 {
            lemma_round_upper(a, total, 100);
        } else {
            lemma_round_upper(-a, total, 100);
            lemma_round_odd(-a, total);
        }
    }
}

/// For `0 <= a <= k * t`, the rounded quotient lies in `0 ..= k`, and is `k`
/// when `a` is `k * t`.
proof fn lemma_round_upper(a: int, t: int, k: int)
    requires
        t > 0,
        k >= 0,
        0 <= a <= k * t,
    ensures
        0 <= round_half_away(a, t) <= k,
        a == k * t ==> round_half_away(a, t) == k,
{
    let x = 2 * a + t;
    lemma_div_pos_is_pos(x, 2 * t);
    assert(x < (k + 1) * (2 * t)) by (nonlinear_arith)
        requires
            x == 2 * a + t,
            a <= k * t,
            t > 0,
    ;
    lemma_div_by_multiple_is_strongly_ordered(x, (k + 1) * (2 * t), k + 1, 2 * t);
    lemma_div_multiples_vanish_fancy(k + 1, 0, 2 * t);
    assert((2 * t) * (k + 1) == (k + 1) * (2 * t)) by (nonlinear_arith);
    if a == k * t {
        assert(x == (2 * t) * k + t) by (nonlinear_arith)
            requires
                x == 2 * a + t,
                a == k * t,
        ;
        lemma_div_multiples_vanish_fancy(k, t, 2 * t);
    }
}

/// Rounding is odd: negating the numerator negates the result.
proof fn lemma_round_odd(a: int, t: int)
    requires
        t > 0,
    ensures
        round_half_away(-a, t) == -round_half_away(a, t),
{
    if a == 0 {
        lemma_basic_div(t, 2 * t);
    }
}

/// Rounding is monotonic in the numerator.
proof fn lemma_round_monotonic(a: int, b: int, t: int)
    requires
        t > 0,
        a <= b,
    ensures
        round_half_away(a, t) <= round_half_away(b, t),
{
    if a >= 0 {
        lemma_div_is_ordered(2 * a + t, 2 * b + t, 2 * t);
    } else if b < 0 {
        lemma_div_is_ordered(t - 2 * b, t - 2 * a, 2 * t);
    } else {
        lemma_div_pos_is_pos(t - 2 * a, 2 * t);
        lemma_div_pos_is_pos(2 * b + t, 2 * t);
    }
}

/// `(k * x) / (k * y) == x / y` for a nonnegative `x` and positive `y`, `k`.
proof fn lemma_div_cancel(x: int, y: int, k: int)
    requires
        x >= 0,
        y > 0,
        k >= 1,
    ensures
        (k * x) / (k * y) == x / y,
{
    assert(k * x >= 0) by (nonlinear_arith)
        requires
            x >= 0,
            k >= 1,
    ;
    lemma_div_denominator(k * x, k, y);
    lemma_div_multiples_vanish(x, k);
}

/// Scaling numerator and denominator alike leaves the rounded quotient unchanged.
proof fn lemma_round_scaled(a: int, t: int, k: int)
    requires
        t > 0,
        k >= 1,
    ensures
        round_half_away(k * a, k * t) == round_half_away(a, t),
{
    assert(2 * (k * t) == k * (2 * t)) by (nonlinear_arith);
    assert(k * t > 0) by (nonlinear_arith)
        requires
            t > 0,
            k >= 1,
    ;
    if a >= 0 {
        assert(k * a >= 0) by (nonlinear_arith)
            requires
                a >= 0,
                k >= 1,
        ;
        assert(2 * (k * a) + k * t == k * (2 * a + t)) by (nonlinear_arith);
        lemma_div_cancel(2 * a + t, 2 * t, k);
    } else {
        assert(k * a < 0) by (nonlinear_arith)
            requires
                a < 0,
                k >= 1,
        ;
        assert(k * t - 2 * (k * a) == k * (t - 2 * a)) by (nonlinear_arith);
        lemma_div_cancel(t - 2 * a, 2 * t, k);
    }
}

/// The score depends only on the proportions: multiplying promoters,
/// detractors and total by the same factor leaves it unchanged.
pub proof fn lemma_nps_scale_invariant(promoters: int, detractors: int, total: int, k: int)
    requires
        total >= 0,
        k >= 1,
    ensures
        nps_of(k * promoters, k * detractors, k * total) == nps_of(promoters, detractors, total),
{
    if total > 0 {
        assert(100 * (k * promoters - k * detractors) == k * (100 * (promoters - detractors)))
            by (nonlinear_arith);
        assert(k * total > 0) by (nonlinear_arith)
            requires
                total > 0,
                k >= 1,
        ;
        lemma_round_scaled(100 * (promoters - detractors), total, k);
    } else {
        assert(k * total == 0) by (nonlinear_arith)
            requires
                total == 0,
        ;
    }
}

/// When promoters and detractors are among the answers, the score lies
/// between -100 and 100; all promoters give 100 and all detractors -100.
pub proof fn lemma_nps_bounds(promoters: int, detractors: int, total: int)
    requires
        0 <= promoters <= total,
        0 <= detractors <= total,
    ensures
        -100 <= nps_of(promoters, detractors, total) <= 100,
        total > 0 && promoters == total && detractors == 0 ==> nps_of(promoters, detractors, total) == 100,
        total > 0 && detractors == total && promoters == 0 ==> nps_of(promoters, detractors, total) == -100,
{
    if total > 0 {
        let a = 100 * (promoters - detractors);
        if a >= 0 {
            lemma_round_upper(a, total, 100);
        } else {
            lemma_round_upper(-a, total, 100);
            lemma_round_odd(-a, total);
        }
    }
}

/// Swapping promoters and detractors negates the score.
pub proof fn lemma_nps_antisymmetric(promoters: int, detractors: int, total: int)
    requires
        0 <= promoters <= total,
        0 <= detractors <= total,
    ensures
        nps_of(detractors, promoters, total) == -nps_of(promoters, detractors, total),
{
    if total > 0 {
        lemma_nps_bounds(promoters, detractors, total);
        lemma_nps_bounds(detractors, promoters, total);
        lemma_round_odd(100 * (promoters - detractors), total);
        assert(100 * (detractors - promoters) == -(100 * (promoters - detractors)));
    }
}

/// More promoters never lower the score, and more detractors never raise it.
pub proof fn lemma_nps_monotonic(p1: int, p2: int, d1: int, d2: int, total: int)
    requires
        total >= 0,
        p1 <= p2,
        d2 <= d1,
    ensures
        nps_of(p1, d1, total) <= nps_of(p2, d2, total),
{
    if total > 0 {
        lemma_round_monotonic(100 * (p1 - d1), 100 * (p2 - d2), total);
    }
}

/// A share of a part of the total lies between 0% and 100%, and the whole
/// total is 100%.
pub proof fn lemma_percentage_bounds(count: int, total: int)
    requires
        0 <= count <= total,
    ensures
        0 <= pct_tenths_of(count, total) <= 1000,
        total > 0 && count == total ==> pct_tenths_of(count, total) == 1000,
{
    if total > 0 {
        lemma_round_upper(1000 * count, total, 1000);
    }
}

} // verus!
