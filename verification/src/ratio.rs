//! Exact rational numbers.
//!
//! Every metric this library computes is a ratio of integers (counts of
//! labels, sums of residuals), so metric values are carried as exact
//! fractions `num / den` with a positive denominator.  Comparisons such as
//! the drift test `|latest - baseline| > threshold` are decided by cross
//! multiplication in 128-bit arithmetic, which is exact as long as the
//! operands stay within `RATIO_BOUND`.

use vstd::prelude::*;

verus! {

/// Numerator and denominator magnitude, 2^40, under which the triple
/// products of the drift comparison fit in an `i128`.
pub const RATIO_BOUND: i128 = 0x100_0000_0000;

/// A rational number `num / den`.
#[derive(Clone, Copy, Debug)]
pub struct Ratio {
    pub num: i128,
    pub den: i128,
}

/// Absolute value of a mathematical integer.
pub open spec fn abs_int(x: int) -> int {
    if x < 0 {
        -x
    } else {
        x
    }
}

impl Ratio {
    /// Well-formed: the denominator is positive.
    pub open spec fn wf(self) -> bool {
        0 < self.den
    }

    /// The rational equals the mathematical quotient `n / d`.
    pub open spec fn is_value(self, n: int, d: int) -> bool {
        0 < d && self.num * d == n * self.den
    }

    /// Small enough for the cross-multiplied drift comparison to be
    /// computed without overflow.
    pub open spec fn small(self) -> bool {
        &&& -RATIO_BOUND <= self.num <= RATIO_BOUND
        &&& 0 < self.den <= RATIO_BOUND
    }

    pub fn new(num: i128, den: i128) -> (r: Ratio)
        requires
            0 < den,
        ensures
            r.num == num,
            r.den == den,
            r.wf(),
    {
        Ratio { num, den }
    }
}

/// `latest` has drifted from `baseline` by more than `threshold`:
/// `|latest - baseline| > threshold` over the exact rational values.
pub open spec fn spec_drifted(baseline: Ratio, latest: Ratio, threshold: Ratio) -> bool {
    abs_int(latest.num * baseline.den - baseline.num * latest.den) * threshold.den
        > threshold.num * (latest.den * baseline.den)
}

/// `latest` is strictly greater than `baseline` as a rational.
pub open spec fn spec_increased(baseline: Ratio, latest: Ratio) -> bool {
    latest.num * baseline.den > baseline.num * latest.den
}

pub(crate) proof fn lemma_mul_pos(a: int, b: int)
    by (nonlinear_arith)
    requires
        0 < a,
        0 < b,
    ensures
        0 < a * b,
{
}

pub(crate) proof fn lemma_square_nonneg(a: int)
    by (nonlinear_arith)
    ensures
        0 <= a * a,
{
}

pub(crate) proof fn lemma_mul_bound(a: int, b: int, bound_a: int, bound_b: int)
    by (nonlinear_arith)
    requires
        -bound_a <= a <= bound_a,
        -bound_b <= b <= bound_b,
        0 <= bound_a,
        0 <= bound_b,
    ensures
        -(bound_a * bound_b) <= a * b <= bound_a * bound_b,
{
}

/// Decides the drift test `|latest - baseline| > threshold` exactly, by
/// cross multiplication.
pub fn drift_exceeds(baseline: &Ratio, latest: &Ratio, threshold: &Ratio) -> (r: bool)
    requires
        baseline.small(),
        latest.small(),
        threshold.small(),
    ensures
        r == spec_drifted(*baseline, *latest, *threshold),
{
    proof {
        lemma_mul_bound(latest.num as int, baseline.den as int, RATIO_BOUND as int, RATIO_BOUND as int);
        lemma_mul_bound(baseline.num as int, latest.den as int, RATIO_BOUND as int, RATIO_BOUND as int);
        lemma_mul_bound(latest.den as int, baseline.den as int, RATIO_BOUND as int, RATIO_BOUND as int);
        lemma_mul_bound(
            latest.num * baseline.den - baseline.num * latest.den,
            threshold.den as int,
            2 * RATIO_BOUND * RATIO_BOUND,
            RATIO_BOUND as int,
        );
        lemma_mul_bound(
            threshold.num as int,
            latest.den * baseline.den,
            RATIO_BOUND as int,
            RATIO_BOUND * RATIO_BOUND,
        );
    }
    let cross: i128 = latest.num * baseline.den - baseline.num * latest.den;
    let magnitude: i128 = if cross < 0 {
        -cross
    } else {
        cross
    };
    proof {
        lemma_mul_bound(
            magnitude as int,
            threshold.den as int,
            2 * RATIO_BOUND * RATIO_BOUND,
            RATIO_BOUND as int,
        );
    }
    magnitude * threshold.den > threshold.num * (latest.den * baseline.den)
}

/// Decides whether `latest` exceeds `baseline` as a rational.
pub fn value_increased(baseline: &Ratio, latest: &Ratio) -> (r: bool)
    requires
        baseline.small(),
        latest.small(),
    ensures
        r == spec_increased(*baseline, *latest),
{
    proof {
        lemma_mul_bound(latest.num as int, baseline.den as int, RATIO_BOUND as int, RATIO_BOUND as int);
        lemma_mul_bound(baseline.num as int, latest.den as int, RATIO_BOUND as int, RATIO_BOUND as int);
    }
    latest.num * baseline.den > baseline.num * latest.den
}

/// Largest admissible argument of `isqrt_u128`: 2^126, the square of
/// `ISQRT_ROOT_CAP + 1`.
pub const ISQRT_DOMAIN: u128 = 0x4000_0000_0000_0000_0000_0000_0000_0000;

/// Upper bound of the binary search in `isqrt_u128`: 2^63 - 1.
pub const ISQRT_ROOT_CAP: u128 = 0x7FFF_FFFF_FFFF_FFFF;

/// Integer square root: the largest `r` with `r * r <= x`.
pub fn isqrt_u128(x: u128) -> (r: u128)
    requires
        x < ISQRT_DOMAIN,
    ensures
        r * r <= x,
        x < (r + 1) * (r + 1),
{
    let mut lo: u128 = 0;
    let mut hi: u128 = ISQRT_ROOT_CAP;
    assert((ISQRT_ROOT_CAP + 1) * (ISQRT_ROOT_CAP + 1) == ISQRT_DOMAIN) by (nonlinear_arith);
    while lo < hi
        invariant
            lo <= hi <= ISQRT_ROOT_CAP,
            lo * lo <= x,
            x < (hi + 1) * (hi + 1),
        decreases hi - lo,
    {
        let mid: u128 = lo + (hi - lo + 1) / 2;
        assert(lo < mid <= hi);
        assert(mid * mid <= ISQRT_ROOT_CAP * ISQRT_ROOT_CAP) by (nonlinear_arith)
            requires
                0 < mid <= ISQRT_ROOT_CAP,
        ;
        let sq: u128 = mid * mid;
        if sq <= x {
            lo = mid;
        } else {
            hi = mid - 1;
        }
    }
    lo
}

} // verus!
