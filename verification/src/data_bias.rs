//! Pre-training (data) bias metrics.
//!
//! Inputs are two binary label vectors, one per facet.  Every metric is an
//! exact rational of the label sums and lengths; `lp_norm` additionally
//! takes an integer square root, stated as an exact bracketing of the
//! radicand.  The KL divergence is transcendental and therefore not
//! computed here: callers derive it from the two acceptance rates.

use vstd::prelude::*;
use crate::models::MetricsError;
use crate::ratio::{Ratio, abs_int, isqrt_u128, ISQRT_DOMAIN};

verus! {

/// Longest admitted facet, 2^30 observations: keeps every product the
/// metrics form inside `i128`.
pub const FACET_CAP: usize = 0x4000_0000;

/// Every element is 0 or 1.
pub open spec fn is_binary(s: Seq<i16>) -> bool {
    forall|i: int| 0 <= i < s.len() ==> (s[i] == 0 || s[i] == 1)
}

/// Sum of a label vector; for a binary vector, the number of positive
/// (accepted) observations.
pub open spec fn sum01(s: Seq<i16>) -> int
    decreases s.len(),
{
    if s.len() == 0 {
        0
    } else {
        sum01(s.drop_last()) + s.last()
    }
}

pub proof fn lemma_sum01_bounds(s: Seq<i16>)
    requires
        is_binary(s),
    ensures
        0 <= sum01(s) <= s.len(),
    decreases s.len(),
{
    if s.len() > 0 {
        assert(is_binary(s.drop_last()));
        lemma_sum01_bounds(s.drop_last());
    }
}

pub(crate) fn check_binary(v: &Vec<i16>) -> (r: bool)
    ensures
        r == is_binary(v@),
{
    let mut i: usize = 0;
    while i < v.len()
        invariant
            i <= v@.len(),
            forall|j: int| 0 <= j < i ==> (v@[j] == 0 || v@[j] == 1),
        decreases v@.len() - i,
    {
        let x: i16 = v[i];
        if x != 0 && x != 1 {
            return false;
        }
        i = i + 1;
    }
    true
}

/// Sums a binary label vector.
fn sum_labels(v: &Vec<i16>) -> (s: usize)
    requires
        is_binary(v@),
    ensures
        s == sum01(v@),
        s <= v@.len(),
{
    let mut acc: usize = 0;
    let mut i: usize = 0;
    while i < v.len()
        invariant
            i <= v@.len(),
            is_binary(v@),
            acc == sum01(v@.take(i as int)),
            acc <= i,
        decreases v@.len() - i,
    {
        proof {
            assert(v@.take(i + 1).drop_last() =~= v@.take(i as int));
            assert(v@.take(i + 1).last() == v@[i as int]);
        }
        let x: i16 = v[i];
        acc = acc + (x as usize);
        i = i + 1;
    }
    proof {
        assert(v@.take(v@.len() as int) =~= v@);
    }
    acc
}

/// The segmented ground-truth labels of the two facets.
pub struct PreTraining {
    pub facet_a: Vec<i16>,
    pub facet_d: Vec<i16>,
}

impl PreTraining {
    /// Both facets are non-empty binary vectors of admissible length.
    pub open spec fn wf(self) -> bool {
        &&& is_binary(self.facet_a@)
        &&& is_binary(self.facet_d@)
        &&& 0 < self.facet_a@.len() <= FACET_CAP
        &&& 0 < self.facet_d@.len() <= FACET_CAP
    }

    /// Derives the two acceptance rates, each the exact fraction of
    /// positive labels in its facet.
    pub fn generate(&self) -> (r: PreTrainingComputations)
        requires
            self.wf(),
        ensures
            r.wf(),
            r.a_acceptance.num == sum01(self.facet_a@),
            r.a_acceptance.den == self.facet_a@.len(),
            r.d_acceptance.num == sum01(self.facet_d@),
            r.d_acceptance.den == self.facet_d@.len(),
    {
        proof {
            lemma_sum01_bounds(self.facet_a@);
            lemma_sum01_bounds(self.facet_d@);
        }
        let sa: usize = sum_labels(&self.facet_a);
        let sd: usize = sum_labels(&self.facet_d);
        PreTrainingComputations {
            a_acceptance: Ratio::new(sa as i128, self.facet_a.len() as i128),
            d_acceptance: Ratio::new(sd as i128, self.facet_d.len() as i128),
        }
    }
}

/// The two acceptance rates, each an exact rational in `[0, 1]` whose
/// denominator is the facet length.
pub struct PreTrainingComputations {
    pub a_acceptance: Ratio,
    pub d_acceptance: Ratio,
}

impl PreTrainingComputations {
    pub open spec fn wf(self) -> bool {
        &&& 0 <= self.a_acceptance.num <= self.a_acceptance.den
        &&& 0 < self.a_acceptance.den <= FACET_CAP
        &&& 0 <= self.d_acceptance.num <= self.d_acceptance.den
        &&& 0 < self.d_acceptance.den <= FACET_CAP
    }
}

/// The ratio of the total observation count to itself: a deliberately
/// preserved degenerate formula, constant 1 for any non-empty facets.
/// It does not measure an imbalance of the two facet sizes.
pub fn class_imbalance(data: &PreTraining) -> (r: Ratio)
    requires
        data.wf(),
    ensures
        r.num == data.facet_a@.len() + data.facet_d@.len(),
        r.den == r.num,
        r.is_value(1, 1),
{
    let total: usize = data.facet_a.len() + data.facet_d.len();
    Ratio::new(total as i128, total as i128)
}

/// Difference of the two acceptance rates, `mean(facet_a) - mean(facet_d)`,
/// exact over the common denominator `|facet_a| * |facet_d|`.
pub fn diff_in_proportion_of_labels(data: &PreTraining) -> (r: Ratio)
    requires
        data.wf(),
    ensures
        r.wf(),
        r.den == data.facet_a@.len() * data.facet_d@.len(),
        r.num == sum01(data.facet_a@) * data.facet_d@.len() - sum01(data.facet_d@)
            * data.facet_a@.len(),
    {
    proof {
        lemma_sum01_bounds(data.facet_a@);
        lemma_sum01_bounds(data.facet_d@);
    }
    let sa: usize = sum_labels(&data.facet_a);
    let sd: usize = sum_labels(&data.facet_d);
    let na: i128 = data.facet_a.len() as i128;
    let nd: i128 = data.facet_d.len() as i128;
    proof {
        lemma_facet_products(sa as int, sd as int, na as int, nd as int);
    }
    Ratio::new((sa as i128) * nd - (sd as i128) * na, na * nd)
}

/// Bounds on the products formed from two facet sums and lengths.
proof fn lemma_facet_products(sa: int, sd: int, na: int, nd: int)
    by (nonlinear_arith)
    requires
        0 <= sa <= na <= FACET_CAP,
        0 <= sd <= nd <= FACET_CAP,
        0 < na,
        0 < nd,
    ensures
        0 <= sa * nd <= na * nd,
        0 <= sd * na <= na * nd,
        0 < na * nd <= FACET_CAP * FACET_CAP,
{
}

/// The radicand of `lp_norm` over the common denominator: the first term
/// is the squared rate difference, the second keeps the historical
/// expression `(1 - p - 1 - q)^2` of this metric, which equals
/// `(p + q)^2` rather than a negative-outcome residual.
pub open spec fn lp_radicand(c: PreTrainingComputations) -> int {
    let u = c.a_acceptance.num * c.d_acceptance.den;
    let v = c.d_acceptance.num * c.a_acceptance.den;
    (u - v) * (u - v) + (u + v) * (u + v)
}

/// Euclidean-style norm of the acceptance-rate terms: the exact integer
/// square root of `lp_radicand` over the common denominator, i.e. the
/// largest multiple of one over that denominator whose square does not
/// exceed the true squared norm.
pub fn lp_norm(c: &PreTrainingComputations) -> (r: Ratio)
    requires
        c.wf(),
    ensures
        r.wf(),
        r.den == c.a_acceptance.den * c.d_acceptance.den,
        0 <= r.num,
        r.num * r.num <= lp_radicand(*c),
        lp_radicand(*c) < (r.num + 1) * (r.num + 1),
{
    proof {
        lemma_facet_products(
            c.a_acceptance.num as int,
            c.d_acceptance.num as int,
            c.a_acceptance.den as int,
            c.d_acceptance.den as int,
        );
    }
    let u: i128 = c.a_acceptance.num * c.d_acceptance.den;
    let v: i128 = c.d_acceptance.num * c.a_acceptance.den;
    proof {
        lemma_lp_radicand_bound(u as int, v as int, (FACET_CAP as int) * (FACET_CAP as int));
    }
    let x: i128 = (u - v) * (u - v) + (u + v) * (u + v);
    let root: u128 = isqrt_u128(x as u128);
    assert(root < 0x8000_0000_0000_0000u128) by (nonlinear_arith)
        requires
            root * root < ISQRT_DOMAIN,
    ;
    Ratio::new(root as i128, c.a_acceptance.den * c.d_acceptance.den)
}

proof fn lemma_lp_radicand_bound(u: int, v: int, cap: int)
    by (nonlinear_arith)
    requires
        0 <= u <= cap,
        0 <= v <= cap,
        cap <= 0x1000_0000_0000_0000,
    ensures
        0 <= (u - v) * (u - v),
        0 <= (u + v) * (u + v),
        (u - v) * (u - v) + (u + v) * (u + v) < ISQRT_DOMAIN,
{
}

/// Total variation distance as this library has always computed it:
/// `|p - q|` plus a second term that compares `1 - p` with itself and is
/// therefore always zero.
pub fn total_variation_distance(c: &PreTrainingComputations) -> (r: Ratio)
    requires
        c.wf(),
    ensures
        r.wf(),
        r.den == c.a_acceptance.den * c.d_acceptance.den,
        r.num == abs_int(
            c.a_acceptance.num * c.d_acceptance.den - c.d_acceptance.num * c.a_acceptance.den,
        ),
{
    proof {
        lemma_facet_products(
            c.a_acceptance.num as int,
            c.d_acceptance.num as int,
            c.a_acceptance.den as int,
            c.d_acceptance.den as int,
        );
    }
    let first: i128 = c.a_acceptance.num * c.d_acceptance.den - c.d_acceptance.num
        * c.a_acceptance.den;
    let first_abs: i128 = if first < 0 {
        -first
    } else {
        first
    };
    // The preserved second term subtracts `1 - p` from `1 - p`.
    let one_minus_p: i128 = c.a_acceptance.den - c.a_acceptance.num;
    let second: i128 = one_minus_p - one_minus_p;
    let second_abs: i128 = if second < 0 {
        -second
    } else {
        second
    };
    Ratio::new(first_abs + second_abs, c.a_acceptance.den * c.d_acceptance.den)
}

/// The smaller of the two absolute differences between the facets'
/// empirical label distributions.  Both differences are equal (the 0- and
/// 1-fractions are complements), so the result is `|p - q|` exactly.
pub fn kolmorogv_smirnov(data: &PreTraining) -> (r: Ratio)
    requires
        data.wf(),
    ensures
        r.wf(),
        r.den == data.facet_a@.len() * data.facet_d@.len(),
        r.num == abs_int(
            sum01(data.facet_a@) * data.facet_d@.len() - sum01(data.facet_d@)
                * data.facet_a@.len(),
        ),
{
    proof {
        lemma_sum01_bounds(data.facet_a@);
        lemma_sum01_bounds(data.facet_d@);
    }
    let sa: usize = sum_labels(&data.facet_a);
    let sd: usize = sum_labels(&data.facet_d);
    let na: i128 = data.facet_a.len() as i128;
    let nd: i128 = data.facet_d.len() as i128;
    proof {
        lemma_facet_products(sa as int, sd as int, na as int, nd as int);
        lemma_facet_products(na - sa as int, nd - sd as int, na as int, nd as int);
    }
    // Fractions of zero labels: (n - s) / n per facet.
    let a0_num: i128 = na - sa as i128;
    let d0_num: i128 = nd - sd as i128;
    // Fractions of one labels: s / n per facet.
    let a1_num: i128 = sa as i128;
    let d1_num: i128 = sd as i128;
    let neg_cross: i128 = a0_num * nd - d0_num * na;
    let pos_cross: i128 = a1_num * nd - d1_num * na;
    proof {
        lemma_complement_cross(sa as int, sd as int, na as int, nd as int);
    }
    let neg_outcome_diff: i128 = if neg_cross < 0 {
        -neg_cross
    } else {
        neg_cross
    };
    let pos_outcome_diff: i128 = if pos_cross < 0 {
        -pos_cross
    } else {
        pos_cross
    };
    if neg_outcome_diff > pos_outcome_diff {
        Ratio::new(pos_outcome_diff, na * nd)
    } else {
        Ratio::new(neg_outcome_diff, na * nd)
    }
}

/// The cross term of the zero-label fractions is the negation of the
/// cross term of the one-label fractions.
proof fn lemma_complement_cross(sa: int, sd: int, na: int, nd: int)
    by (nonlinear_arith)
    ensures
        (na - sa) * nd - (nd - sd) * na == -(sa * nd - sd * na),
{
}

/// For any non-empty binary label vectors, both acceptance rates lie in
/// `[0, 1]` and the difference in proportion of labels lies in
/// `[-1, 1]`: the sums are bracketed by the lengths, and the difference
/// numerator is bracketed by its denominator.
pub proof fn lemma_acceptance_rates_bounded(data: PreTraining)
    requires
        data.wf(),
    ensures
        0 <= sum01(data.facet_a@) <= data.facet_a@.len(),
        0 <= sum01(data.facet_d@) <= data.facet_d@.len(),
        -(data.facet_a@.len() * data.facet_d@.len()) <= sum01(data.facet_a@) * data.facet_d@.len()
            - sum01(data.facet_d@) * data.facet_a@.len() <= data.facet_a@.len()
            * data.facet_d@.len(),
{
    lemma_sum01_bounds(data.facet_a@);
    lemma_sum01_bounds(data.facet_d@);
    lemma_facet_products(
        sum01(data.facet_a@),
        sum01(data.facet_d@),
        data.facet_a@.len() as int,
        data.facet_d@.len() as int,
    );
}

/// On two identical facets the Kolmogorov-Smirnov distance is zero: the
/// numerator `kolmorogv_smirnov` returns vanishes.
pub proof fn lemma_kolmorogv_smirnov_identical(data: PreTraining)
    requires
        data.wf(),
        data.facet_a@ == data.facet_d@,
    ensures
        abs_int(
            sum01(data.facet_a@) * data.facet_d@.len() - sum01(data.facet_d@)
                * data.facet_a@.len(),
        ) == 0,
{
}

/// The full pre-training metric map.  The KL divergence is transcendental
/// and left to the caller, who derives it from the two acceptance-rate
/// entries; every other metric is exact.
pub fn pre_training_bias(data: &PreTraining) -> (r: Result<Vec<(String, Ratio)>, MetricsError>)
    ensures
        match r {
            Ok(v) => {
                &&& data.wf()
                &&& v@.len() == 7
                &&& v@[0].0@ == "a_acceptance"@
                &&& v@[0].1.num == sum01(data.facet_a@)
                &&& v@[0].1.den == data.facet_a@.len()
                &&& v@[1].0@ == "d_acceptance"@
                &&& v@[1].1.num == sum01(data.facet_d@)
                &&& v@[1].1.den == data.facet_d@.len()
                &&& v@[2].0@ == "class_imbalance"@
                &&& v@[2].1.is_value(1, 1)
                &&& v@[3].0@ == "diff_in_proportion_of_labels"@
                &&& v@[3].1.num == sum01(data.facet_a@) * data.facet_d@.len() - sum01(
                    data.facet_d@,
                ) * data.facet_a@.len()
                &&& v@[3].1.den == data.facet_a@.len() * data.facet_d@.len()
                &&& v@[4].0@ == "lp_norm"@
                &&& v@[4].1.den == data.facet_a@.len() * data.facet_d@.len()
                &&& 0 <= v@[4].1.num
                &&& v@[5].0@ == "total_variation_distance"@
                &&& v@[5].1.num == abs_int(
                    sum01(data.facet_a@) * data.facet_d@.len() - sum01(data.facet_d@)
                        * data.facet_a@.len(),
                )
                &&& v@[5].1.den == data.facet_a@.len() * data.facet_d@.len()
                &&& v@[6].0@ == "kolmorogv_smirnov"@
                &&& v@[6].1.num == abs_int(
                    sum01(data.facet_a@) * data.facet_d@.len() - sum01(data.facet_d@)
                        * data.facet_a@.len(),
                )
                &&& v@[6].1.den == data.facet_a@.len() * data.facet_d@.len()
            },
            Err(MetricsError::EmptyInput) => data.facet_a@.len() == 0 || data.facet_d@.len() == 0,
            Err(MetricsError::InputTooLarge) => data.facet_a@.len() > FACET_CAP
                || data.facet_d@.len() > FACET_CAP,
            Err(MetricsError::NotBinary) => !is_binary(data.facet_a@) || !is_binary(data.facet_d@),
            Err(_) => false,
        },
        r is Err <==> !data.wf(),
{
    if data.facet_a.len() == 0 || data.facet_d.len() == 0 {
        return Err(MetricsError::EmptyInput);
    }
    if data.facet_a.len() > FACET_CAP || data.facet_d.len() > FACET_CAP {
        return Err(MetricsError::InputTooLarge);
    }
    if !check_binary(&data.facet_a) || !check_binary(&data.facet_d) {
        return Err(MetricsError::NotBinary);
    }
    let rates: PreTrainingComputations = data.generate();
    let mut out: Vec<(String, Ratio)> = Vec::new();
    out.push(("a_acceptance".to_owned(), rates.a_acceptance));
    out.push(("d_acceptance".to_owned(), rates.d_acceptance));
    out.push(("class_imbalance".to_owned(), class_imbalance(data)));
    out.push(("diff_in_proportion_of_labels".to_owned(), diff_in_proportion_of_labels(data)));
    out.push(("lp_norm".to_owned(), lp_norm(&rates)));
    out.push(("total_variation_distance".to_owned(), total_variation_distance(&rates)));
    out.push(("kolmorogv_smirnov".to_owned(), kolmorogv_smirnov(data)));
    Ok(out)
}

} // verus!
