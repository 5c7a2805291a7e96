//! Model performance metrics.
//!
//! Regression metrics work on integer-valued measurement sequences (the
//! boundary scales continuous data to a fixed-point grid before calling
//! in); classification metrics work on binary label vectors; logistic
//! regression thresholds integer scores and reuses the classification
//! metrics.  Every metric is an exact rational except the root mean
//! squared error, whose integer square root is stated as an exact
//! bracketing of the radicand.

use vstd::prelude::*;
use crate::data_bias::{is_binary, check_binary};
use crate::model_bias::{tp_count, fp_count, tn_count, fn_count, confusion_counts, Confusion,
    lemma_confusion_partition};
use crate::models::MetricsError;
use crate::ratio::{Ratio, abs_int, isqrt_u128, ISQRT_DOMAIN, lemma_mul_bound, lemma_square_nonneg};

verus! {

/// Longest admitted measurement sequence, 2^20 observations.
pub const PERF_CAP: usize = 0x10_0000;

/// Largest admitted measurement magnitude, 2^36: keeps sums of squares
/// inside `i128`.
pub const PERF_VAL_CAP: i64 = 0x10_0000_0000;

/// Every measurement is within the admitted magnitude.
pub open spec fn vals_in_range(s: Seq<i64>) -> bool {
    forall|i: int| 0 <= i < s.len() ==> -PERF_VAL_CAP <= #[trigger] s[i] <= PERF_VAL_CAP
}

/// Sum of absolute prediction residuals.
pub open spec fn sum_abs_diff(p: Seq<i64>, a: Seq<i64>) -> int
    decreases p.len(),
{
    if p.len() == 0 {
        0
    } else {
        sum_abs_diff(p.drop_last(), a.drop_last()) + abs_int(p.last() - a.last())
    }
}

/// Sum of squared prediction residuals.
pub open spec fn sum_sq_diff(p: Seq<i64>, a: Seq<i64>) -> int
    decreases p.len(),
{
    if p.len() == 0 {
        0
    } else {
        sum_sq_diff(p.drop_last(), a.drop_last()) + (p.last() - a.last()) * (p.last() - a.last())
    }
}

/// Sum of a measurement sequence.
pub open spec fn sum_of(a: Seq<i64>) -> int
    decreases a.len(),
{
    if a.len() == 0 {
        0
    } else {
        sum_of(a.drop_last()) + a.last()
    }
}

/// Sum of squared measurements.
pub open spec fn sum_sq(a: Seq<i64>) -> int
    decreases a.len(),
{
    if a.len() == 0 {
        0
    } else {
        sum_sq(a.drop_last()) + a.last() * a.last()
    }
}

/// `n` times the variance numerator of the actuals: positive unless all
/// actual values are equal (the expression is never negative).
pub open spec fn scaled_total_variation(a: Seq<i64>) -> int {
    a.len() * sum_sq(a) - sum_of(a) * sum_of(a)
}

struct RegressionSums {
    abs_diff: i128,
    sq_diff: i128,
    total: i128,
    total_sq: i128,
}

/// One pass over both sequences, accumulating the four sums the
/// regression metrics need.
fn regression_sums(p: &Vec<i64>, a: &Vec<i64>) -> (s: RegressionSums)
    requires
        p@.len() == a@.len() <= PERF_CAP,
        vals_in_range(p@),
        vals_in_range(a@),
    ensures
        s.abs_diff == sum_abs_diff(p@, a@),
        s.sq_diff == sum_sq_diff(p@, a@),
        s.total == sum_of(a@),
        s.total_sq == sum_sq(a@),
        0 <= s.abs_diff <= 2 * (PERF_CAP as int) * (PERF_VAL_CAP as int),
        0 <= s.sq_diff <= 4 * (PERF_CAP as int) * ((PERF_VAL_CAP as int) * (PERF_VAL_CAP as int)),
        -(PERF_CAP as int) * (PERF_VAL_CAP as int) <= s.total <= (PERF_CAP as int) * (
        PERF_VAL_CAP as int),
        0 <= s.total_sq <= (PERF_CAP as int) * ((PERF_VAL_CAP as int) * (PERF_VAL_CAP as int)),
{
    let ghost cap: int = PERF_CAP as int;
    let ghost vcap: int = PERF_VAL_CAP as int;
    let mut abs_diff: i128 = 0;
    let mut sq_diff: i128 = 0;
    let mut total: i128 = 0;
    let mut total_sq: i128 = 0;
    let mut i: usize = 0;
    while i < p.len()
        invariant
            i <= p@.len(),
            p@.len() == a@.len() <= PERF_CAP,
            cap == PERF_CAP as int,
            vcap == PERF_VAL_CAP as int,
            vals_in_range(p@),
            vals_in_range(a@),
            abs_diff == sum_abs_diff(p@.take(i as int), a@.take(i as int)),
            sq_diff == sum_sq_diff(p@.take(i as int), a@.take(i as int)),
            total == sum_of(a@.take(i as int)),
            total_sq == sum_sq(a@.take(i as int)),
            0 <= abs_diff <= 2 * (i as int) * vcap,
            0 <= sq_diff <= 4 * (i as int) * (vcap * vcap),
            -(i as int) * vcap <= total <= (i as int) * vcap,
            0 <= total_sq <= (i as int) * (vcap * vcap),
        decreases p@.len() - i,
    {
        proof {
            assert(p@.take(i + 1).drop_last() =~= p@.take(i as int));
            assert(a@.take(i + 1).drop_last() =~= a@.take(i as int));
            assert(p@.take(i + 1).last() == p@[i as int]);
            assert(a@.take(i + 1).last() == a@[i as int]);
        }
        let pv: i128 = p[i] as i128;
        let av: i128 = a[i] as i128;
        let d: i128 = pv - av;
        proof {
            assert(-PERF_VAL_CAP <= p@[i as int] <= PERF_VAL_CAP);
            assert(-PERF_VAL_CAP <= a@[i as int] <= PERF_VAL_CAP);
            lemma_mul_bound(d as int, d as int, 2 * vcap, 2 * vcap);
            lemma_square_nonneg(d as int);
            lemma_mul_bound(av as int, av as int, vcap, vcap);
            lemma_square_nonneg(av as int);
        }
        let ad: i128 = if d < 0 {
            -d
        } else {
            d
        };
        proof {
            assert(4 * (i as int) * (vcap * vcap) + 4 * (vcap * vcap) <= 4 * (cap * (vcap
                * vcap))) by (nonlinear_arith)
                requires
                    0 <= i as int,
                    (i as int) < cap,
                    0 <= vcap * vcap,
            ;
            assert((i as int) * (vcap * vcap) + vcap * vcap <= cap * (vcap * vcap))
                by (nonlinear_arith)
                requires
                    0 <= i as int,
                    (i as int) < cap,
                    0 <= vcap * vcap,
            ;
            assert(4 * (i as int) * (vcap * vcap) + 4 * (vcap * vcap) == 4 * (i as int + 1) * (
            vcap * vcap)) by (nonlinear_arith);
            assert((i as int) * (vcap * vcap) + vcap * vcap == (i as int + 1) * (vcap * vcap))
                by (nonlinear_arith);
            assert(2 * (i as int) * vcap + 2 * vcap == 2 * (i as int + 1) * vcap)
                by (nonlinear_arith);
            assert((i as int) * vcap + vcap == (i as int + 1) * vcap) by (nonlinear_arith);
        }
        abs_diff = abs_diff + ad;
        sq_diff = sq_diff + d * d;
        total = total + av;
        total_sq = total_sq + av * av;
        i = i + 1;
    }
    proof {
        assert(p@.take(p@.len() as int) =~= p@);
        assert(a@.take(a@.len() as int) =~= a@);
    }
    RegressionSums { abs_diff, sq_diff, total, total_sq }
}

/// Regression performance: mean absolute error, mean squared error, root
/// mean squared error and the coefficient of determination, exact over
/// the integer measurement grid.
pub fn model_perf_regression(y_pred: &Vec<i64>, y_true: &Vec<i64>) -> (r: Result<
    Vec<(String, Ratio)>,
    MetricsError,
>)
    ensures
        match r {
            Ok(v) => {
                let n = y_pred@.len() as int;
                &&& y_pred@.len() == y_true@.len()
                &&& 0 < n <= PERF_CAP
                &&& vals_in_range(y_pred@)
                &&& vals_in_range(y_true@)
                &&& scaled_total_variation(y_true@) > 0
                &&& v@.len() == 4
                &&& v@[0].0@ == "mae"@
                &&& v@[0].1.num == sum_abs_diff(y_pred@, y_true@)
                &&& v@[0].1.den == n
                &&& v@[1].0@ == "mse"@
                &&& v@[1].1.num == sum_sq_diff(y_pred@, y_true@)
                &&& v@[1].1.den == n
                &&& v@[2].0@ == "rmse"@
                &&& v@[2].1.den == n
                &&& 0 <= v@[2].1.num
                &&& v@[2].1.num * v@[2].1.num <= sum_sq_diff(y_pred@, y_true@) * n
                &&& sum_sq_diff(y_pred@, y_true@) * n < (v@[2].1.num + 1) * (v@[2].1.num + 1)
                &&& v@[3].0@ == "r2"@
                &&& v@[3].1.num == scaled_total_variation(y_true@) - n * sum_sq_diff(
                    y_pred@,
                    y_true@,
                )
                &&& v@[3].1.den == scaled_total_variation(y_true@)
            },
            Err(MetricsError::LengthMismatch) => y_pred@.len() != y_true@.len(),
            Err(MetricsError::EmptyInput) => y_pred@.len() == 0,
            Err(MetricsError::InputTooLarge) => y_pred@.len() > PERF_CAP,
            Err(MetricsError::ValueTooLarge) => !vals_in_range(y_pred@) || !vals_in_range(
                y_true@,
            ),
            Err(MetricsError::UndefinedMetric) => scaled_total_variation(y_true@) <= 0,
            Err(_) => false,
        },
{
    let ghost cap: int = PERF_CAP as int;
    let ghost vcap: int = PERF_VAL_CAP as int;
    if y_pred.len() != y_true.len() {
        return Err(MetricsError::LengthMismatch);
    }
    if y_pred.len() == 0 {
        return Err(MetricsError::EmptyInput);
    }
    if y_pred.len() > PERF_CAP {
        return Err(MetricsError::InputTooLarge);
    }
    if !check_vals_in_range(y_pred) || !check_vals_in_range(y_true) {
        return Err(MetricsError::ValueTooLarge);
    }
    let s: RegressionSums = regression_sums(y_pred, y_true);
    let n: i128 = y_pred.len() as i128;
    proof {
        lemma_mul_bound(n as int, s.sq_diff as int, cap, 4 * cap * (vcap * vcap));
        lemma_mul_bound(s.sq_diff as int, n as int, 4 * cap * (vcap * vcap), cap);
        lemma_mul_bound(n as int, s.total_sq as int, cap, cap * (vcap * vcap));
        lemma_mul_bound(s.total as int, s.total as int, cap * vcap, cap * vcap);
        lemma_square_nonneg(s.total as int);
    }
    let scaled_var: i128 = n * s.total_sq - s.total * s.total;
    if scaled_var <= 0 {
        return Err(MetricsError::UndefinedMetric);
    }
    let radicand: i128 = s.sq_diff * n;
    assert(0 <= radicand < ISQRT_DOMAIN);
    let root: u128 = isqrt_u128(radicand as u128);
    assert(root < 0x8000_0000_0000_0000u128) by (nonlinear_arith)
        requires
            root * root < ISQRT_DOMAIN,
    ;
    let mut out: Vec<(String, Ratio)> = Vec::new();
    out.push(("mae".to_owned(), Ratio::new(s.abs_diff, n)));
    out.push(("mse".to_owned(), Ratio::new(s.sq_diff, n)));
    out.push(("rmse".to_owned(), Ratio::new(root as i128, n)));
    out.push(("r2".to_owned(), Ratio::new(scaled_var - n * s.sq_diff, scaled_var)));
    Ok(out)
}

fn check_vals_in_range(v: &Vec<i64>) -> (r: bool)
    ensures
        r == vals_in_range(v@),
{
    let mut i: usize = 0;
    while i < v.len()
        invariant
            i <= v@.len(),
            forall|j: int| 0 <= j < i ==> -PERF_VAL_CAP <= #[trigger] v@[j] <= PERF_VAL_CAP,
        decreases v@.len() - i,
    {
        let x: i64 = v[i];
        if x < -PERF_VAL_CAP || x > PERF_VAL_CAP {
            return false;
        }
        i = i + 1;
    }
    true
}

/// Binary classification performance from the 2x2 confusion matrix:
/// accuracy, precision, recall and F1.  Any rate with a zero denominator
/// (no predicted positives, no actual positives, or no true positives at
/// all for F1) makes the call fail as undefined.
pub fn model_perf_classification(y_pred: &Vec<i16>, y_true: &Vec<i16>) -> (r: Result<
    Vec<(String, Ratio)>,
    MetricsError,
>)
    ensures
        match r {
            Ok(v) => {
                let n = y_pred@.len() as int;
                let tp = tp_count(y_pred@, y_true@);
                let fp = fp_count(y_pred@, y_true@);
                let tn = tn_count(y_pred@, y_true@);
                let fneg = fn_count(y_pred@, y_true@);
                &&& classification_ok(y_pred@, y_true@)
                &&& v@.len() == 4
                &&& v@[0].0@ == "accuracy"@
                &&& v@[0].1.num == tp + tn
                &&& v@[0].1.den == n
                &&& v@[1].0@ == "precision"@
                &&& v@[1].1.num == tp
                &&& v@[1].1.den == tp + fp
                &&& v@[2].0@ == "recall"@
                &&& v@[2].1.num == tp
                &&& v@[2].1.den == tp + fneg
                &&& v@[3].0@ == "f1"@
                &&& v@[3].1.num == 2 * tp
                &&& v@[3].1.den == 2 * tp + fp + fneg
            },
            Err(MetricsError::LengthMismatch) => y_pred@.len() != y_true@.len(),
            Err(MetricsError::EmptyInput) => y_pred@.len() == 0,
            Err(MetricsError::InputTooLarge) => y_pred@.len() > PERF_CAP,
            Err(MetricsError::NotBinary) => !is_binary(y_pred@) || !is_binary(y_true@),
            Err(MetricsError::UndefinedMetric) => tp_count(y_pred@, y_true@) + fp_count(
                y_pred@,
                y_true@,
            ) == 0 || tp_count(y_pred@, y_true@) + fn_count(y_pred@, y_true@) == 0 || tp_count(
                y_pred@,
                y_true@,
            ) == 0,
            Err(_) => false,
        },
{
    if y_pred.len() != y_true.len() {
        return Err(MetricsError::LengthMismatch);
    }
    if y_pred.len() == 0 {
        return Err(MetricsError::EmptyInput);
    }
    if y_pred.len() > PERF_CAP {
        return Err(MetricsError::InputTooLarge);
    }
    if !check_binary(y_pred) || !check_binary(y_true) {
        return Err(MetricsError::NotBinary);
    }
    proof {
        lemma_confusion_partition(y_pred@, y_true@);
    }
    let c: Confusion = confusion_counts(y_pred, y_true);
    if c.true_pos + c.false_pos == 0 || c.true_pos + c.false_neg == 0 || c.true_pos == 0 {
        return Err(MetricsError::UndefinedMetric);
    }
    let mut out: Vec<(String, Ratio)> = Vec::new();
    out.push(("accuracy".to_owned(), Ratio::new((c.true_pos + c.true_neg) as i128, y_pred.len() as i128)));
    out.push(("precision".to_owned(), Ratio::new(c.true_pos as i128, (c.true_pos + c.false_pos) as i128)));
    out.push(("recall".to_owned(), Ratio::new(c.true_pos as i128, (c.true_pos + c.false_neg) as i128)));
    out.push(("f1".to_owned(), Ratio::new(2 * (c.true_pos as i128), 2 * (c.true_pos as i128) + (c.false_pos as i128) + (c.false_neg as i128))));
    Ok(out)
}

/// The classification inputs are acceptable and every rate is defined.
pub open spec fn classification_ok(p: Seq<i16>, t: Seq<i16>) -> bool {
    &&& p.len() == t.len()
    &&& 0 < p.len() <= PERF_CAP
    &&& is_binary(p)
    &&& is_binary(t)
    &&& tp_count(p, t) + fp_count(p, t) > 0
    &&& tp_count(p, t) + fn_count(p, t) > 0
    &&& tp_count(p, t) > 0
}

/// The labels obtained by thresholding integer scores: 1 where the score
/// strictly exceeds the decision threshold, else 0.
pub open spec fn thresholded(scores: Seq<i64>, threshold: i64) -> Seq<i16> {
    Seq::new(scores.len(), |i: int| if scores[i] > threshold {
        1 as i16
    } else {
        0 as i16
    })
}

/// Applies the decision threshold to a score sequence.
pub fn apply_decision_threshold(scores: &Vec<i64>, threshold: i64) -> (r: Vec<i16>)
    ensures
        r@ == thresholded(scores@, threshold),
{
    let mut out: Vec<i16> = Vec::new();
    let mut i: usize = 0;
    while i < scores.len()
        invariant
            i <= scores@.len(),
            out@.len() == i,
            forall|j: int| 0 <= j < i ==> out@[j] == thresholded(scores@, threshold)[j],
        decreases scores@.len() - i,
    {
        let s: i64 = scores[i];
        if s > threshold {
            out.push(1);
        } else {
            out.push(0);
        }
        i = i + 1;
    }
    proof {
        assert(out@ =~= thresholded(scores@, threshold));
    }
    out
}

/// Logistic-regression performance: scores are thresholded at the
/// caller-supplied decision threshold, then scored as a classification.
pub fn model_perf_logistic_regression(
    y_pred: &Vec<i64>,
    y_true: &Vec<i16>,
    decision_threshold: i64,
) -> (r: Result<Vec<(String, Ratio)>, MetricsError>)
    ensures
        match r {
            Ok(v) => {
                let p = thresholded(y_pred@, decision_threshold);
                let n = p.len() as int;
                let tp = tp_count(p, y_true@);
                let fp = fp_count(p, y_true@);
                let tn = tn_count(p, y_true@);
                let fneg = fn_count(p, y_true@);
                &&& classification_ok(p, y_true@)
                &&& v@.len() == 4
                &&& v@[0].0@ == "accuracy"@
                &&& v@[0].1.num == tp + tn
                &&& v@[0].1.den == n
                &&& v@[1].0@ == "precision"@
                &&& v@[1].1.num == tp
                &&& v@[1].1.den == tp + fp
                &&& v@[2].0@ == "recall"@
                &&& v@[2].1.num == tp
                &&& v@[2].1.den == tp + fneg
                &&& v@[3].0@ == "f1"@
                &&& v@[3].1.num == 2 * tp
                &&& v@[3].1.den == 2 * tp + fp + fneg
            },
            Err(e) => {
                let p = thresholded(y_pred@, decision_threshold);
                match e {
                    MetricsError::LengthMismatch => p.len() != y_true@.len(),
                    MetricsError::EmptyInput => p.len() == 0,
                    MetricsError::InputTooLarge => p.len() > PERF_CAP,
                    MetricsError::NotBinary => !is_binary(p) || !is_binary(y_true@),
                    MetricsError::UndefinedMetric => tp_count(p, y_true@) + fp_count(p, y_true@)
                        == 0 || tp_count(p, y_true@) + fn_count(p, y_true@) == 0 || tp_count(
                        p,
                        y_true@,
                    ) == 0,
                    _ => false,
                }
            },
        },
{
    let labels: Vec<i16> = apply_decision_threshold(y_pred, decision_threshold);
    model_perf_classification(&labels, y_true)
}

} // verus!
