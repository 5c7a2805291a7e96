//! Post-training (model) bias metrics.
//!
//! Inputs are, per facet, the binary predictions and ground-truth labels.
//! The metrics are confusion-matrix disparities between the two facets;
//! each is an exact rational.  A rate whose denominator is zero (a facet
//! with no positive, or no negative, examples of the needed kind) makes
//! the whole analysis fail with a named error.

use vstd::prelude::*;
use crate::data_bias::{FACET_CAP, is_binary};
use crate::models::MetricsError;
use crate::ratio::Ratio;

verus! {

/// Number of positions where the prediction is `pv` and the ground truth
/// is `tv`.
pub open spec fn count_match(p: Seq<i16>, t: Seq<i16>, pv: i16, tv: i16) -> int
    decreases p.len(),
{
    if p.len() == 0 {
        0
    } else {
        count_match(p.drop_last(), t.drop_last(), pv, tv) + if p.last() == pv && t.last() == tv {
            1 as int
        } else {
            0 as int
        }
    }
}

pub open spec fn tp_count(p: Seq<i16>, t: Seq<i16>) -> int {
    count_match(p, t, 1, 1)
}

pub open spec fn fp_count(p: Seq<i16>, t: Seq<i16>) -> int {
    count_match(p, t, 1, 0)
}

pub open spec fn tn_count(p: Seq<i16>, t: Seq<i16>) -> int {
    count_match(p, t, 0, 0)
}

pub open spec fn fn_count(p: Seq<i16>, t: Seq<i16>) -> int {
    count_match(p, t, 0, 1)
}

/// On binary vectors the four counts partition the positions.
pub proof fn lemma_confusion_partition(p: Seq<i16>, t: Seq<i16>)
    requires
        p.len() == t.len(),
        is_binary(p),
        is_binary(t),
    ensures
        tp_count(p, t) + fp_count(p, t) + tn_count(p, t) + fn_count(p, t) == p.len(),
    decreases p.len(),
{
    if p.len() > 0 {
        assert(is_binary(p.drop_last()));
        assert(is_binary(t.drop_last()));
        lemma_confusion_partition(p.drop_last(), t.drop_last());
        assert(p.last() == p[p.len() - 1] && (p.last() == 0 || p.last() == 1));
        assert(t.last() == t[t.len() - 1] && (t.last() == 0 || t.last() == 1));
    }
}

/// The four confusion-matrix counts of one facet.
pub struct Confusion {
    pub true_pos: usize,
    pub false_pos: usize,
    pub true_neg: usize,
    pub false_neg: usize,
}

/// Counts the confusion matrix of one facet.
pub fn confusion_counts(p: &Vec<i16>, t: &Vec<i16>) -> (c: Confusion)
    requires
        p@.len() == t@.len(),
    ensures
        c.true_pos == tp_count(p@, t@),
        c.false_pos == fp_count(p@, t@),
        c.true_neg == tn_count(p@, t@),
        c.false_neg == fn_count(p@, t@),
        c.true_pos <= p@.len(),
        c.false_pos <= p@.len(),
        c.true_neg <= p@.len(),
        c.false_neg <= p@.len(),
{
    let mut tp: usize = 0;
    let mut fp: usize = 0;
    let mut tn: usize = 0;
    let mut fneg: usize = 0;
    let mut i: usize = 0;
    while i < p.len()
        invariant
            i <= p@.len(),
            p@.len() == t@.len(),
            tp == tp_count(p@.take(i as int), t@.take(i as int)),
            fp == fp_count(p@.take(i as int), t@.take(i as int)),
            tn == tn_count(p@.take(i as int), t@.take(i as int)),
            fneg == fn_count(p@.take(i as int), t@.take(i as int)),
            tp <= i && fp <= i && tn <= i && fneg <= i,
        decreases p@.len() - i,
    {
        proof {
            assert(p@.take(i + 1).drop_last() =~= p@.take(i as int));
            assert(t@.take(i + 1).drop_last() =~= t@.take(i as int));
            assert(p@.take(i + 1).last() == p@[i as int]);
            assert(t@.take(i + 1).last() == t@[i as int]);
        }
        let pv: i16 = p[i];
        let tv: i16 = t[i];
        if pv == 1 && tv == 1 {
            tp = tp + 1;
        } else if pv == 1 && tv == 0 {
            fp = fp + 1;
        } else if pv == 0 && tv == 0 {
            tn = tn + 1;
        } else if pv == 0 && tv == 1 {
            fneg = fneg + 1;
        }
        i = i + 1;
    }
    proof {
        assert(p@.take(p@.len() as int) =~= p@);
        assert(t@.take(t@.len() as int) =~= t@);
    }
    Confusion { true_pos: tp, false_pos: fp, true_neg: tn, false_neg: fneg }
}

/// The segmented predictions and ground-truth labels of the two facets.
pub struct PostTrainingData {
    pub a_predictions: Vec<i16>,
    pub a_ground_truth: Vec<i16>,
    pub d_predictions: Vec<i16>,
    pub d_ground_truth: Vec<i16>,
}

impl PostTrainingData {
    pub open spec fn wf(self) -> bool {
        &&& is_binary(self.a_predictions@)
        &&& is_binary(self.a_ground_truth@)
        &&& is_binary(self.d_predictions@)
        &&& is_binary(self.d_ground_truth@)
        &&& self.a_predictions@.len() == self.a_ground_truth@.len()
        &&& self.d_predictions@.len() == self.d_ground_truth@.len()
        &&& 0 < self.a_predictions@.len() <= FACET_CAP
        &&& 0 < self.d_predictions@.len() <= FACET_CAP
    }
}

/// Difference of two rates, each in `[0, 1]`, exact over the product of
/// the denominators.
fn rate_diff(x: &Ratio, y: &Ratio) -> (r: Ratio)
    requires
        0 <= x.num <= x.den,
        0 < x.den <= FACET_CAP,
        0 <= y.num <= y.den,
        0 < y.den <= FACET_CAP,
    ensures
        r.wf(),
        r.num == x.num * y.den - y.num * x.den,
        r.den == x.den * y.den,
{
    proof {
        lemma_rate_products(x.num as int, x.den as int, y.num as int, y.den as int);
    }
    Ratio::new(x.num * y.den - y.num * x.den, x.den * y.den)
}

proof fn lemma_rate_products(xn: int, xd: int, yn: int, yd: int)
    by (nonlinear_arith)
    requires
        0 <= xn <= xd,
        0 < xd <= FACET_CAP,
        0 <= yn <= yd,
        0 < yd <= FACET_CAP,
    ensures
        0 <= xn * yd <= xd * yd,
        0 <= yn * xd <= xd * yd,
        0 < xd * yd <= FACET_CAP * FACET_CAP,
{
}

/// The post-training metric map: five exact disparity metrics between the
/// facets' confusion matrices.
pub fn post_training_bias(data: &PostTrainingData) -> (r: Result<
    Vec<(String, Ratio)>,
    MetricsError,
>)
    ensures
        match r {
            Ok(v) => {
                let na = data.a_predictions@.len() as int;
                let nd = data.d_predictions@.len() as int;
                let tpa = tp_count(data.a_predictions@, data.a_ground_truth@);
                let fpa = fp_count(data.a_predictions@, data.a_ground_truth@);
                let tna = tn_count(data.a_predictions@, data.a_ground_truth@);
                let fna = fn_count(data.a_predictions@, data.a_ground_truth@);
                let tpd = tp_count(data.d_predictions@, data.d_ground_truth@);
                let fpd = fp_count(data.d_predictions@, data.d_ground_truth@);
                let tnd = tn_count(data.d_predictions@, data.d_ground_truth@);
                let fnd = fn_count(data.d_predictions@, data.d_ground_truth@);
                &&& data.wf()
                &&& tpa + fpa > 0
                &&& tpa + fna > 0
                &&& tpd + fnd > 0
                &&& fpa + tna > 0
                &&& fpd + tnd > 0
                &&& v@.len() == 5
                &&& v@[0].0@ == "diff_in_positive_proportions"@
                &&& v@[0].1.num == (tpa + fpa) * nd - (tpd + fpd) * na
                &&& v@[0].1.den == na * nd
                &&& v@[1].0@ == "disparate_impact"@
                &&& v@[1].1.num == (tpd + fpd) * na
                &&& v@[1].1.den == (tpa + fpa) * nd
                &&& v@[2].0@ == "accuracy_difference"@
                &&& v@[2].1.num == (tpa + tna) * nd - (tpd + tnd) * na
                &&& v@[2].1.den == na * nd
                &&& v@[3].0@ == "diff_in_true_positive_rates"@
                &&& v@[3].1.num == tpa * (tpd + fnd) - tpd * (tpa + fna)
                &&& v@[3].1.den == (tpa + fna) * (tpd + fnd)
                &&& v@[4].0@ == "diff_in_false_positive_rates"@
                &&& v@[4].1.num == fpa * (fpd + tnd) - fpd * (fpa + tna)
                &&& v@[4].1.den == (fpa + tna) * (fpd + tnd)
            },
            Err(MetricsError::EmptyInput) => data.a_predictions@.len() == 0
                || data.d_predictions@.len() == 0,
            Err(MetricsError::LengthMismatch) => data.a_predictions@.len()
                != data.a_ground_truth@.len() || data.d_predictions@.len()
                != data.d_ground_truth@.len(),
            Err(MetricsError::InputTooLarge) => data.a_predictions@.len() > FACET_CAP
                || data.d_predictions@.len() > FACET_CAP,
            Err(MetricsError::NotBinary) => !is_binary(data.a_predictions@) || !is_binary(
                data.a_ground_truth@,
            ) || !is_binary(data.d_predictions@) || !is_binary(data.d_ground_truth@),
            Err(MetricsError::UndefinedMetric) => data.wf() && {
                let tpa = tp_count(data.a_predictions@, data.a_ground_truth@);
                let fpa = fp_count(data.a_predictions@, data.a_ground_truth@);
                let tna = tn_count(data.a_predictions@, data.a_ground_truth@);
                let fna = fn_count(data.a_predictions@, data.a_ground_truth@);
                let tpd = tp_count(data.d_predictions@, data.d_ground_truth@);
                let fpd = fp_count(data.d_predictions@, data.d_ground_truth@);
                let tnd = tn_count(data.d_predictions@, data.d_ground_truth@);
                let fnd = fn_count(data.d_predictions@, data.d_ground_truth@);
                ||| tpa + fpa == 0
                ||| tpa + fna == 0
                ||| tpd + fnd == 0
                ||| fpa + tna == 0
                ||| fpd + tnd == 0
            },
            Err(_) => false,
        },
{
    if data.a_predictions.len() != data.a_ground_truth.len() || data.d_predictions.len()
        != data.d_ground_truth.len() {
        return Err(MetricsError::LengthMismatch);
    }
    if data.a_predictions.len() == 0 || data.d_predictions.len() == 0 {
        return Err(MetricsError::EmptyInput);
    }
    if data.a_predictions.len() > FACET_CAP || data.d_predictions.len() > FACET_CAP {
        return Err(MetricsError::InputTooLarge);
    }
    if !crate::data_bias::check_binary(&data.a_predictions) || !crate::data_bias::check_binary(
        &data.a_ground_truth,
    ) || !crate::data_bias::check_binary(&data.d_predictions) || !crate::data_bias::check_binary(
        &data.d_ground_truth,
    ) {
        return Err(MetricsError::NotBinary);
    }
    proof {
        lemma_confusion_partition(data.a_predictions@, data.a_ground_truth@);
        lemma_confusion_partition(data.d_predictions@, data.d_ground_truth@);
    }
    let ca: Confusion = confusion_counts(&data.a_predictions, &data.a_ground_truth);
    let cd: Confusion = confusion_counts(&data.d_predictions, &data.d_ground_truth);
    let na: usize = data.a_predictions.len();
    let nd: usize = data.d_predictions.len();
    // Every rate the disparities divide by must have a positive denominator.
    if ca.true_pos + ca.false_pos == 0 || ca.true_pos + ca.false_neg == 0 || cd.true_pos
        + cd.false_neg == 0 || ca.false_pos + ca.true_neg == 0 || cd.false_pos + cd.true_neg
        == 0 {
        return Err(MetricsError::UndefinedMetric);
    }
    let a_positive_rate: Ratio = Ratio::new((ca.true_pos + ca.false_pos) as i128, na as i128);
    let d_positive_rate: Ratio = Ratio::new((cd.true_pos + cd.false_pos) as i128, nd as i128);
    let a_accuracy: Ratio = Ratio::new((ca.true_pos + ca.true_neg) as i128, na as i128);
    let d_accuracy: Ratio = Ratio::new((cd.true_pos + cd.true_neg) as i128, nd as i128);
    let a_tpr: Ratio = Ratio::new(ca.true_pos as i128, (ca.true_pos + ca.false_neg) as i128);
    let d_tpr: Ratio = Ratio::new(cd.true_pos as i128, (cd.true_pos + cd.false_neg) as i128);
    let a_fpr: Ratio = Ratio::new(ca.false_pos as i128, (ca.false_pos + ca.true_neg) as i128);
    let d_fpr: Ratio = Ratio::new(cd.false_pos as i128, (cd.false_pos + cd.true_neg) as i128);
    proof {
        lemma_rate_products(
            d_positive_rate.num as int,
            d_positive_rate.den as int,
            a_positive_rate.num as int,
            a_positive_rate.den as int,
        );
        crate::ratio::lemma_mul_pos(a_positive_rate.num as int, d_positive_rate.den as int);
    }
    let disparate: Ratio = Ratio::new(
        d_positive_rate.num * a_positive_rate.den,
        a_positive_rate.num * d_positive_rate.den,
    );
    let mut out: Vec<(String, Ratio)> = Vec::new();
    out.push(("diff_in_positive_proportions".to_owned(), rate_diff(&a_positive_rate, &d_positive_rate)));
    out.push(("disparate_impact".to_owned(), disparate));
    out.push(("accuracy_difference".to_owned(), rate_diff(&a_accuracy, &d_accuracy)));
    out.push(("diff_in_true_positive_rates".to_owned(), rate_diff(&a_tpr, &d_tpr)));
    out.push(("diff_in_false_positive_rates".to_owned(), rate_diff(&a_fpr, &d_fpr)));
    Ok(out)
}

} // verus!
