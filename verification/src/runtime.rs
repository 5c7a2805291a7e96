//! The runtime drift comparator.
//!
//! A metric map is a list of name/value entries.  Validation demands the
//! exact key set of the metric family: the entry count equals the number
//! of required keys, no key repeats, and every required key is present
//! (together: the key set is exactly the required one).  Comparison flags
//! a metric as drifted when `|latest - baseline| > threshold` over the
//! exact rational values; the report carries one human-readable
//! diagnostic per drifted metric.

use vstd::prelude::*;
use crate::ratio::{Ratio, spec_drifted, spec_increased, drift_exceeds, value_increased};
use crate::text::{string_eq_str, decimal_string, spec_decimal};

verus! {

/// Some entry has key `k`.
pub open spec fn map_has_key(m: Seq<(String, Ratio)>, k: Seq<char>) -> bool {
    exists|i: int| 0 <= i < m.len() && #[trigger] m[i].0@ == k
}

/// No two entries share a key.
pub open spec fn no_dup_keys(m: Seq<(String, Ratio)>) -> bool {
    forall|i: int, j: int| 0 <= i < j < m.len() ==> m[i].0@ != m[j].0@
}

/// The value stored under key `k` (meaningful when the key is present
/// and keys do not repeat).
pub open spec fn map_get(m: Seq<(String, Ratio)>, k: Seq<char>) -> Ratio {
    m[choose|i: int| 0 <= i < m.len() && #[trigger] m[i].0@ == k].1
}

/// Every value is within the comparison arithmetic's bounds.
pub open spec fn small_values(m: Seq<(String, Ratio)>) -> bool {
    forall|i: int| 0 <= i < m.len() ==> (#[trigger] m[i].1).small()
}

/// The map's key set is exactly the required one.
pub open spec fn valid_map(m: Seq<(String, Ratio)>, req: Seq<Seq<char>>) -> bool {
    &&& m.len() == req.len()
    &&& no_dup_keys(m)
    &&& forall|i: int| 0 <= i < req.len() ==> map_has_key(m, #[trigger] req[i])
}

/// First value under `key`; when keys do not repeat, the value of the map
/// at that key.
fn lookup(m: &Vec<(String, Ratio)>, key: &str) -> (r: Option<Ratio>)
    ensures
        match r {
            Some(v) => map_has_key(m@, key@) && (no_dup_keys(m@) ==> v == map_get(m@, key@)),
            None => !map_has_key(m@, key@),
        },
{
    let mut i: usize = 0;
    while i < m.len()
        invariant
            i <= m@.len(),
            forall|j: int| 0 <= j < i ==> m@[j].0@ != key@,
        decreases m@.len() - i,
    {
        let hit: bool = string_eq_str(&m[i].0, key);
        if hit {
            let v: Ratio = m[i].1;
            proof {
                if no_dup_keys(m@) {
                    let j = choose|j: int| 0 <= j < m@.len() && #[trigger] m@[j].0@ == key@;
                    assert(j == i);
                }
            }
            return Some(v);
        }
        i = i + 1;
    }
    None
}

/// Whether no key repeats.
fn check_no_dup(m: &Vec<(String, Ratio)>) -> (r: bool)
    ensures
        r == no_dup_keys(m@),
{
    let mut i: usize = 0;
    while i < m.len()
        invariant
            i <= m@.len(),
            forall|p: int, q: int| 0 <= p < q < m@.len() && p < i ==> m@[p].0@ != m@[q].0@,
        decreases m@.len() - i,
    {
        let mut j: usize = i + 1;
        while j < m.len()
            invariant
                i < j <= m@.len() || (i >= m@.len() && j == i + 1),
                i < m@.len(),
                forall|q: int| i < q < j ==> m@[i as int].0@ != m@[q].0@,
            decreases m@.len() - j,
        {
            let dup: bool = string_eq_str(&m[j].0, m[i].0.as_str());
            if dup {
                return false;
            }
            j = j + 1;
        }
        i = i + 1;
    }
    true
}

/// Whether every value is within the comparison bounds.
fn check_small_values(m: &Vec<(String, Ratio)>) -> (r: bool)
    ensures
        r == small_values(m@),
{
    let mut i: usize = 0;
    while i < m.len()
        invariant
            i <= m@.len(),
            forall|j: int| 0 <= j < i ==> (#[trigger] m@[j].1).small(),
        decreases m@.len() - i,
    {
        let v: Ratio = m[i].1;
        if v.den <= 0 || v.den > crate::ratio::RATIO_BOUND || v.num < -crate::ratio::RATIO_BOUND
            || v.num > crate::ratio::RATIO_BOUND {
            return false;
        }
        i = i + 1;
    }
    true
}

/// Rendering of a rational value as `num/den`.
pub open spec fn spec_rat_seq(r: Ratio) -> Seq<char> {
    if r.num < 0 {
        "-"@ + spec_decimal(-r.num) + "/"@ + spec_decimal(r.den as int)
    } else {
        spec_decimal(r.num as int) + "/"@ + spec_decimal(r.den as int)
    }
}

fn rat_string(r: &Ratio) -> (s: String)
    requires
        r.small(),
    ensures
        s@ == spec_rat_seq(*r),
{
    if r.num < 0 {
        let mut s: String = "-".to_owned();
        let n: String = decimal_string((-r.num) as u128);
        s.append(n.as_str());
        s.append("/");
        let d: String = decimal_string(r.den as u128);
        s.append(d.as_str());
        s
    } else {
        let mut s: String = decimal_string(r.num as u128);
        s.append("/");
        let d: String = decimal_string(r.den as u128);
        s.append(d.as_str());
        s
    }
}

/// The diagnostic recorded for one drifted metric: its name, both values
/// and the direction of the drift.
pub open spec fn spec_diag(name: Seq<char>, baseline: Ratio, latest: Ratio) -> Seq<char> {
    name + ": baseline "@ + spec_rat_seq(baseline) + ", latest "@ + spec_rat_seq(latest) + (
    if spec_increased(baseline, latest) {
        ", increased beyond threshold"@
    } else {
        ", decreased beyond threshold"@
    })
}

fn diagnostic(name: &str, baseline: &Ratio, latest: &Ratio) -> (r: String)
    requires
        baseline.small(),
        latest.small(),
    ensures
        r@ == spec_diag(name@, *baseline, *latest),
{
    let mut s: String = name.to_owned();
    s.append(": baseline ");
    let bs: String = rat_string(baseline);
    s.append(bs.as_str());
    s.append(", latest ");
    let ls: String = rat_string(latest);
    s.append(ls.as_str());
    if value_increased(baseline, latest) {
        s.append(", increased beyond threshold");
    } else {
        s.append(", decreased beyond threshold");
    }
    s
}

/// The failure entries of a report, as views.
pub open spec fn entries_match(v: Seq<(String, String)>, e: Seq<(Seq<char>, Seq<char>)>) -> bool {
    &&& v.len() == e.len()
    &&& forall|i: int| 0 <= i < v.len() ==> (#[trigger] v[i]).0@ == e[i].0 && v[i].1@ == e[i].1
}

/// Extends the failure entries by `name` when the metric drifted.
pub open spec fn step_failures(
    s: Seq<(Seq<char>, Seq<char>)>,
    name: Seq<char>,
    baseline: Ratio,
    latest: Ratio,
    threshold: Ratio,
) -> Seq<(Seq<char>, Seq<char>)> {
    if spec_drifted(baseline, latest, threshold) {
        s.push((name, spec_diag(name, baseline, latest)))
    } else {
        s
    }
}

/// Appends the diagnostic for one metric when it drifted.
fn push_if_drifted(
    out: &mut Vec<(String, String)>,
    name: &str,
    baseline: &Ratio,
    latest: &Ratio,
    threshold: &Ratio,
    Ghost(entries): Ghost<Seq<(Seq<char>, Seq<char>)>>,
)
    requires
        baseline.small(),
        latest.small(),
        threshold.small(),
        entries_match(old(out)@, entries),
    ensures
        entries_match(final(out)@, step_failures(entries, name@, *baseline, *latest, *threshold)),
{
    if drift_exceeds(baseline, latest, threshold) {
        let d: String = diagnostic(name, baseline, latest);
        out.push((name.to_owned(), d));
    }
}

/// Latest snapshot of the data-bias family: the two acceptance rates.
pub struct DataBiasRuntime {
    pub a_acceptance: Ratio,
    pub d_acceptance: Ratio,
}

/// The key set of the data-bias family.
pub open spec fn data_bias_required_keys() -> Seq<Seq<char>> {
    seq!["a_acceptance"@, "d_acceptance"@]
}

/// The data-bias snapshot a valid metric map denotes.
pub open spec fn spec_data_bias_runtime(m: Seq<(String, Ratio)>) -> DataBiasRuntime {
    DataBiasRuntime {
        a_acceptance: map_get(m, "a_acceptance"@),
        d_acceptance: map_get(m, "d_acceptance"@),
    }
}

/// The failure entries of a data-bias comparison, in key order.
pub open spec fn data_bias_failures(
    baseline: DataBiasRuntime,
    latest: DataBiasRuntime,
    threshold: Ratio,
) -> Seq<(Seq<char>, Seq<char>)> {
    let s0 = Seq::<(Seq<char>, Seq<char>)>::empty();
    let s1 = step_failures(
        s0,
        "a_acceptance"@,
        baseline.a_acceptance,
        latest.a_acceptance,
        threshold,
    );
    step_failures(s1, "d_acceptance"@, baseline.d_acceptance, latest.d_acceptance, threshold)
}

impl DataBiasRuntime {
    pub open spec fn wf(self) -> bool {
        self.a_acceptance.small() && self.d_acceptance.small()
    }

    /// Validates a metric map against the data-bias schema.
    pub fn try_from(m: &Vec<(String, Ratio)>) -> (r: Result<DataBiasRuntime, String>)
        ensures
            r is Ok <==> valid_map(m@, data_bias_required_keys()) && small_values(m@),
            r matches Ok(x) ==> x == spec_data_bias_runtime(m@) && x.wf(),
            r matches Err(e) ==> e@ == "invalid metric map"@,
    {
        if m.len() != 2 {
            proof {
                assert(data_bias_required_keys().len() == 2);
            }
            return Err("invalid metric map".to_owned());
        }
        if !check_no_dup(m) {
            return Err("invalid metric map".to_owned());
        }
        if !check_small_values(m) {
            return Err("invalid metric map".to_owned());
        }
        let a: Ratio = match lookup(m, "a_acceptance") {
            Some(v) => v,
            None => {
                return Err("invalid metric map".to_owned());
            },
        };
        let d: Ratio = match lookup(m, "d_acceptance") {
            Some(v) => v,
            None => {
                return Err("invalid metric map".to_owned());
            },
        };
        proof {
            assert(data_bias_required_keys()[0] == "a_acceptance"@);
            assert(data_bias_required_keys()[1] == "d_acceptance"@);
            assert(forall|i: int| 0 <= i < data_bias_required_keys().len() ==> map_has_key(
                m@,
                #[trigger] data_bias_required_keys()[i],
            ));
        }
        Ok(DataBiasRuntime { a_acceptance: a, d_acceptance: d })
    }

    /// Compares this latest snapshot against a baseline: one failure
    /// entry per metric whose drift exceeds the threshold.
    pub fn runtime_check(&self, baseline: &DataBiasRuntime, threshold: &Ratio) -> (r: Vec<
        (String, String),
    >)
        requires
            self.wf(),
            baseline.wf(),
            threshold.small(),
        ensures
            entries_match(r@, data_bias_failures(*baseline, *self, *threshold)),
    {
        let mut out: Vec<(String, String)> = Vec::new();
        let ghost e0 = Seq::<(Seq<char>, Seq<char>)>::empty();
        push_if_drifted(
            &mut out,
            "a_acceptance",
            &baseline.a_acceptance,
            &self.a_acceptance,
            threshold,
            Ghost(e0),
        );
        let ghost e1 = step_failures(
            e0,
            "a_acceptance"@,
            baseline.a_acceptance,
            self.a_acceptance,
            *threshold,
        );
        push_if_drifted(
            &mut out,
            "d_acceptance",
            &baseline.d_acceptance,
            &self.d_acceptance,
            threshold,
            Ghost(e1),
        );
        out
    }
}

/// A metric never drifts from itself: for any well-formed value and any
/// threshold at least zero, the drift test fails.
pub proof fn lemma_no_drift_on_equal(v: Ratio, t: Ratio)
    requires
        v.wf(),
        t.wf(),
        t.num >= 0,
    ensures
        !spec_drifted(v, v, t),
{
    assert(v.num * v.den - v.num * v.den == 0);
    assert(crate::ratio::abs_int(0) == 0);
    assert(crate::ratio::abs_int(v.num * v.den - v.num * v.den) * t.den == 0);
    assert(t.num * (v.den * v.den) >= 0) by (nonlinear_arith)
        requires
            t.num >= 0,
            v.den > 0,
    ;
}

/// Comparing a data-bias snapshot against itself yields no failure
/// entries, for any threshold at least zero.
pub proof fn lemma_data_bias_passes_on_equal(v: DataBiasRuntime, t: Ratio)
    requires
        v.wf(),
        t.small(),
        t.num >= 0,
    ensures
        data_bias_failures(v, v, t).len() == 0,
{
    lemma_no_drift_on_equal(v.a_acceptance, t);
    lemma_no_drift_on_equal(v.d_acceptance, t);
}

/// Comparing a model-bias snapshot against itself yields no failure
/// entries, for any threshold at least zero.
pub proof fn lemma_model_bias_passes_on_equal(v: ModelBiasRuntime, t: Ratio)
    requires
        v.wf(),
        t.small(),
        t.num >= 0,
    ensures
        model_bias_failures(v, v, t).len() == 0,
{
    lemma_no_drift_on_equal(v.diff_in_positive_proportions, t);
    lemma_no_drift_on_equal(v.disparate_impact, t);
    lemma_no_drift_on_equal(v.accuracy_difference, t);
    lemma_no_drift_on_equal(v.diff_in_true_positive_rates, t);
    lemma_no_drift_on_equal(v.diff_in_false_positive_rates, t);
}

/// Comparing a regression-performance snapshot against itself yields no
/// failure entries, for any threshold at least zero.
pub proof fn lemma_regression_passes_on_equal(v: LinearRegressionReport, t: Ratio)
    requires
        v.wf(),
        t.small(),
        t.num >= 0,
    ensures
        regression_failures(v, v, t).len() == 0,
{
    lemma_no_drift_on_equal(v.mae, t);
    lemma_no_drift_on_equal(v.mse, t);
    lemma_no_drift_on_equal(v.rmse, t);
    lemma_no_drift_on_equal(v.r2, t);
}

/// A value read from a valid, bounded metric map is bounded.
proof fn lemma_map_get_small(m: Seq<(String, Ratio)>, k: Seq<char>)
    requires
        map_has_key(m, k),
        small_values(m),
    ensures
        map_get(m, k).small(),
{
    let i = choose|i: int| 0 <= i < m.len() && #[trigger] m[i].0@ == k;
    assert(m[i].1.small());
}

/// The comparator passes a valid data-bias map against itself, for any
/// threshold at least zero: the failure entries are empty.
pub proof fn lemma_data_bias_check_passes_on_identical(m: Seq<(String, Ratio)>, t: Ratio)
    requires
        valid_map(m, data_bias_required_keys()),
        small_values(m),
        t.small(),
        t.num >= 0,
    ensures
        data_bias_failures(spec_data_bias_runtime(m), spec_data_bias_runtime(m), t).len() == 0,
{
    assert(map_has_key(m, "a_acceptance"@)) by {
        assert(data_bias_required_keys()[0] == "a_acceptance"@);
    }
    assert(map_has_key(m, "d_acceptance"@)) by {
        assert(data_bias_required_keys()[1] == "d_acceptance"@);
    }
    lemma_map_get_small(m, "a_acceptance"@);
    lemma_map_get_small(m, "d_acceptance"@);
    lemma_data_bias_passes_on_equal(spec_data_bias_runtime(m), t);
}

/// The comparator passes a valid regression-performance map against
/// itself, for any threshold at least zero.
pub proof fn lemma_regression_check_passes_on_identical(m: Seq<(String, Ratio)>, t: Ratio)
    requires
        valid_map(m, regression_required_keys()),
        small_values(m),
        t.small(),
        t.num >= 0,
    ensures
        regression_failures(spec_regression_report(m), spec_regression_report(m), t).len() == 0,
{
    assert(map_has_key(m, "mae"@)) by {
        assert(regression_required_keys()[0] == "mae"@);
    }
    assert(map_has_key(m, "mse"@)) by {
        assert(regression_required_keys()[1] == "mse"@);
    }
    assert(map_has_key(m, "rmse"@)) by {
        assert(regression_required_keys()[2] == "rmse"@);
    }
    assert(map_has_key(m, "r2"@)) by {
        assert(regression_required_keys()[3] == "r2"@);
    }
    lemma_map_get_small(m, "mae"@);
    lemma_map_get_small(m, "mse"@);
    lemma_map_get_small(m, "rmse"@);
    lemma_map_get_small(m, "r2"@);
    lemma_regression_passes_on_equal(spec_regression_report(m), t);
}

/// The comparator passes a valid model-bias map against itself, for any
/// threshold at least zero.
pub proof fn lemma_model_bias_check_passes_on_identical(m: Seq<(String, Ratio)>, t: Ratio)
    requires
        valid_map(m, model_bias_required_keys()),
        small_values(m),
        t.small(),
        t.num >= 0,
    ensures
        model_bias_failures(spec_model_bias_runtime(m), spec_model_bias_runtime(m), t).len()
            == 0,
{
    assert(map_has_key(m, "diff_in_positive_proportions"@)) by {
        assert(model_bias_required_keys()[0] == "diff_in_positive_proportions"@);
    }
    assert(map_has_key(m, "disparate_impact"@)) by {
        assert(model_bias_required_keys()[1] == "disparate_impact"@);
    }
    assert(map_has_key(m, "accuracy_difference"@)) by {
        assert(model_bias_required_keys()[2] == "accuracy_difference"@);
    }
    assert(map_has_key(m, "diff_in_true_positive_rates"@)) by {
        assert(model_bias_required_keys()[3] == "diff_in_true_positive_rates"@);
    }
    assert(map_has_key(m, "diff_in_false_positive_rates"@)) by {
        assert(model_bias_required_keys()[4] == "diff_in_false_positive_rates"@);
    }
    lemma_map_get_small(m, "diff_in_positive_proportions"@);
    lemma_map_get_small(m, "disparate_impact"@);
    lemma_map_get_small(m, "accuracy_difference"@);
    lemma_map_get_small(m, "diff_in_true_positive_rates"@);
    lemma_map_get_small(m, "diff_in_false_positive_rates"@);
    lemma_model_bias_passes_on_equal(spec_model_bias_runtime(m), t);
}

/// Latest snapshot of the model-bias family: the five disparity metrics.
pub struct ModelBiasRuntime {
    pub diff_in_positive_proportions: Ratio,
    pub disparate_impact: Ratio,
    pub accuracy_difference: Ratio,
    pub diff_in_true_positive_rates: Ratio,
    pub diff_in_false_positive_rates: Ratio,
}

/// The key set of the model-bias family.
pub open spec fn model_bias_required_keys() -> Seq<Seq<char>> {
    seq![
        "diff_in_positive_proportions"@,
        "disparate_impact"@,
        "accuracy_difference"@,
        "diff_in_true_positive_rates"@,
        "diff_in_false_positive_rates"@,
    ]
}

/// The model-bias snapshot a valid metric map denotes.
pub open spec fn spec_model_bias_runtime(m: Seq<(String, Ratio)>) -> ModelBiasRuntime {
    ModelBiasRuntime {
        diff_in_positive_proportions: map_get(m, "diff_in_positive_proportions"@),
        disparate_impact: map_get(m, "disparate_impact"@),
        accuracy_difference: map_get(m, "accuracy_difference"@),
        diff_in_true_positive_rates: map_get(m, "diff_in_true_positive_rates"@),
        diff_in_false_positive_rates: map_get(m, "diff_in_false_positive_rates"@),
    }
}

/// The failure entries of a model-bias comparison, in key order.
pub open spec fn model_bias_failures(
    baseline: ModelBiasRuntime,
    latest: ModelBiasRuntime,
    threshold: Ratio,
) -> Seq<(Seq<char>, Seq<char>)> {
    let s0 = Seq::<(Seq<char>, Seq<char>)>::empty();
    let s1 = step_failures(
        s0,
        "diff_in_positive_proportions"@,
        baseline.diff_in_positive_proportions,
        latest.diff_in_positive_proportions,
        threshold,
    );
    let s2 = step_failures(
        s1,
        "disparate_impact"@,
        baseline.disparate_impact,
        latest.disparate_impact,
        threshold,
    );
    let s3 = step_failures(
        s2,
        "accuracy_difference"@,
        baseline.accuracy_difference,
        latest.accuracy_difference,
        threshold,
    );
    let s4 = step_failures(
        s3,
        "diff_in_true_positive_rates"@,
        baseline.diff_in_true_positive_rates,
        latest.diff_in_true_positive_rates,
        threshold,
    );
    step_failures(
        s4,
        "diff_in_false_positive_rates"@,
        baseline.diff_in_false_positive_rates,
        latest.diff_in_false_positive_rates,
        threshold,
    )
}

impl ModelBiasRuntime {
    pub open spec fn wf(self) -> bool {
        &&& self.diff_in_positive_proportions.small()
        &&& self.disparate_impact.small()
        &&& self.accuracy_difference.small()
        &&& self.diff_in_true_positive_rates.small()
        &&& self.diff_in_false_positive_rates.small()
    }

    /// Validates a metric map against the model-bias schema.
    pub fn try_from(m: &Vec<(String, Ratio)>) -> (r: Result<ModelBiasRuntime, String>)
        ensures
            r is Ok <==> valid_map(m@, model_bias_required_keys()) && small_values(m@),
            r matches Ok(x) ==> x == spec_model_bias_runtime(m@) && x.wf(),
            r matches Err(e) ==> e@ == "invalid metric map"@,
    {
        if m.len() != 5 {
            proof {
                assert(model_bias_required_keys().len() == 5);
            }
            return Err("invalid metric map".to_owned());
        }
        if !check_no_dup(m) {
            return Err("invalid metric map".to_owned());
        }
        if !check_small_values(m) {
            return Err("invalid metric map".to_owned());
        }
        let v0: Ratio = match lookup(m, "diff_in_positive_proportions") {
            Some(v) => v,
            None => {
                return Err("invalid metric map".to_owned());
            },
        };
        let v1: Ratio = match lookup(m, "disparate_impact") {
            Some(v) => v,
            None => {
                return Err("invalid metric map".to_owned());
            },
        };
        let v2: Ratio = match lookup(m, "accuracy_difference") {
            Some(v) => v,
            None => {
                return Err("invalid metric map".to_owned());
            },
        };
        let v3: Ratio = match lookup(m, "diff_in_true_positive_rates") {
            Some(v) => v,
            None => {
                return Err("invalid metric map".to_owned());
            },
        };
        let v4: Ratio = match lookup(m, "diff_in_false_positive_rates") {
            Some(v) => v,
            None => {
                return Err("invalid metric map".to_owned());
            },
        };
        proof {
            assert(forall|i: int| 0 <= i < model_bias_required_keys().len() ==> map_has_key(
                m@,
                #[trigger] model_bias_required_keys()[i],
            ));
        }
        Ok(
            ModelBiasRuntime {
                diff_in_positive_proportions: v0,
                disparate_impact: v1,
                accuracy_difference: v2,
                diff_in_true_positive_rates: v3,
                diff_in_false_positive_rates: v4,
            },
        )
    }

    /// Compares this latest snapshot against a baseline: one failure
    /// entry per metric whose drift exceeds the threshold.
    pub fn runtime_check(&self, baseline: &ModelBiasRuntime, threshold: &Ratio) -> (r: Vec<
        (String, String),
    >)
        requires
            self.wf(),
            baseline.wf(),
            threshold.small(),
        ensures
            entries_match(r@, model_bias_failures(*baseline, *self, *threshold)),
    {
        let mut out: Vec<(String, String)> = Vec::new();
        let ghost e0 = Seq::<(Seq<char>, Seq<char>)>::empty();
        push_if_drifted(
            &mut out,
            "diff_in_positive_proportions",
            &baseline.diff_in_positive_proportions,
            &self.diff_in_positive_proportions,
            threshold,
            Ghost(e0),
        );
        let ghost e1 = step_failures(
            e0,
            "diff_in_positive_proportions"@,
            baseline.diff_in_positive_proportions,
            self.diff_in_positive_proportions,
            *threshold,
        );
        push_if_drifted(
            &mut out,
            "disparate_impact",
            &baseline.disparate_impact,
            &self.disparate_impact,
            threshold,
            Ghost(e1),
        );
        let ghost e2 = step_failures(
            e1,
            "disparate_impact"@,
            baseline.disparate_impact,
            self.disparate_impact,
            *threshold,
        );
        push_if_drifted(
            &mut out,
            "accuracy_difference",
            &baseline.accuracy_difference,
            &self.accuracy_difference,
            threshold,
            Ghost(e2),
        );
        let ghost e3 = step_failures(
            e2,
            "accuracy_difference"@,
            baseline.accuracy_difference,
            self.accuracy_difference,
            *threshold,
        );
        push_if_drifted(
            &mut out,
            "diff_in_true_positive_rates",
            &baseline.diff_in_true_positive_rates,
            &self.diff_in_true_positive_rates,
            threshold,
            Ghost(e3),
        );
        let ghost e4 = step_failures(
            e3,
            "diff_in_true_positive_rates"@,
            baseline.diff_in_true_positive_rates,
            self.diff_in_true_positive_rates,
            *threshold,
        );
        push_if_drifted(
            &mut out,
            "diff_in_false_positive_rates",
            &baseline.diff_in_false_positive_rates,
            &self.diff_in_false_positive_rates,
            threshold,
            Ghost(e4),
        );
        out
    }
}

/// Latest snapshot of the regression-performance family.
pub struct LinearRegressionReport {
    pub mae: Ratio,
    pub mse: Ratio,
    pub rmse: Ratio,
    pub r2: Ratio,
}

/// The key set of the regression-performance family.
pub open spec fn regression_required_keys() -> Seq<Seq<char>> {
    seq!["mae"@, "mse"@, "rmse"@, "r2"@]
}

/// The regression snapshot a valid metric map denotes.
pub open spec fn spec_regression_report(m: Seq<(String, Ratio)>) -> LinearRegressionReport {
    LinearRegressionReport {
        mae: map_get(m, "mae"@),
        mse: map_get(m, "mse"@),
        rmse: map_get(m, "rmse"@),
        r2: map_get(m, "r2"@),
    }
}

/// The failure entries of a regression-performance comparison, in key
/// order.
pub open spec fn regression_failures(
    baseline: LinearRegressionReport,
    latest: LinearRegressionReport,
    threshold: Ratio,
) -> Seq<(Seq<char>, Seq<char>)> {
    let s0 = Seq::<(Seq<char>, Seq<char>)>::empty();
    let s1 = step_failures(s0, "mae"@, baseline.mae, latest.mae, threshold);
    let s2 = step_failures(s1, "mse"@, baseline.mse, latest.mse, threshold);
    let s3 = step_failures(s2, "rmse"@, baseline.rmse, latest.rmse, threshold);
    step_failures(s3, "r2"@, baseline.r2, latest.r2, threshold)
}

impl LinearRegressionReport {
    pub open spec fn wf(self) -> bool {
        &&& self.mae.small()
        &&& self.mse.small()
        &&& self.rmse.small()
        &&& self.r2.small()
    }

    /// Validates a metric map against the regression-performance schema.
    pub fn try_from(m: &Vec<(String, Ratio)>) -> (r: Result<LinearRegressionReport, String>)
        ensures
            r is Ok <==> valid_map(m@, regression_required_keys()) && small_values(m@),
            r matches Ok(x) ==> x == spec_regression_report(m@) && x.wf(),
            r matches Err(e) ==> e@ == "invalid metric map"@,
    {
        if m.len() != 4 {
            proof {
                assert(regression_required_keys().len() == 4);
            }
            return Err("invalid metric map".to_owned());
        }
        if !check_no_dup(m) {
            return Err("invalid metric map".to_owned());
        }
        if !check_small_values(m) {
            return Err("invalid metric map".to_owned());
        }
        let v0: Ratio = match lookup(m, "mae") {
            Some(v) => v,
            None => {
                return Err("invalid metric map".to_owned());
            },
        };
        let v1: Ratio = match lookup(m, "mse") {
            Some(v) => v,
            None => {
                return Err("invalid metric map".to_owned());
            },
        };
        let v2: Ratio = match lookup(m, "rmse") {
            Some(v) => v,
            None => {
                return Err("invalid metric map".to_owned());
            },
        };
        let v3: Ratio = match lookup(m, "r2") {
            Some(v) => v,
            None => {
                return Err("invalid metric map".to_owned());
            },
        };
        proof {
            assert(forall|i: int| 0 <= i < regression_required_keys().len() ==> map_has_key(
                m@,
                #[trigger] regression_required_keys()[i],
            ));
        }
        Ok(LinearRegressionReport { mae: v0, mse: v1, rmse: v2, r2: v3 })
    }

    /// Compares this latest snapshot against a baseline: one failure
    /// entry per metric whose drift exceeds the threshold.
    pub fn compare_to_baseline(&self, baseline: &LinearRegressionReport, threshold: &Ratio) -> (r:
        Vec<(String, String)>)
        requires
            self.wf(),
            baseline.wf(),
            threshold.small(),
        ensures
            entries_match(r@, regression_failures(*baseline, *self, *threshold)),
    {
        let mut out: Vec<(String, String)> = Vec::new();
        let ghost e0 = Seq::<(Seq<char>, Seq<char>)>::empty();
        push_if_drifted(&mut out, "mae", &baseline.mae, &self.mae, threshold, Ghost(e0));
        let ghost e1 = step_failures(e0, "mae"@, baseline.mae, self.mae, *threshold);
        push_if_drifted(&mut out, "mse", &baseline.mse, &self.mse, threshold, Ghost(e1));
        let ghost e2 = step_failures(e1, "mse"@, baseline.mse, self.mse, *threshold);
        push_if_drifted(&mut out, "rmse", &baseline.rmse, &self.rmse, threshold, Ghost(e2));
        let ghost e3 = step_failures(e2, "rmse"@, baseline.rmse, self.rmse, *threshold);
        push_if_drifted(&mut out, "r2", &baseline.r2, &self.r2, threshold, Ghost(e3));
        out
    }
}

} // verus!
