//! Fairness and performance metrics for machine-learning pipelines, with
//! a runtime comparator that detects drift between a baseline metric
//! snapshot and a newly computed one.
//!
//! Metric values are exact rationals (`ratio::Ratio`); the boundary that
//! deals in floating point converts at the edge.  The runtime checks
//! return the serialized wire report directly.

use vstd::prelude::*;

pub mod codec;
pub mod data_bias;
pub mod model_bias;
pub mod model_perf;
pub mod models;
pub mod ratio;
pub mod runtime;
pub mod text;

verus! {

use crate::codec::{serialize_passed_return, serialize_failure_return, spec_passed_json,
    spec_failed_json, view_entries};
use crate::models::{FailureRuntimeReturn, PassedRuntimeReturn, RuntimeError};
use crate::ratio::Ratio;
use crate::runtime::{DataBiasRuntime, ModelBiasRuntime, LinearRegressionReport, valid_map,
    small_values, data_bias_required_keys, model_bias_required_keys, regression_required_keys,
    spec_data_bias_runtime, spec_model_bias_runtime, spec_regression_report, data_bias_failures,
    model_bias_failures, regression_failures};

/// A baseline/latest pair of data-bias metric maps: validates both
/// against the data-bias schema, then reports every metric whose drift
/// exceeds the threshold.  The latest map is validated first, as the
/// error precedence shows.
pub fn data_bias_runtime_check(
    baseline: &Vec<(String, Ratio)>,
    latest: &Vec<(String, Ratio)>,
    threshold: &Ratio,
) -> (r: Result<String, RuntimeError>)
    requires
        threshold.small(),
    ensures
        r matches Err(RuntimeError::InvalidLatest) <==> !(valid_map(
            latest@,
            data_bias_required_keys(),
        ) && small_values(latest@)),
        r matches Err(RuntimeError::InvalidBaseline) <==> valid_map(
            latest@,
            data_bias_required_keys(),
        ) && small_values(latest@) && !(valid_map(baseline@, data_bias_required_keys())
            && small_values(baseline@)),
        r matches Ok(s) ==> ({
            let fails = data_bias_failures(
                spec_data_bias_runtime(baseline@),
                spec_data_bias_runtime(latest@),
                *threshold,
            );
            s@ == if fails.len() == 0 {
                spec_passed_json()
            } else {
                spec_failed_json(fails)
            }
        }),
{
    let current: DataBiasRuntime = match DataBiasRuntime::try_from(latest) {
        Ok(obj) => obj,
        Err(_) => {
            return Err(RuntimeError::InvalidLatest);
        },
    };
    let base: DataBiasRuntime = match DataBiasRuntime::try_from(baseline) {
        Ok(obj) => obj,
        Err(_) => {
            return Err(RuntimeError::InvalidBaseline);
        },
    };
    let ghost fails = data_bias_failures(
        spec_data_bias_runtime(baseline@),
        spec_data_bias_runtime(latest@),
        *threshold,
    );
    let failure_report: Vec<(String, String)> = current.runtime_check(&base, threshold);
    if failure_report.len() > 0 {
        proof {
            assert(view_entries(failure_report@) =~= fails);
        }
        let ret = FailureRuntimeReturn { passed: false, fail_report: Some(failure_report) };
        Ok(serialize_failure_return(&ret))
    } else {
        Ok(serialize_passed_return(&PassedRuntimeReturn { passed: true }))
    }
}

/// A baseline/latest pair of model-bias metric maps, validated and
/// compared in the same way.
pub fn model_bias_runtime_check(
    baseline: &Vec<(String, Ratio)>,
    latest: &Vec<(String, Ratio)>,
    threshold: &Ratio,
) -> (r: Result<String, RuntimeError>)
    requires
        threshold.small(),
    ensures
        r matches Err(RuntimeError::InvalidLatest) <==> !(valid_map(
            latest@,
            model_bias_required_keys(),
        ) && small_values(latest@)),
        r matches Err(RuntimeError::InvalidBaseline) <==> valid_map(
            latest@,
            model_bias_required_keys(),
        ) && small_values(latest@) && !(valid_map(baseline@, model_bias_required_keys())
            && small_values(baseline@)),
        r matches Ok(s) ==> ({
            let fails = model_bias_failures(
                spec_model_bias_runtime(baseline@),
                spec_model_bias_runtime(latest@),
                *threshold,
            );
            s@ == if fails.len() == 0 {
                spec_passed_json()
            } else {
                spec_failed_json(fails)
            }
        }),
{
    let current: ModelBiasRuntime = match ModelBiasRuntime::try_from(latest) {
        Ok(obj) => obj,
        Err(_) => {
            return Err(RuntimeError::InvalidLatest);
        },
    };
    let base: ModelBiasRuntime = match ModelBiasRuntime::try_from(baseline) {
        Ok(obj) => obj,
        Err(_) => {
            return Err(RuntimeError::InvalidBaseline);
        },
    };
    let ghost fails = model_bias_failures(
        spec_model_bias_runtime(baseline@),
        spec_model_bias_runtime(latest@),
        *threshold,
    );
    let failure_report: Vec<(String, String)> = current.runtime_check(&base, threshold);
    if failure_report.len() > 0 {
        proof {
            assert(view_entries(failure_report@) =~= fails);
        }
        let ret = FailureRuntimeReturn { passed: false, fail_report: Some(failure_report) };
        Ok(serialize_failure_return(&ret))
    } else {
        Ok(serialize_passed_return(&PassedRuntimeReturn { passed: true }))
    }
}

/// A baseline/latest pair of regression-performance metric maps; here
/// the baseline is validated first, as the error precedence shows.
pub fn regression_performance_runtime_full(
    baseline: &Vec<(String, Ratio)>,
    latest: &Vec<(String, Ratio)>,
    threshold: &Ratio,
) -> (r: Result<String, RuntimeError>)
    requires
        threshold.small(),
    ensures
        r matches Err(RuntimeError::InvalidBaseline) <==> !(valid_map(
            baseline@,
            regression_required_keys(),
        ) && small_values(baseline@)),
        r matches Err(RuntimeError::InvalidLatest) <==> valid_map(
            baseline@,
            regression_required_keys(),
        ) && small_values(baseline@) && !(valid_map(latest@, regression_required_keys())
            && small_values(latest@)),
        r matches Ok(s) ==> ({
            let fails = regression_failures(
                spec_regression_report(baseline@),
                spec_regression_report(latest@),
                *threshold,
            );
            s@ == if fails.len() == 0 {
                spec_passed_json()
            } else {
                spec_failed_json(fails)
            }
        }),
{
    let base: LinearRegressionReport = match LinearRegressionReport::try_from(baseline) {
        Ok(obj) => obj,
        Err(_) => {
            return Err(RuntimeError::InvalidBaseline);
        },
    };
    let current: LinearRegressionReport = match LinearRegressionReport::try_from(latest) {
        Ok(obj) => obj,
        Err(_) => {
            return Err(RuntimeError::InvalidLatest);
        },
    };
    let ghost fails = regression_failures(
        spec_regression_report(baseline@),
        spec_regression_report(latest@),
        *threshold,
    );
    let failure_report: Vec<(String, String)> = current.compare_to_baseline(&base, threshold);
    if failure_report.len() > 0 {
        proof {
            assert(view_entries(failure_report@) =~= fails);
        }
        let ret = FailureRuntimeReturn { passed: false, fail_report: Some(failure_report) };
        Ok(serialize_failure_return(&ret))
    } else {
        Ok(serialize_passed_return(&PassedRuntimeReturn { passed: true }))
    }
}

/// As `regression_performance_runtime_full`; the metric subset is
/// accepted but, as in the behaviour this library preserves, does not
/// narrow the comparison.
pub fn regression_performance_runtime_partial(
    baseline: &Vec<(String, Ratio)>,
    latest: &Vec<(String, Ratio)>,
    evaluation_metrics: &Vec<String>,
    threshold: &Ratio,
) -> (r: Result<String, RuntimeError>)
    requires
        threshold.small(),
    ensures
        r matches Err(RuntimeError::InvalidBaseline) <==> !(valid_map(
            baseline@,
            regression_required_keys(),
        ) && small_values(baseline@)),
        r matches Err(RuntimeError::InvalidLatest) <==> valid_map(
            baseline@,
            regression_required_keys(),
        ) && small_values(baseline@) && !(valid_map(latest@, regression_required_keys())
            && small_values(latest@)),
        r matches Ok(s) ==> ({
            let fails = regression_failures(
                spec_regression_report(baseline@),
                spec_regression_report(latest@),
                *threshold,
            );
            s@ == if fails.len() == 0 {
                spec_passed_json()
            } else {
                spec_failed_json(fails)
            }
        }),
{
    let _ = evaluation_metrics;
    regression_performance_runtime_full(baseline, latest, threshold)
}

} // verus!
