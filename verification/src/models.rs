//! Shared value types: the report shapes returned by the runtime checks,
//! the model-type selector, and the error taxonomy.

use vstd::prelude::*;
use crate::text::str_eq;

verus! {

/// Wire shape of a failed comparison: `passed` is false and `fail_report`
/// carries one diagnostic per drifted metric, keyed by metric name.
pub struct FailureRuntimeReturn {
    pub passed: bool,
    pub fail_report: Option<Vec<(String, String)>>,
}

/// Wire shape of a passed comparison.
pub struct PassedRuntimeReturn {
    pub passed: bool,
}

/// Outcome of one comparator invocation.
pub enum ComparisonReport {
    Passed,
    Failed(Vec<(String, String)>),
}

/// The metric family a report belongs to.
#[derive(PartialEq, Eq, Structural, Clone, Copy, Debug)]
pub enum ModelType {
    LinearRegression,
    LogisiticRegression,
    BinaryClassification,
}

impl ModelType {
    /// Parses a model-type name; any unknown name is rejected.
    pub fn try_from(value: &str) -> (r: Result<ModelType, String>)
        ensures
            value@ == "LinearRegression"@ ==> r == Result::<ModelType, String>::Ok(
                ModelType::LinearRegression,
            ),
            value@ == "LogisiticRegression"@ ==> r == Result::<ModelType, String>::Ok(
                ModelType::LogisiticRegression,
            ),
            value@ == "BinaryClassification"@ ==> r == Result::<ModelType, String>::Ok(
                ModelType::BinaryClassification,
            ),
            value@ != "LinearRegression"@ && value@ != "LogisiticRegression"@ && value@
                != "BinaryClassification"@ ==> (r matches Result::Err(m) && m@
                == "invalid model type"@),
    {
        proof {
            reveal_strlit("LinearRegression");
            reveal_strlit("LogisiticRegression");
            reveal_strlit("BinaryClassification");
            assert("LinearRegression"@.len() == 16);
            assert("LogisiticRegression"@.len() == 19);
            assert("BinaryClassification"@.len() == 20);
        }
        if str_eq(value, "LinearRegression") {
            Ok(ModelType::LinearRegression)
        } else if str_eq(value, "LogisiticRegression") {
            Ok(ModelType::LogisiticRegression)
        } else if str_eq(value, "BinaryClassification") {
            Ok(ModelType::BinaryClassification)
        } else {
            Err("invalid model type".to_owned())
        }
    }
}

/// Input faults of the analyzers, surfaced before any metric is computed,
/// and the undefined-rate condition of the confusion-matrix metrics.
#[derive(PartialEq, Eq, Structural, Clone, Copy, Debug)]
pub enum MetricsError {
    /// A facet or input array is empty.
    EmptyInput,
    /// Prediction and ground-truth arrays differ in length.
    LengthMismatch,
    /// An input is longer than the fixed-width arithmetic admits.
    InputTooLarge,
    /// A label vector holds a value other than 0 or 1.
    NotBinary,
    /// A numeric input exceeds the fixed-width arithmetic's value range.
    ValueTooLarge,
    /// A rate's denominator is zero, so the metric is undefined.
    UndefinedMetric,
}

impl MetricsError {
    /// A short description of the fault.
    pub fn message(&self) -> (r: String)
        ensures
            *self == MetricsError::EmptyInput ==> r@ == "empty input array"@,
            *self == MetricsError::LengthMismatch ==> r@ == "input arrays differ in length"@,
            *self == MetricsError::InputTooLarge ==> r@ == "input array too large"@,
            *self == MetricsError::NotBinary ==> r@ == "label vector holds a value other than 0 or 1"@,
            *self == MetricsError::ValueTooLarge ==> r@ == "input value out of range"@,
            *self == MetricsError::UndefinedMetric ==> r@ == "metric undefined: zero denominator"@,
    {
        match self {
            MetricsError::EmptyInput => "empty input array".to_owned(),
            MetricsError::LengthMismatch => "input arrays differ in length".to_owned(),
            MetricsError::InputTooLarge => "input array too large".to_owned(),
            MetricsError::NotBinary => "label vector holds a value other than 0 or 1".to_owned(),
            MetricsError::ValueTooLarge => "input value out of range".to_owned(),
            MetricsError::UndefinedMetric => "metric undefined: zero denominator".to_owned(),
        }
    }
}

/// Faults of the runtime comparator: one of the two metric maps does not
/// match the schema of its family.
#[derive(PartialEq, Eq, Structural, Clone, Copy, Debug)]
pub enum RuntimeError {
    InvalidBaseline,
    InvalidLatest,
}

impl RuntimeError {
    /// The message the boundary reports for this fault.
    pub fn message(&self) -> (r: String)
        ensures
            *self == RuntimeError::InvalidBaseline ==> r@ == "Invalid baseline body passed"@,
            *self == RuntimeError::InvalidLatest ==> r@ == "Invalid metrics body passed"@,
    {
        match self {
            RuntimeError::InvalidBaseline => "Invalid baseline body passed".to_owned(),
            RuntimeError::InvalidLatest => "Invalid metrics body passed".to_owned(),
        }
    }
}

} // verus!
