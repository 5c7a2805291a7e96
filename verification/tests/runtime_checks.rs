use fair_ml::codec::{parse_report, serialize_report};
use fair_ml::models::{ComparisonReport, ModelType, RuntimeError};
use fair_ml::ratio::Ratio;
use fair_ml::runtime::{DataBiasRuntime, LinearRegressionReport};
use fair_ml::{
    data_bias_runtime_check, model_bias_runtime_check, regression_performance_runtime_full,
    regression_performance_runtime_partial,
};

fn r(num: i128, den: i128) -> Ratio {
    Ratio { num, den }
}

fn tenth() -> Ratio {
    r(1, 10)
}

fn data_map(a: Ratio, d: Ratio) -> Vec<(String, Ratio)> {
    vec![("a_acceptance".to_owned(), a), ("d_acceptance".to_owned(), d)]
}

fn model_map(v: Ratio) -> Vec<(String, Ratio)> {
    vec![
        ("diff_in_positive_proportions".to_owned(), v),
        ("disparate_impact".to_owned(), v),
        ("accuracy_difference".to_owned(), v),
        ("diff_in_true_positive_rates".to_owned(), v),
        ("diff_in_false_positive_rates".to_owned(), v),
    ]
}

fn regression_map(v: Ratio) -> Vec<(String, Ratio)> {
    vec![
        ("mae".to_owned(), v),
        ("mse".to_owned(), v),
        ("rmse".to_owned(), v),
        ("r2".to_owned(), v),
    ]
}

#[test]
fn identical_data_bias_maps_pass() {
    let m = data_map(r(1, 2), r(1, 2));
    let out = data_bias_runtime_check(&m, &m.clone(), &tenth()).unwrap();
    assert_eq!(out, "{\"passed\":true}");
}

#[test]
fn identical_maps_pass_for_any_nonnegative_threshold() {
    let m = data_map(r(3, 7), r(2, 9));
    for t in [r(0, 1), r(1, 1000), r(5, 1)] {
        let out = data_bias_runtime_check(&m, &m.clone(), &t).unwrap();
        assert_eq!(out, "{\"passed\":true}");
    }
}

#[test]
fn missing_key_is_a_validation_error() {
    let good = data_map(r(1, 2), r(1, 2));
    let missing = vec![("a_acceptance".to_owned(), r(1, 2))];
    let err = data_bias_runtime_check(&good, &missing, &tenth()).unwrap_err();
    assert_eq!(err, RuntimeError::InvalidLatest);
    assert_eq!(err.message(), "Invalid metrics body passed");
    let err2 = data_bias_runtime_check(&missing, &good, &tenth()).unwrap_err();
    assert_eq!(err2, RuntimeError::InvalidBaseline);
    assert_eq!(err2.message(), "Invalid baseline body passed");
}

#[test]
fn unexpected_key_is_a_validation_error() {
    let good = data_map(r(1, 2), r(1, 2));
    let mut extra = data_map(r(1, 2), r(1, 2));
    extra.push(("kl_divergence".to_owned(), r(0, 1)));
    let err = data_bias_runtime_check(&good, &extra, &tenth()).unwrap_err();
    assert_eq!(err, RuntimeError::InvalidLatest);
}

#[test]
fn drifted_acceptance_rate_fails_with_an_entry() {
    // Baseline 0.5/0.5, latest 0.5/0.7 at threshold 0.10: only the
    // d-facet acceptance drifted (|0.7 - 0.5| = 0.2 > 0.1).
    let baseline = data_map(r(5, 10), r(5, 10));
    let latest = data_map(r(5, 10), r(7, 10));
    let out = data_bias_runtime_check(&baseline, &latest, &tenth()).unwrap();
    assert_eq!(
        out,
        "{\"passed\":false,\"fail_report\":{\"d_acceptance\":\"d_acceptance: baseline 5/10, latest 7/10, increased beyond threshold\"}}"
    );
    match parse_report(&out).unwrap() {
        ComparisonReport::Failed(entries) => {
            assert_eq!(entries.len(), 1);
            assert_eq!(entries[0].0, "d_acceptance");
        }
        ComparisonReport::Passed => panic!("expected a failed report"),
    }
}

#[test]
fn drift_at_exactly_the_threshold_passes() {
    // |0.6 - 0.5| = 0.1 is not strictly greater than 0.1.
    let baseline = data_map(r(5, 10), r(5, 10));
    let latest = data_map(r(5, 10), r(6, 10));
    let out = data_bias_runtime_check(&baseline, &latest, &tenth()).unwrap();
    assert_eq!(out, "{\"passed\":true}");
}

#[test]
fn model_bias_check_passes_and_fails() {
    let m = model_map(r(1, 4));
    let out = model_bias_runtime_check(&m, &m.clone(), &tenth()).unwrap();
    assert_eq!(out, "{\"passed\":true}");
    let mut drifted = model_map(r(1, 4));
    drifted[1].1 = r(3, 4);
    let out2 = model_bias_runtime_check(&m, &drifted, &tenth()).unwrap();
    match parse_report(&out2).unwrap() {
        ComparisonReport::Failed(entries) => {
            assert_eq!(entries.len(), 1);
            assert_eq!(entries[0].0, "disparate_impact");
        }
        ComparisonReport::Passed => panic!("expected a failed report"),
    }
}

#[test]
fn regression_check_full_and_partial_agree() {
    let baseline = regression_map(r(1, 2));
    let mut latest = regression_map(r(1, 2));
    latest[0].1 = r(9, 10);
    let full = regression_performance_runtime_full(&baseline, &latest, &tenth()).unwrap();
    let subset = vec!["mae".to_owned()];
    let partial =
        regression_performance_runtime_partial(&baseline, &latest, &subset, &tenth()).unwrap();
    assert_eq!(full, partial);
    match parse_report(&full).unwrap() {
        ComparisonReport::Failed(entries) => {
            assert_eq!(entries.len(), 1);
            assert_eq!(entries[0].0, "mae");
        }
        ComparisonReport::Passed => panic!("expected a failed report"),
    }
}

#[test]
fn regression_check_validates_baseline_first() {
    let bad = vec![("mae".to_owned(), r(1, 2))];
    let good = regression_map(r(1, 2));
    let err = regression_performance_runtime_full(&bad, &good, &tenth()).unwrap_err();
    assert_eq!(err, RuntimeError::InvalidBaseline);
    let err2 = regression_performance_runtime_full(&good, &bad, &tenth()).unwrap_err();
    assert_eq!(err2, RuntimeError::InvalidLatest);
}

#[test]
fn negative_drift_reports_decrease() {
    let baseline = data_map(r(7, 10), r(5, 10));
    let latest = data_map(r(2, 10), r(5, 10));
    let out = data_bias_runtime_check(&baseline, &latest, &tenth()).unwrap();
    match parse_report(&out).unwrap() {
        ComparisonReport::Failed(entries) => {
            assert_eq!(entries.len(), 1);
            assert_eq!(entries[0].0, "a_acceptance");
            assert_eq!(
                entries[0].1,
                "a_acceptance: baseline 7/10, latest 2/10, decreased beyond threshold"
            );
        }
        ComparisonReport::Passed => panic!("expected a failed report"),
    }
}

#[test]
fn passed_report_round_trips() {
    let wire = serialize_report(&ComparisonReport::Passed);
    assert_eq!(wire, "{\"passed\":true}");
    match parse_report(&wire).unwrap() {
        ComparisonReport::Passed => {}
        ComparisonReport::Failed(_) => panic!("expected a passed report"),
    }
}

#[test]
fn failed_report_round_trips() {
    let entries = vec![
        ("mae".to_owned(), "mae: baseline 1/2, latest 9/10, increased beyond threshold".to_owned()),
        ("r2".to_owned(), "r2: baseline 1/1, latest 0/1, decreased beyond threshold".to_owned()),
    ];
    let wire = serialize_report(&ComparisonReport::Failed(entries.clone()));
    match parse_report(&wire).unwrap() {
        ComparisonReport::Failed(back) => assert_eq!(back, entries),
        ComparisonReport::Passed => panic!("expected a failed report"),
    }
}

#[test]
fn try_from_reads_values_regardless_of_order() {
    let m = vec![
        ("d_acceptance".to_owned(), r(2, 5)),
        ("a_acceptance".to_owned(), r(3, 5)),
    ];
    let snap = DataBiasRuntime::try_from(&m).unwrap();
    assert_eq!(snap.a_acceptance.num, 3);
    assert_eq!(snap.d_acceptance.num, 2);
}

#[test]
fn duplicate_key_is_rejected() {
    let m = vec![
        ("a_acceptance".to_owned(), r(1, 2)),
        ("a_acceptance".to_owned(), r(1, 2)),
    ];
    assert!(DataBiasRuntime::try_from(&m).is_err());
    let reg = vec![
        ("mae".to_owned(), r(1, 2)),
        ("mae".to_owned(), r(1, 2)),
        ("rmse".to_owned(), r(1, 2)),
        ("r2".to_owned(), r(1, 2)),
    ];
    assert!(LinearRegressionReport::try_from(&reg).is_err());
}

#[test]
fn model_type_parses_known_names_only() {
    assert!(matches!(
        ModelType::try_from("LinearRegression"),
        Ok(ModelType::LinearRegression)
    ));
    assert!(matches!(
        ModelType::try_from("LogisiticRegression"),
        Ok(ModelType::LogisiticRegression)
    ));
    assert!(matches!(
        ModelType::try_from("BinaryClassification"),
        Ok(ModelType::BinaryClassification)
    ));
    assert_eq!(ModelType::try_from("Unknown").unwrap_err(), "invalid model type");
}

#[test]
fn empty_failed_report_round_trips() {
    let wire = serialize_report(&ComparisonReport::Failed(Vec::new()));
    assert_eq!(wire, "{\"passed\":false,\"fail_report\":{}}");
    match parse_report(&wire).unwrap() {
        ComparisonReport::Failed(back) => assert!(back.is_empty()),
        ComparisonReport::Passed => panic!("expected a failed report"),
    }
}

#[test]
fn parse_rejects_malformed_reports() {
    assert!(parse_report("{\"passed\":maybe}").is_none());
    assert!(parse_report("{\"passed\":false,\"fail_report\":{\"k\"}}").is_none());
    assert!(parse_report("").is_none());
}
