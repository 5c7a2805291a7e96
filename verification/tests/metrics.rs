use fair_ml::data_bias::{
    class_imbalance, diff_in_proportion_of_labels, kolmorogv_smirnov, lp_norm,
    pre_training_bias, total_variation_distance, PreTraining,
};
use fair_ml::model_bias::{post_training_bias, PostTrainingData};
use fair_ml::model_perf::{
    apply_decision_threshold, model_perf_classification, model_perf_logistic_regression,
    model_perf_regression,
};
use fair_ml::models::MetricsError;

fn pre(a: Vec<i16>, d: Vec<i16>) -> PreTraining {
    PreTraining { facet_a: a, facet_d: d }
}

#[test]
fn acceptance_rates_are_exact_fractions() {
    let data = pre(vec![1, 0, 1, 1], vec![0, 0, 1, 0]);
    let rates = data.generate();
    assert_eq!(rates.a_acceptance.num, 3);
    assert_eq!(rates.a_acceptance.den, 4);
    assert_eq!(rates.d_acceptance.num, 1);
    assert_eq!(rates.d_acceptance.den, 4);
}

#[test]
fn acceptance_rates_stay_in_unit_interval() {
    let data = pre(vec![1, 1, 1], vec![0, 0]);
    let rates = data.generate();
    assert!(rates.a_acceptance.num >= 0 && rates.a_acceptance.num <= rates.a_acceptance.den);
    assert!(rates.d_acceptance.num >= 0 && rates.d_acceptance.num <= rates.d_acceptance.den);
    let diff = diff_in_proportion_of_labels(&data);
    assert!(-diff.den <= diff.num && diff.num <= diff.den);
}

#[test]
fn class_imbalance_is_always_one() {
    let r = class_imbalance(&pre(vec![1, 0, 1], vec![0]));
    assert_eq!(r.num, r.den);
    assert_eq!(r.num, 4);
    let r2 = class_imbalance(&pre(vec![0; 7], vec![1; 2]));
    assert_eq!(r2.num, r2.den);
}

#[test]
fn diff_in_proportion_of_labels_exact() {
    // p = 3/4, q = 1/2: difference 1/4 over denominator 8.
    let data = pre(vec![1, 1, 1, 0], vec![1, 0]);
    let r = diff_in_proportion_of_labels(&data);
    assert_eq!(r.num, 2);
    assert_eq!(r.den, 8);
}

#[test]
fn total_variation_distance_is_abs_diff() {
    // The second term compares 1 - p with itself, so only
    // |p - q| remains.
    let data = pre(vec![1, 1, 1, 0], vec![1, 0]);
    let rates = data.generate();
    let r = total_variation_distance(&rates);
    assert_eq!(r.num, 2);
    assert_eq!(r.den, 8);
}

#[test]
fn kolmorogv_smirnov_identical_facets_is_zero() {
    let data = pre(vec![1, 0, 1], vec![1, 0, 1]);
    let r = kolmorogv_smirnov(&data);
    assert_eq!(r.num, 0);
}

#[test]
fn kolmorogv_smirnov_exact_value() {
    // p = 1/2, q = 1/4: both outcome differences are 1/4.
    let data = pre(vec![1, 0], vec![1, 0, 0, 0]);
    let r = kolmorogv_smirnov(&data);
    assert_eq!(r.num, 2);
    assert_eq!(r.den, 8);
}

#[test]
fn lp_norm_brackets_the_true_norm() {
    // p = 1, q = 0: radicand (1-0)^2 + (1+0)^2 = 2 over unit denominators.
    let data = pre(vec![1], vec![0]);
    let rates = data.generate();
    let r = lp_norm(&rates);
    // floor(sqrt(2)) = 1 at denominator 1.
    assert_eq!(r.num, 1);
    assert_eq!(r.den, 1);
}

#[test]
fn pre_training_bias_emits_the_full_map() {
    let data = pre(vec![1, 0, 1, 1], vec![0, 0, 1, 0]);
    let map = pre_training_bias(&data).unwrap();
    let keys: Vec<&str> = map.iter().map(|e| e.0.as_str()).collect();
    assert_eq!(
        keys,
        vec![
            "a_acceptance",
            "d_acceptance",
            "class_imbalance",
            "diff_in_proportion_of_labels",
            "lp_norm",
            "total_variation_distance",
            "kolmorogv_smirnov",
        ]
    );
    assert_eq!(map[0].1.num, 3);
    assert_eq!(map[0].1.den, 4);
}

#[test]
fn pre_training_bias_rejects_empty_facet() {
    let r = pre_training_bias(&pre(vec![], vec![1]));
    assert_eq!(r.unwrap_err(), MetricsError::EmptyInput);
}

#[test]
fn pre_training_bias_rejects_non_binary() {
    let r = pre_training_bias(&pre(vec![1, 2], vec![1]));
    assert_eq!(r.unwrap_err(), MetricsError::NotBinary);
}

fn post(a_p: Vec<i16>, a_t: Vec<i16>, d_p: Vec<i16>, d_t: Vec<i16>) -> PostTrainingData {
    PostTrainingData {
        a_predictions: a_p,
        a_ground_truth: a_t,
        d_predictions: d_p,
        d_ground_truth: d_t,
    }
}

#[test]
fn post_training_bias_exact_disparities() {
    // Facet a: predictions [1,1,0,0] truth [1,0,0,1]: tp=1 fp=1 tn=1 fn=1.
    // Facet d: predictions [1,0] truth [1,0]: tp=1 fp=0 tn=1 fn=0.
    let data = post(
        vec![1, 1, 0, 0],
        vec![1, 0, 0, 1],
        vec![1, 0],
        vec![1, 0],
    );
    let map = post_training_bias(&data).unwrap();
    assert_eq!(map[0].0, "diff_in_positive_proportions");
    // 2/4 - 1/2 = 0 over denominator 8.
    assert_eq!(map[0].1.num, 0);
    assert_eq!(map[0].1.den, 8);
    assert_eq!(map[1].0, "disparate_impact");
    // (1/2) / (2/4) = 4/4.
    assert_eq!(map[1].1.num, 4);
    assert_eq!(map[1].1.den, 4);
    assert_eq!(map[2].0, "accuracy_difference");
    // 2/4 - 2/2 = -1/2 over denominator 8.
    assert_eq!(map[2].1.num, -4);
    assert_eq!(map[2].1.den, 8);
    assert_eq!(map[3].0, "diff_in_true_positive_rates");
    // 1/2 - 1/1 = -1/2.
    assert_eq!(map[3].1.num, -1);
    assert_eq!(map[3].1.den, 2);
    assert_eq!(map[4].0, "diff_in_false_positive_rates");
    // 1/2 - 0/1 = 1/2.
    assert_eq!(map[4].1.num, 1);
    assert_eq!(map[4].1.den, 2);
}

#[test]
fn post_training_bias_reports_zero_denominator() {
    // Facet d has no actual positives: the true-positive rate there is
    // undefined.
    let data = post(vec![1], vec![1], vec![0, 0], vec![0, 0]);
    let r = post_training_bias(&data);
    assert_eq!(r.unwrap_err(), MetricsError::UndefinedMetric);
}

#[test]
fn post_training_bias_rejects_length_mismatch() {
    let data = post(vec![1, 0], vec![1], vec![1], vec![1]);
    assert_eq!(post_training_bias(&data).unwrap_err(), MetricsError::LengthMismatch);
}

#[test]
fn regression_on_identical_arrays_is_perfect() {
    let p: Vec<i64> = vec![1, 2, 3];
    let map = model_perf_regression(&p, &p.clone()).unwrap();
    assert_eq!(map[0].0, "mae");
    assert_eq!(map[0].1.num, 0);
    assert_eq!(map[0].1.den, 3);
    assert_eq!(map[1].0, "mse");
    assert_eq!(map[1].1.num, 0);
    assert_eq!(map[2].0, "rmse");
    assert_eq!(map[2].1.num, 0);
    assert_eq!(map[3].0, "r2");
    // R-squared is exactly 1: numerator equals denominator.
    assert_eq!(map[3].1.num, map[3].1.den);
    assert!(map[3].1.den > 0);
}

#[test]
fn regression_exact_errors() {
    let p: Vec<i64> = vec![2, 2, 2];
    let a: Vec<i64> = vec![1, 2, 3];
    let map = model_perf_regression(&p, &a).unwrap();
    // mae = (1 + 0 + 1) / 3.
    assert_eq!(map[0].1.num, 2);
    assert_eq!(map[0].1.den, 3);
    // mse = (1 + 0 + 1) / 3.
    assert_eq!(map[1].1.num, 2);
    assert_eq!(map[1].1.den, 3);
    // rmse = floor(sqrt(2 * 3)) / 3 = 2/3.
    assert_eq!(map[2].1.num, 2);
    assert_eq!(map[2].1.den, 3);
    // sstot = 3*14 - 36 = 6; r2 = (6 - 3*2)/6 = 0/6.
    assert_eq!(map[3].1.num, 0);
    assert_eq!(map[3].1.den, 6);
}

#[test]
fn regression_rejects_constant_actuals() {
    let p: Vec<i64> = vec![1, 2];
    let a: Vec<i64> = vec![5, 5];
    assert_eq!(model_perf_regression(&p, &a).unwrap_err(), MetricsError::UndefinedMetric);
}

#[test]
fn regression_rejects_length_mismatch_and_empty() {
    let a: Vec<i64> = vec![1];
    let b: Vec<i64> = vec![1, 2];
    assert_eq!(model_perf_regression(&a, &b).unwrap_err(), MetricsError::LengthMismatch);
    let e: Vec<i64> = vec![];
    assert_eq!(model_perf_regression(&e, &e.clone()).unwrap_err(), MetricsError::EmptyInput);
}

#[test]
fn classification_accuracy_half() {
    let p: Vec<i16> = vec![1, 0, 1, 0];
    let t: Vec<i16> = vec![1, 0, 0, 1];
    let map = model_perf_classification(&p, &t).unwrap();
    assert_eq!(map[0].0, "accuracy");
    assert_eq!(map[0].1.num, 2);
    assert_eq!(map[0].1.den, 4);
    assert_eq!(map[1].0, "precision");
    assert_eq!(map[1].1.num, 1);
    assert_eq!(map[1].1.den, 2);
    assert_eq!(map[2].0, "recall");
    assert_eq!(map[2].1.num, 1);
    assert_eq!(map[2].1.den, 2);
    assert_eq!(map[3].0, "f1");
    assert_eq!(map[3].1.num, 2);
    assert_eq!(map[3].1.den, 4);
}

#[test]
fn classification_undefined_without_true_positives() {
    let p: Vec<i16> = vec![0, 1];
    let t: Vec<i16> = vec![1, 0];
    assert_eq!(model_perf_classification(&p, &t).unwrap_err(), MetricsError::UndefinedMetric);
}

#[test]
fn decision_threshold_is_strict() {
    let scores: Vec<i64> = vec![700_000, 500_000, 300_000];
    let labels = apply_decision_threshold(&scores, 500_000);
    assert_eq!(labels, vec![1, 0, 0]);
}

#[test]
fn logistic_regression_matches_thresholded_classification() {
    // Scores on a millionth grid, threshold 0.5.
    let scores: Vec<i64> = vec![900_000, 100_000, 800_000, 400_000];
    let truth: Vec<i16> = vec![1, 0, 0, 1];
    let map = model_perf_logistic_regression(&scores, &truth, 500_000).unwrap();
    assert_eq!(map[0].0, "accuracy");
    assert_eq!(map[0].1.num, 2);
    assert_eq!(map[0].1.den, 4);
}

#[test]
fn regression_rejects_out_of_range_values() {
    // 2^36 + 1 exceeds the measurement magnitude the core admits.
    let p: Vec<i64> = vec![68_719_476_737, 0];
    let a: Vec<i64> = vec![1, 2];
    assert_eq!(model_perf_regression(&p, &a).unwrap_err(), MetricsError::ValueTooLarge);
}

#[test]
fn metrics_error_messages() {
    assert_eq!(MetricsError::EmptyInput.message(), "empty input array");
    assert_eq!(
        MetricsError::UndefinedMetric.message(),
        "metric undefined: zero denominator"
    );
}
