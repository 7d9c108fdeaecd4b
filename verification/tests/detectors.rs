use statrs::distribution::{ChiSquared, ContinuousCDF};
use superstition::detectors::{
    bad_counts_describe, bad_counts_result, day_of_week, dow_erc20_describe, dow_erc20_result,
    panic_describe, timeout_describe, weekday_counts,
};
use superstition::host::{stub_erc20_timestamps, validate_output};
use superstition::scorer::{check_score_input, TestType};

#[test]
fn reference_detector_on_stub_corpus() {
    let ts: Vec<Option<u64>> = stub_erc20_timestamps().into_iter().map(Some).collect();
    let out = dow_erc20_result(&ts);
    assert_eq!(out.counts, vec![1, 1, 1, 1, 1, 1, 1]);
    assert_eq!(out.sample_size, 7);
    assert!(matches!(out.test_type, TestType::ChiSquared(6)));
    assert_eq!(out.detail, "Sun=1 Mon=1 Tue=1 Wed=1 Thu=1 Fri=1 Sat=1");
    assert!(validate_output(&out).is_ok());
    assert!(check_score_input(&out).is_ok());
}

/// The stub corpus returns 7 rows, so the reference detector should pass.
#[test]
fn zero_sample_size_uses_reference_detector() {
    let ts: Vec<Option<u64>> = stub_erc20_timestamps().into_iter().map(Some).collect();
    let result = dow_erc20_result(&ts);
    assert!(validate_output(&result).is_ok());
    assert_eq!(result.sample_size, 7);
    assert_eq!(result.counts.len(), 7);
    // Stub corpus is uniform, so p ≈ 1.
    let n = result.sample_size as f64;
    let expected = n / 7.0;
    let chi2: f64 = result.counts.iter().map(|&c| (c as f64 - expected).powi(2) / expected).sum();
    let p_value = 1.0 - ChiSquared::new(6.0).unwrap().cdf(chi2);
    assert!(p_value > 0.5, "expected p≈1 for uniform stub, got {}", p_value);
}

#[test]
fn weekday_histogram_skips_missing_rows() {
    // 1970-01-01 was a Thursday (4); 1970-01-04 a Sunday (0).
    assert_eq!(day_of_week(0), 4);
    assert_eq!(day_of_week(3 * 86_400), 0);
    assert_eq!(day_of_week(86_399), 4);
    let ts = vec![Some(0), None, Some(3 * 86_400), Some(86_400 * 7), Some(86_400 * 2 + 5)];
    let (counts, total) = weekday_counts(&ts);
    assert_eq!(counts, vec![1, 0, 0, 0, 2, 0, 1]);
    assert_eq!(total, 4);
    assert_eq!(counts.iter().sum::<u64>(), total);
}

#[test]
fn detector_metadata() {
    let m = dow_erc20_describe();
    assert_eq!(m.description, "ERC-20 transfers by day of week");
    assert_eq!(m.hypothesis, "ERC-20 transfer counts are not uniformly distributed across days of the week.");
    assert_eq!(m.family, "temporal-cyclic");
    assert_eq!(m.version, "0.1.0");
    assert_eq!(bad_counts_describe().family, "adversarial");
    assert_eq!(panic_describe().description, "Adversarial: deliberate panic");
    assert_eq!(timeout_describe().hypothesis, "Host epoch interruption should terminate this.");
    let bad = bad_counts_result();
    assert_eq!(bad.counts, vec![10, 20, 30]);
    assert_eq!(bad.sample_size, 60);
    assert_eq!(bad.detail, "deliberately wrong count length");
}
