use superstition::detectors::bad_counts_result;
use superstition::host::{stub_erc20_timestamps, stub_has_table, validate_output, OutputError};
use superstition::scorer::{
    check_bootstrap, check_chi_squared, check_fisher_exact, check_ks, check_score_input,
    DetectorOutput, ScorerError, TestType, fisher_support};

fn invalid_message(r: Result<(), ScorerError>) -> String {
    match r {
        Err(ScorerError::InvalidInput(m)) => m,
        other => panic!("expected invalid input, got {:?}", other),
    }
}

fn output(counts: Vec<u64>, sample_size: u64, test_type: TestType) -> DetectorOutput {
    DetectorOutput { counts, sample_size, test_type, detail: String::new() }
}

#[test]
fn chi_squared_input_checks() {
    assert!(check_chi_squared(&vec![100; 7], 700, 6).is_ok());
    assert_eq!(invalid_message(check_chi_squared(&vec![1], 1, 0)), "need at least 2 bins");
    assert_eq!(invalid_message(check_chi_squared(&vec![1, 2, 3], 6, 6)), "df=6 but k-1=2");
    assert_eq!(invalid_message(check_chi_squared(&vec![0, 0], 0, 1)), "sample_size is zero");
}

#[test]
fn fisher_ks_bootstrap_input_checks() {
    assert!(check_fisher_exact(&vec![50, 50, 50, 50]).is_ok());
    assert_eq!(
        invalid_message(check_fisher_exact(&vec![1, 2, 3])),
        "Fisher exact requires exactly 4 counts [a,b,c,d]"
    );
    assert_eq!(invalid_message(check_fisher_exact(&vec![0, 0, 0, 0])), "all counts are zero");
    assert!(check_ks(&vec![1000; 10], 10_000).is_ok());
    assert_eq!(invalid_message(check_ks(&vec![5], 5)), "need at least 2 bins");
    assert_eq!(invalid_message(check_ks(&vec![5, 5], 0)), "sample_size is zero");
    assert!(check_bootstrap(&vec![1, 2], 3).is_ok());
    assert_eq!(invalid_message(check_bootstrap(&vec![1, 2], 0)), "need at least 2 bins and n>0");
    assert_eq!(invalid_message(check_bootstrap(&vec![1], 1)), "need at least 2 bins and n>0");
}

#[test]
fn score_input_dispatches_on_test_type() {
    assert!(check_score_input(&output(vec![1, 1], 2, TestType::ChiSquared(1))).is_ok());
    assert!(check_score_input(&output(vec![1, 1], 2, TestType::ChiSquared(2))).is_err());
    assert!(check_score_input(&output(vec![0, 0, 0, 0], 5, TestType::FisherExact)).is_err());
    assert!(check_score_input(&output(vec![1, 2], 3, TestType::KolmogorovSmirnov)).is_ok());
    let boot = TestType::Bootstrap { statistic_name: "mad".to_string(), permutations: 100 };
    assert!(check_score_input(&output(vec![1, 2], 0, boot)).is_err());
}

#[test]
fn host_validation_errors() {
    assert_eq!(validate_output(&output(vec![1; 7], 0, TestType::ChiSquared(6))), Err(OutputError::ZeroSampleSize));
    assert_eq!(validate_output(&output(vec![], 3, TestType::KolmogorovSmirnov)), Err(OutputError::EmptyCounts));
    assert_eq!(validate_output(&output(vec![1, 2, 3], 6, TestType::FisherExact)), Err(OutputError::FisherCounts(3)));
    assert_eq!(validate_output(&output(vec![1], 1, TestType::ChiSquared(0))), Err(OutputError::DegenerateChiSquared));
    assert_eq!(validate_output(&output(vec![1], 1, TestType::KolmogorovSmirnov)), Err(OutputError::TooFewBins(1)));
    assert_eq!(validate_output(&output(vec![1, 1, 1, 1], 4, TestType::FisherExact)), Ok(()));
    assert_eq!(OutputError::ZeroSampleSize.message(), "detector returned sample_size = 0");
    assert_eq!(OutputError::EmptyCounts.message(), "detector returned empty counts");
    assert_eq!(OutputError::FisherCounts(3).message(), "fisher_exact requires exactly 4 counts [a,b,c,d], got 3");
    assert_eq!(OutputError::DegenerateChiSquared.message(), "chi_squared(df=0) is degenerate");
    assert_eq!(OutputError::TooFewBins(1).message(), "test requires at least 2 bins, got 1");
}

/// A detector that returns the wrong number of counts for its declared test
/// type must be rejected by output validation before scoring.
#[test]
fn bad_count_length_rejected() {
    let out = bad_counts_result();
    let err = validate_output(&out).expect_err("expected validation error");
    assert_eq!(err, OutputError::ChiSquaredCounts { df: 6, expected: 7, got: 3 });
    let msg = err.message();
    assert_eq!(msg, "chi_squared(df=6) requires 7 counts, got 3");
    assert!(msg.contains("chi_squared"), "error message should mention chi_squared validation, got: {msg}");
}

#[test]
fn stub_corpus_has_one_table() {
    let ts = stub_erc20_timestamps();
    assert_eq!(ts, (0..7).map(|d| 1_672_531_200 + d * 86_400).collect::<Vec<u64>>());
    assert!(stub_has_table("erc20_transfers"));
    assert!(!stub_has_table("dex_swaps"));
}

#[test]
fn fisher_support_covers_the_observed_table() {
    // margins: rows 10 and 5, first column 8
    assert_eq!(fisher_support(6, 4, 2, 3), (3, 8));
    assert_eq!(fisher_support(0, 5, 5, 0), (0, 5));
    assert_eq!(fisher_support(7, 0, 0, 7), (0, 7));
}
