use superstition::detectors::weekday_counts;
use superstition::fixture::fixture_timestamps;

#[test]
fn fixture_has_ten_thousand_sorted_rows() {
    let ts = fixture_timestamps();
    assert_eq!(ts.len(), 10_000);
    assert!(ts.windows(2).all(|w| w[0] <= w[1]));
    assert_eq!(ts[0], 19355 * 86_400);
}

#[test]
fn fixture_weekday_counts() {
    let ts: Vec<Option<u64>> = fixture_timestamps().into_iter().map(Some).collect();
    let (counts, total) = weekday_counts(&ts);
    // Sun, Mon, Tue, Wed, Thu, Fri, Sat
    assert_eq!(counts, vec![600, 2000, 1480, 1480, 1480, 1480, 1480]);
    assert_eq!(total, 10_000);
}

#[test]
fn fixture_spreads_rows_within_a_day() {
    let ts = fixture_timestamps();
    // Monday of the first week: 2000 rows over 52 weeks is 38 or 39 a day,
    // the first 24 weeks taking 39.
    let monday = (19355 + 4) * 86_400;
    let first_day: Vec<u64> = ts.iter().copied().filter(|t| *t / 86_400 == 19355 + 4).collect();
    assert_eq!(first_day.len(), 39);
    assert_eq!(first_day[0], monday);
    assert_eq!(first_day[1], monday + 86_400 / 39);
}

#[test]
fn fixture_weekday_skew_is_strong() {
    // the fixture's documented figures: chi-squared about 718 with df = 6,
    // Cramér's V about 0.11
    let ts: Vec<Option<u64>> = fixture_timestamps().into_iter().map(Some).collect();
    let (counts, total) = weekday_counts(&ts);
    let n = total as f64;
    let expected = n / counts.len() as f64;
    let chi2: f64 = counts.iter().map(|&c| (c as f64 - expected).powi(2) / expected).sum();
    assert!((chi2 - 718.0).abs() < 1.0, "chi2 = {chi2}");
    let v = (chi2 / (n * 6.0)).sqrt();
    assert!((v - 0.11).abs() < 0.005, "V = {v}");
}
