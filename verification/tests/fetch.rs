use superstition::fetch::{
    day_ts, moon_age_days, moon_phase_pct, moon_phase_rows, quote_rows, tvl_rows, END_TS,
    NEW_MOON_REF, START_TS, SYNODIC_S,
};

#[test]
fn moon_math() {
    assert_eq!(moon_phase_pct(NEW_MOON_REF), 0);
    assert_eq!(moon_age_days(NEW_MOON_REF), 0);
    assert_eq!(moon_phase_pct(NEW_MOON_REF + SYNODIC_S / 2), 49);
    assert_eq!(moon_age_days(NEW_MOON_REF + SYNODIC_S / 2), 14);
    assert_eq!(moon_phase_pct(START_TS), 28);
    assert_eq!(moon_age_days(START_TS), 8);
    assert_eq!(moon_phase_pct(END_TS), 4);
    assert_eq!(moon_age_days(END_TS), 1);
    assert_eq!(moon_phase_pct(NEW_MOON_REF + SYNODIC_S), 0);
}

#[test]
fn day_start() {
    assert_eq!(day_ts(START_TS), START_TS);
    assert_eq!(day_ts(START_TS + 86_399), START_TS);
    assert_eq!(day_ts(END_TS), 1_735_603_200);
    assert_eq!(day_ts(0), 0);
}

#[test]
fn moon_table_covers_every_day() {
    let rows = moon_phase_rows(START_TS, END_TS);
    assert_eq!(rows.len(), 731);
    assert_eq!(rows[0].timestamp, START_TS);
    assert_eq!(rows[0].phase_pct, 28);
    assert_eq!(rows[730].timestamp, 1_735_603_200);
    for r in &rows {
        assert_eq!(r.is_full_moon, u64::from(r.phase_pct >= 45 && r.phase_pct <= 55));
        assert_eq!(r.is_new_moon, u64::from(r.phase_pct <= 5 || r.phase_pct >= 95));
        assert!(r.moon_age_days < 30);
    }
    assert!(moon_phase_rows(END_TS, START_TS).is_empty());
    assert_eq!(moon_phase_rows(START_TS + 5, START_TS + 86_400).len(), 2);
}

#[test]
fn tvl_rows_filter_and_sort() {
    let readings = vec![
        (START_TS + 3 * 86_400 + 100, 30),
        (START_TS - 1, 99),
        (START_TS + 86_400, 10),
        (START_TS + 3 * 86_400 + 5, 31),
        (END_TS + 1, 77),
        (START_TS, 5),
    ];
    let rows = tvl_rows(&readings, START_TS, END_TS);
    assert_eq!(
        rows,
        vec![(START_TS, 5), (START_TS + 86_400, 10), (START_TS + 3 * 86_400, 30), (START_TS + 3 * 86_400, 31)]
    );
}

#[test]
fn quote_rows_skip_missing_values() {
    let ts = vec![Some(START_TS + 86_400 + 3600), Some(START_TS), None, Some(START_TS + 2 * 86_400), Some(END_TS + 100)];
    let closes = vec![Some(400_000), Some(380_000), Some(1), None];
    let volumes = vec![Some(3_456_789), None, Some(1)];
    let rows = quote_rows(&ts, &closes, &volumes, START_TS, END_TS);
    assert_eq!(rows, vec![(START_TS, 380_000, 0), (START_TS + 86_400, 400_000, 3_456)]);
}
