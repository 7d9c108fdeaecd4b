//! Daily market rows and lunar phases for the corpus tables.

use vstd::prelude::*;

use crate::sort::{is_stable_sort_of, stable_sort_by_key};

verus! {

/// 2023-01-01 00:00:00 UTC, the first day fetched.
pub const START_TS: u64 = 1_672_531_200;

/// 2024-12-31 23:59:59 UTC, the last second fetched.
pub const END_TS: u64 = 1_735_689_599;

/// A new moon: 2000-01-06 18:14:00 UTC.
pub const NEW_MOON_REF: u64 = 947_182_440;

/// The synodic month, 29.53059 days, in seconds.
pub const SYNODIC_S: u64 = 2_551_443;

/// Seconds in a day.
pub const DAY_S: u64 = 86_400;

/// Percent of the lunar cycle elapsed at `ts`: 0 is new moon, 50 full moon.
pub open spec fn spec_moon_phase_pct(ts: u64) -> u64 {
    (((ts - NEW_MOON_REF) % (SYNODIC_S as int)) * 100 / (SYNODIC_S as int)) as u64
}

/// Whole days since the last new moon at `ts`, on a 30-day scale.
pub open spec fn spec_moon_age_days(ts: u64) -> u64 {
    (((ts - NEW_MOON_REF) % (SYNODIC_S as int)) * 30 / (SYNODIC_S as int)) as u64
}

/// The start (midnight UTC) of the day holding `ts`.
pub open spec fn spec_day_ts(ts: u64) -> u64 {
    (ts - ts % DAY_S) as u64
}

/// Percent of the lunar cycle elapsed at `ts` (0..=99).
pub fn moon_phase_pct(ts: u64) -> (r: u64)
    requires
        ts >= NEW_MOON_REF,
    ensures
        r == spec_moon_phase_pct(ts),
        r < 100,
{
    let x = (ts - NEW_MOON_REF) % SYNODIC_S;
    assert(x * 100 / (SYNODIC_S as int) < 100) by (nonlinear_arith)
        requires
            x < SYNODIC_S,
    ;
    x * 100 / SYNODIC_S
}

/// Days since the last new moon at `ts` (0..=29).
pub fn moon_age_days(ts: u64) -> (r: u64)
    requires
        ts >= NEW_MOON_REF,
    ensures
        r == spec_moon_age_days(ts),
        r < 30,
{
    let x = (ts - NEW_MOON_REF) % SYNODIC_S;
    assert(x * 30 / (SYNODIC_S as int) < 30) by (nonlinear_arith)
        requires
            x < SYNODIC_S,
    ;
    x * 30 / SYNODIC_S
}

/// The start (midnight UTC) of the day holding `ts`.
pub fn day_ts(ts: u64) -> (r: u64)
    ensures
        r == spec_day_ts(ts),
        r <= ts,
        r % DAY_S == 0,
        ts - r < DAY_S,
{
    ts - ts % DAY_S
}

/// One row of the `moon_phases` table.
#[derive(Debug, Clone, Copy, PartialEq, Eq)]
pub struct MoonRow {
    pub timestamp: u64,
    pub phase_pct: u64,
    pub moon_age_days: u64,
    /// 1 during the days around full moon (phase 45..=55), else 0.
    pub is_full_moon: u64,
    /// 1 during the days around new moon (phase 0..=5 or 95..), else 0.
    pub is_new_moon: u64,
}

/// The `moon_phases` row of the day starting at `ts`.
pub open spec fn moon_row_at(ts: u64) -> MoonRow {
    let phase = spec_moon_phase_pct(ts);
    MoonRow {
        timestamp: ts,
        phase_pct: phase,
        moon_age_days: spec_moon_age_days(ts),
        is_full_moon: if 45 <= phase <= 55 { 1 } else { 0 },
        is_new_moon: if phase <= 5 || phase >= 95 { 1 } else { 0 },
    }
}

/// How many days, from the day holding `start`, begin no later than `end`.
pub open spec fn moon_day_count(start: u64, end: u64) -> nat {
    let first = spec_day_ts(start);
    if first > end {
        0
    } else {
        ((end - first) / (DAY_S as int) + 1) as nat
    }
}

/// The `moon_phases` table: one row per day, from the day holding `start`
/// through the last day that begins no later than `end`.
pub fn moon_phase_rows(start: u64, end: u64) -> (rows: Vec<MoonRow>)
    requires
        start >= NEW_MOON_REF + DAY_S,
        end <= u64::MAX - DAY_S,
    ensures
        rows.len() == moon_day_count(start, end),
        forall|i: int|
            0 <= i < rows.len() ==> #[trigger] rows@[i] == moon_row_at(
                (spec_day_ts(start) + i * DAY_S) as u64,
            ),
{
    let first = day_ts(start);
    let mut rows: Vec<MoonRow> = Vec::new();
    let mut ts = first;
    while ts <= end
        invariant
            first == spec_day_ts(start),
            first >= NEW_MOON_REF,
            end <= u64::MAX - DAY_S,
            first <= ts,
            ts == first + rows.len() * DAY_S,
            rows.len() > 0 ==> first + (rows.len() - 1) * DAY_S <= end,
            forall|i: int|
                0 <= i < rows.len() ==> #[trigger] rows@[i] == moon_row_at(
                    (first + i * DAY_S) as u64,
                ),
        decreases end + DAY_S - ts,
    {
        let phase = moon_phase_pct(ts);
        let age = moon_age_days(ts);
        let is_full: u64 = if phase >= 45 && phase <= 55 { 1 } else { 0 };
        let is_new: u64 = if phase <= 5 || phase >= 95 { 1 } else { 0 };
        rows.push(MoonRow { timestamp: ts, phase_pct: phase, moon_age_days: age, is_full_moon: is_full, is_new_moon: is_new });
        ts = ts + DAY_S;
    }
    proof {
        let n = rows.len() as int;
        if n > 0 {
            assert(n == (end - first) / (DAY_S as int) + 1) by (nonlinear_arith)
                requires
                    first + (n - 1) * DAY_S <= end,
                    end < first + n * DAY_S,
                    DAY_S == 86_400,
            ;
        } else {
            assert(first > end);
        }
    }
    rows
}

/// The rows whose timestamp lies in `[start, end]`, each moved to the start
/// of its day, in their order.
pub open spec fn daily_in_range(s: Seq<(u64, u64)>, start: u64, end: u64) -> Seq<(u64, u64)>
    decreases s.len(),
{
    if s.len() == 0 {
        Seq::empty()
    } else {
        let rest = daily_in_range(s.drop_last(), start, end);
        let (ts, v) = s.last();
        if start <= ts && ts <= end {
            rest.push((spec_day_ts(ts), v))
        } else {
            rest
        }
    }
}

/// The daily total-value-locked table from `(timestamp, tvl)` readings:
/// readings in `[start, end]`, moved to the start of their day, sorted by day
/// (readings of one day keep their order).
pub fn tvl_rows(readings: &Vec<(u64, u64)>, start: u64, end: u64) -> (rows: Vec<(u64, u64)>)
    ensures
        is_stable_sort_of(rows@, daily_in_range(readings@, start, end)),
{
    let mut kept: Vec<(u64, u64)> = Vec::new();
    let mut i: usize = 0;
    while i < readings.len()
        invariant
            i <= readings.len(),
            kept@ == daily_in_range(readings@.subrange(0, i as int), start, end),
        decreases readings.len() - i,
    {
        let (ts, v) = readings[i];
        assert(readings@.subrange(0, i + 1).drop_last() =~= readings@.subrange(0, i as int));
        if ts >= start && ts <= end {
            kept.push((day_ts(ts), v));
        }
        i = i + 1;
    }
    assert(readings@.subrange(0, readings.len() as int) =~= readings@);
    stable_sort_by_key(&kept)
}

/// The index stream of a daily quote table, read up to position `n`: a quote
/// is kept when its timestamp and close are present and its day lies in
/// `[start, end]`; the volume is read in thousands (missing volume is 0).
pub open spec fn quotes_in_range(
    ts: Seq<Option<u64>>,
    closes: Seq<Option<u64>>,
    volumes: Seq<Option<u64>>,
    n: int,
    start: u64,
    end: u64,
) -> Seq<(u64, u64, u64)>
    decreases n,
{
    if n <= 0 {
        Seq::empty()
    } else {
        let rest = quotes_in_range(ts, closes, volumes, n - 1, start, end);
        let i = n - 1;
        match ts[i] {
            None => rest,
            Some(t) => {
                let day = spec_day_ts(t);
                if day < start || day > end {
                    rest
                } else {
                    let close = if i < closes.len() { closes[i] } else { None };
                    let vol = if i < volumes.len() {
                        match volumes[i] {
                            Some(v) => v,
                            None => 0,
                        }
                    } else {
                        0
                    };
                    match close {
                        None => rest,
                        Some(c) => rest.push((day, c, vol / 1000)),
                    }
                }
            },
        }
    }
}

/// The daily index table `(day, close, volume in thousands)` from parallel
/// columns of timestamps, closes and volumes, sorted by day (quotes of one
/// day keep their order).
pub fn quote_rows(
    timestamps: &Vec<Option<u64>>,
    closes: &Vec<Option<u64>>,
    volumes: &Vec<Option<u64>>,
    start: u64,
    end: u64,
) -> (rows: Vec<(u64, u64, u64)>)
    ensures
        is_stable_sort_of(
            rows@,
            quotes_in_range(timestamps@, closes@, volumes@, timestamps.len() as int, start, end),
        ),
{
    let mut kept: Vec<(u64, u64, u64)> = Vec::new();
    let mut i: usize = 0;
    while i < timestamps.len()
        invariant
            i <= timestamps.len(),
            kept@ == quotes_in_range(timestamps@, closes@, volumes@, i as int, start, end),
        decreases timestamps.len() - i,
    {
        match timestamps[i] {
            None => {},
            Some(t) => {
                let day = day_ts(t);
                if day >= start && day <= end {
                    let close: Option<u64> = if i < closes.len() { closes[i] } else { None };
                    let vol: u64 = if i < volumes.len() {
                        match volumes[i] {
                            Some(v) => v,
                            None => 0,
                        }
                    } else {
                        0
                    };
                    match close {
                        None => {},
                        Some(c) => {
                            kept.push((day, c, vol / 1000));
                        },
                    }
                }
            },
        }
        i = i + 1;
    }
    stable_sort_by_key(&kept)
}

} // verus!
