//! The test fixture: a year of ERC-20 transfer timestamps with a strong
//! day-of-week pattern (many on Mondays, few on Sundays).

use vstd::prelude::*;

use crate::sort::{is_stable_sort_of, stable_sort_by_key};

verus! {

/// The first day of the fixture, as days since 1970-01-01 (a Thursday:
/// the day number is a multiple of 7).
pub const BASE_EPOCH_DAY: u64 = 19355;

/// The number of weeks the fixture spans.
pub const WEEKS: u64 = 52;

/// For each weekday, in the order the rows are made: the day number modulo
/// 7 (0 is Thursday) and how many rows fall on that weekday.
pub open spec fn fixture_targets() -> Seq<(u64, u64)> {
    seq![(4, 2000), (5, 1480), (6, 1480), (0, 1480), (1, 1480), (2, 1480), (3, 600)]
}

/// How many of `count` rows fall in week `week`: an even share, the first
/// `count % WEEKS` weeks taking one more.
pub open spec fn rows_in_week(count: u64, week: u64) -> u64 {
    (count / WEEKS + if week < count % WEEKS {
        1u64
    } else {
        0u64
    }) as u64
}

/// The `n` rows of one day, spread evenly over it from midnight.
pub open spec fn day_rows(epoch_day: u64, n: u64) -> Seq<u64> {
    Seq::new(
        n as nat,
        |j: int|
            (epoch_day * 86_400 + if n > 1 {
                j * 86_400 / (n as int)
            } else {
                0
            }) as u64,
    )
}

/// The rows of one weekday over the first `weeks` weeks, week by week.
pub open spec fn weekday_rows(day_mod: u64, count: u64, weeks: nat) -> Seq<u64>
    decreases weeks,
{
    if weeks == 0 {
        Seq::empty()
    } else {
        let w = (weeks - 1) as u64;
        weekday_rows(day_mod, count, (weeks - 1) as nat) + day_rows(
            (BASE_EPOCH_DAY + day_mod + w * 7) as u64,
            rows_in_week(count, w),
        )
    }
}

/// The rows of the given weekdays, in order, before sorting.
pub open spec fn fixture_rows(targets: Seq<(u64, u64)>) -> Seq<u64>
    decreases targets.len(),
{
    if targets.len() == 0 {
        Seq::empty()
    } else {
        fixture_rows(targets.drop_last()) + weekday_rows(
            targets.last().0,
            targets.last().1,
            WEEKS as nat,
        )
    }
}

fn push_day(v: &mut Vec<u64>, epoch_day: u64, n: u64)
    requires
        epoch_day <= 1_000_000,
        n <= 1_000_000,
    ensures
        final(v)@ == old(v)@ + day_rows(epoch_day, n),
{
    let ghost start = old(v)@;
    let mut j: u64 = 0;
    while j < n
        invariant
            epoch_day <= 1_000_000,
            n <= 1_000_000,
            j <= n,
            v@ == start + day_rows(epoch_day, n).take(j as int),
        decreases n - j,
    {
        let secs: u64 = if n > 1 {
            j * 86_400 / n
        } else {
            0
        };
        assert(secs <= 86_400) by (nonlinear_arith)
            requires
                j < n,
                secs == (if n > 1 {
                    (j * 86_400) as int / (n as int)
                } else {
                    0
                }),
        ;
        let t = epoch_day * 86_400 + secs;
        v.push(t);
        assert(day_rows(epoch_day, n).take(j + 1) =~= day_rows(epoch_day, n).take(j as int).push(t));
        j = j + 1;
    }
    assert(day_rows(epoch_day, n).take(n as int) =~= day_rows(epoch_day, n));
}

fn push_weekday(v: &mut Vec<u64>, day_mod: u64, count: u64)
    requires
        day_mod < 7,
        count <= 1_000_000,
    ensures
        final(v)@ == old(v)@ + weekday_rows(day_mod, count, WEEKS as nat),
{
    let ghost start = old(v)@;
    let mut week: u64 = 0;
    let per_week = count / WEEKS;
    let extra = count % WEEKS;
    assert(start + weekday_rows(day_mod, count, 0) =~= start);
    while week < WEEKS
        invariant
            day_mod < 7,
            count <= 1_000_000,
            per_week == count / WEEKS,
            extra == count % WEEKS,
            week <= WEEKS,
            v@ == start + weekday_rows(day_mod, count, week as nat),
        decreases WEEKS - week,
    {
        let epoch_day = BASE_EPOCH_DAY + day_mod + week * 7;
        let n = if week < extra {
            per_week + 1
        } else {
            per_week
        };
        assert(n == rows_in_week(count, week));
        push_day(v, epoch_day, n);
        assert(v@ =~= start + weekday_rows(day_mod, count, (week + 1) as nat));
        week = week + 1;
    }
}

/// The fixture's `block_timestamp`s, in increasing order: for each weekday
/// its rows, spread over 52 weeks from day `BASE_EPOCH_DAY`, and over each
/// day from midnight.
pub fn fixture_timestamps() -> (r: Vec<u64>)
    ensures
        is_stable_sort_of(r@, fixture_rows(fixture_targets())),
{
    let targets: [(u64, u64); 7] = [
        (4, 2000),
        (5, 1480),
        (6, 1480),
        (0, 1480),
        (1, 1480),
        (2, 1480),
        (3, 600),
    ];
    assert(targets@ =~= fixture_targets());
    let mut v: Vec<u64> = Vec::new();
    let mut i: usize = 0;
    assert(v@ =~= fixture_rows(targets@.take(0)));
    while i < 7
        invariant
            i <= 7,
            targets@ == fixture_targets(),
            v@ == fixture_rows(targets@.take(i as int)),
        decreases 7 - i,
    {
        let (day_mod, count) = targets[i];
        push_weekday(&mut v, day_mod, count);
        assert(targets@.take(i + 1).drop_last() =~= targets@.take(i as int));
        assert(v@ =~= fixture_rows(targets@.take(i + 1)));
        i = i + 1;
    }
    assert(targets@.take(7) =~= targets@);
    stable_sort_by_key(&v)
}

} // verus!
