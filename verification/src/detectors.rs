//! The detectors shipped with the project: a reference detector and the
//! adversarial ones that test the host.

use vstd::prelude::*;

use crate::scorer::{DetectorOutput, TestType};
use crate::text::{decimal, joined, push_decimal};

verus! {

/// What a detector says about itself.
#[derive(Debug, Clone)]
pub struct Metadata {
    pub description: String,
    pub hypothesis: String,
    pub family: String,
    pub version: String,
}

/// Day of the week of the Unix time `ts`: 0 is Sunday, 6 is Saturday
/// (1970-01-01 was a Thursday).
pub open spec fn spec_day_of_week(ts: u64) -> int {
    ((ts / 86400) + 4) % 7
}

/// Day of the week of the Unix time `ts` (0 = Sunday … 6 = Saturday).
pub fn day_of_week(ts: u64) -> (d: usize)
    ensures
        d == spec_day_of_week(ts),
        d < 7,
{
    ((ts / 86400 + 4) % 7) as usize
}

/// How many of the timestamps fall on day `d` of the week.
pub open spec fn count_on_day(ts: Seq<Option<u64>>, d: int) -> nat
    decreases ts.len(),
{
    if ts.len() == 0 {
        0
    } else {
        count_on_day(ts.drop_last(), d) + match ts.last() {
            Some(t) => if spec_day_of_week(t) == d {
                1nat
            } else {
                0nat
            },
            None => 0nat,
        }
    }
}

/// How many timestamps are present.
pub open spec fn count_present(ts: Seq<Option<u64>>) -> nat
    decreases ts.len(),
{
    if ts.len() == 0 {
        0
    } else {
        count_present(ts.drop_last()) + if ts.last() is Some {
            1nat
        } else {
            0nat
        }
    }
}

proof fn lemma_counts_bounded(ts: Seq<Option<u64>>, d: int)
    ensures
        count_on_day(ts, d) <= count_present(ts),
        count_present(ts) <= ts.len(),
    decreases ts.len(),
{
    if ts.len() > 0 {
        lemma_counts_bounded(ts.drop_last(), d);
    }
}

/// The weekday histogram of the rows' `block_timestamp`s (a row without
/// one is `None` and is not counted), and how many rows were counted.
pub fn weekday_counts(ts: &Vec<Option<u64>>) -> (r: (Vec<u64>, u64))
    ensures
        r.0.len() == 7,
        forall|d: int| 0 <= d < 7 ==> r.0@[d] == count_on_day(ts@, d),
        r.1 == count_present(ts@),
{
    let mut counts: Vec<u64> = vec![0u64, 0u64, 0u64, 0u64, 0u64, 0u64, 0u64];
    let mut total: u64 = 0;
    let mut i: usize = 0;
    while i < ts.len()
        invariant
            i <= ts.len(),
            counts.len() == 7,
            forall|d: int| 0 <= d < 7 ==> counts@[d] == count_on_day(ts@.subrange(0, i as int), d),
            total == count_present(ts@.subrange(0, i as int)),
        decreases ts.len() - i,
    {
        let ghost pre = ts@.subrange(0, i as int);
        let ghost next = ts@.subrange(0, i + 1);
        assert(next.drop_last() =~= pre);
        proof {
            lemma_counts_bounded(pre, 0);
            assert forall|d: int| 0 <= d < 7 implies count_on_day(pre, d) < u64::MAX by {
                lemma_counts_bounded(pre, d);
            }
        }
        match ts[i] {
            Some(t) => {
                let d = day_of_week(t);
                counts.set(d, counts[d] + 1);
                total = total + 1;
            },
            None => {},
        }
        i = i + 1;
    }
    assert(ts@.subrange(0, ts.len() as int) =~= ts@);
    (counts, total)
}

/// The detail line of the weekday detector.
pub open spec fn weekday_detail(c: Seq<u64>) -> Seq<char> {
    "Sun="@ + decimal(c[0] as nat) + " Mon="@ + decimal(c[1] as nat) + " Tue="@ + decimal(
        c[2] as nat,
    ) + " Wed="@ + decimal(c[3] as nat) + " Thu="@ + decimal(c[4] as nat) + " Fri="@ + decimal(
        c[5] as nat,
    ) + " Sat="@ + decimal(c[6] as nat)
}

fn detail_of(c: &Vec<u64>) -> (s: String)
    requires
        c.len() == 7,
    ensures
        s@ == weekday_detail(c@),
{
    let mut s = String::from_str("Sun=");
    push_decimal(&mut s, c[0]);
    s.append(" Mon=");
    push_decimal(&mut s, c[1]);
    s.append(" Tue=");
    push_decimal(&mut s, c[2]);
    s.append(" Wed=");
    push_decimal(&mut s, c[3]);
    s.append(" Thu=");
    push_decimal(&mut s, c[4]);
    s.append(" Fri=");
    push_decimal(&mut s, c[5]);
    s.append(" Sat=");
    push_decimal(&mut s, c[6]);
    s
}

/// What the ERC-20 day-of-week detector says about itself.
pub fn dow_erc20_describe() -> (m: Metadata)
    ensures
        m.description@ == "ERC-20 transfers by day of week"@,
        m.hypothesis@
            == "ERC-20 transfer counts are not uniformly distributed across days of the week."@,
        m.family@ == "temporal-cyclic"@,
        m.version@ == "0.1.0"@,
{
    Metadata {
        description: String::from_str("ERC-20 transfers by day of week"),
        hypothesis: String::from_str(
            "ERC-20 transfer counts are not uniformly distributed across days of the week.",
        ),
        family: String::from_str("temporal-cyclic"),
        version: String::from_str("0.1.0"),
    }
}

/// What the ERC-20 day-of-week detector returns for the `block_timestamp`s
/// of the `erc20_transfers` rows: the weekday histogram, the number of rows
/// counted, a chi-squared test with 6 degrees of freedom, and a detail line.
pub fn dow_erc20_result(ts: &Vec<Option<u64>>) -> (out: DetectorOutput)
    ensures
        out.counts.len() == 7,
        forall|d: int| 0 <= d < 7 ==> out.counts@[d] == count_on_day(ts@, d),
        out.sample_size == count_present(ts@),
        out.test_type == TestType::ChiSquared(6),
        out.detail@ == weekday_detail(out.counts@),
{
    let (counts, total) = weekday_counts(ts);
    let detail = detail_of(&counts);
    DetectorOutput { counts, sample_size: total, test_type: TestType::ChiSquared(6), detail }
}

/// What the mismatched-counts detector says about itself.
pub fn bad_counts_describe() -> (m: Metadata)
    ensures
        m.description@ == "Adversarial: mismatched counts vs test type"@,
        m.hypothesis@ == "Host should reject counts that don't match the declared test type."@,
        m.family@ == "adversarial"@,
        m.version@ == "0.1.0"@,
{
    Metadata {
        description: String::from_str("Adversarial: mismatched counts vs test type"),
        hypothesis: String::from_str(
            "Host should reject counts that don't match the declared test type.",
        ),
        family: String::from_str("adversarial"),
        version: String::from_str("0.1.0"),
    }
}

/// What the mismatched-counts detector returns: three counts for a
/// chi-squared test with 6 degrees of freedom (which needs seven).
pub fn bad_counts_result() -> (out: DetectorOutput)
    ensures
        out.counts@ == seq![10u64, 20u64, 30u64],
        out.sample_size == 60,
        out.test_type == TestType::ChiSquared(6),
        out.detail@ == "deliberately wrong count length"@,
{
    let counts = vec![10u64, 20u64, 30u64];
    assert(counts@ =~= seq![10u64, 20u64, 30u64]);
    DetectorOutput {
        counts,
        sample_size: 60,
        test_type: TestType::ChiSquared(6),
        detail: String::from_str("deliberately wrong count length"),
    }
}

/// What the panicking detector says about itself.
pub fn panic_describe() -> (m: Metadata)
    ensures
        m.description@ == "Adversarial: deliberate panic"@,
        m.hypothesis@ == "Host should handle detector traps without crashing."@,
        m.family@ == "adversarial"@,
        m.version@ == "0.1.0"@,
{
    Metadata {
        description: String::from_str("Adversarial: deliberate panic"),
        hypothesis: String::from_str("Host should handle detector traps without crashing."),
        family: String::from_str("adversarial"),
        version: String::from_str("0.1.0"),
    }
}

/// What the never-ending detector says about itself.
pub fn timeout_describe() -> (m: Metadata)
    ensures
        m.description@ == "Adversarial: infinite loop"@,
        m.hypothesis@ == "Host epoch interruption should terminate this."@,
        m.family@ == "adversarial"@,
        m.version@ == "0.1.0"@,
{
    Metadata {
        description: String::from_str("Adversarial: infinite loop"),
        hypothesis: String::from_str("Host epoch interruption should terminate this."),
        family: String::from_str("adversarial"),
        version: String::from_str("0.1.0"),
    }
}


/// The seven weekday counts add up to the rows counted.
pub proof fn lemma_weekday_counts_sum(ts: Seq<Option<u64>>)
    ensures
        count_on_day(ts, 0) + count_on_day(ts, 1) + count_on_day(ts, 2) + count_on_day(ts, 3)
            + count_on_day(ts, 4) + count_on_day(ts, 5) + count_on_day(ts, 6) == count_present(ts),
    decreases ts.len(),
{
    if ts.len() > 0 {
        lemma_weekday_counts_sum(ts.drop_last());
        if let Some(t) = ts.last() {
            let d = spec_day_of_week(t);
            assert(0 <= d < 7);
        }
    }
}


/// The weekday detector's output passes the host's checks whenever it
/// counted at least one row.
pub proof fn lemma_weekday_output_is_valid(out: DetectorOutput)
    requires
        out.counts.len() == 7,
        out.sample_size > 0,
        out.test_type == TestType::ChiSquared(6),
    ensures
        crate::host::output_problem(out) is None,
{
}

/// The short name of day `d` of the week (0 is Sunday).
pub open spec fn day_name(d: int) -> Seq<char> {
    seq!["Sun"@, "Mon"@, "Tue"@, "Wed"@, "Thu"@, "Fri"@, "Sat"@][d]
}

/// The detail line names every day with that day's own count, Sunday
/// first, the entries separated by a space: entry `d` is `<day d>=<c[d]>`.
pub proof fn lemma_weekday_detail_labels_each_count(c: Seq<u64>)
    requires
        c.len() == 7,
    ensures
        weekday_detail(c) == joined(
            Seq::new(7, |d: int| day_name(d) + "="@ + decimal(c[d] as nat)),
            " "@,
        ),
{
    let items = Seq::new(7, |d: int| day_name(d) + "="@ + decimal(c[d] as nat));
    let sp = " "@;
    assert(items.take(2).drop_last() =~= items.take(1));
    assert(items.take(3).drop_last() =~= items.take(2));
    assert(items.take(4).drop_last() =~= items.take(3));
    assert(items.take(5).drop_last() =~= items.take(4));
    assert(items.take(6).drop_last() =~= items.take(5));
    assert(items.take(7).drop_last() =~= items.take(6));
    assert(joined(items.take(1), sp) == items[0]);
    let j = items[0] + sp + items[1] + sp + items[2] + sp + items[3] + sp + items[4] + sp + items[5]
        + sp + items[6];
    assert(joined(items.take(7), sp) == j) by {
        assert(joined(items.take(2), sp) == joined(items.take(1), sp) + sp + items[1]);
        assert(joined(items.take(3), sp) == joined(items.take(2), sp) + sp + items[2]);
        assert(joined(items.take(4), sp) == joined(items.take(3), sp) + sp + items[3]);
        assert(joined(items.take(5), sp) == joined(items.take(4), sp) + sp + items[4]);
        assert(joined(items.take(6), sp) == joined(items.take(5), sp) + sp + items[5]);
        assert(joined(items.take(7), sp) == joined(items.take(6), sp) + sp + items[6]);
    }
    assert(items.take(7) =~= items);
    lemma_labels(c);
    let d0 = decimal(c[0] as nat);
    let d1 = decimal(c[1] as nat);
    let d2 = decimal(c[2] as nat);
    let d3 = decimal(c[3] as nat);
    let d4 = decimal(c[4] as nat);
    let d5 = decimal(c[5] as nat);
    let d6 = decimal(c[6] as nat);
    let w1 = "Sun="@ + d0;
    let j1 = items[0];
    assert(w1 =~= j1);
    let w2 = w1 + " Mon="@ + d1;
    let j2 = j1 + sp + items[1];
    assert(w2 =~= j2);
    let w3 = w2 + " Tue="@ + d2;
    let j3 = j2 + sp + items[2];
    assert(w3 =~= j3);
    let w4 = w3 + " Wed="@ + d3;
    let j4 = j3 + sp + items[3];
    assert(w4 =~= j4);
    let w5 = w4 + " Thu="@ + d4;
    let j5 = j4 + sp + items[4];
    assert(w5 =~= j5);
    let w6 = w5 + " Fri="@ + d5;
    let j6 = j5 + sp + items[5];
    assert(w6 =~= j6);
    let w7 = w6 + " Sat="@ + d6;
    let j7 = j6 + sp + items[6];
    assert(w7 =~= j7);
    assert(weekday_detail(c) == w7);
}

proof fn lemma_labels(c: Seq<u64>)
    requires
        c.len() == 7,
    ensures
        "Sun="@ == day_name(0) + "="@,
        " Mon="@ == " "@ + day_name(1) + "="@,
        " Tue="@ == " "@ + day_name(2) + "="@,
        " Wed="@ == " "@ + day_name(3) + "="@,
        " Thu="@ == " "@ + day_name(4) + "="@,
        " Fri="@ == " "@ + day_name(5) + "="@,
        " Sat="@ == " "@ + day_name(6) + "="@,
{
    reveal_strlit("Sun=");
    reveal_strlit(" Mon=");
    reveal_strlit(" Tue=");
    reveal_strlit(" Wed=");
    reveal_strlit(" Thu=");
    reveal_strlit(" Fri=");
    reveal_strlit(" Sat=");
    reveal_strlit("Sun");
    reveal_strlit("Mon");
    reveal_strlit("Tue");
    reveal_strlit("Wed");
    reveal_strlit("Thu");
    reveal_strlit("Fri");
    reveal_strlit("Sat");
    reveal_strlit("=");
    reveal_strlit(" ");
    assert("Sun="@ =~= day_name(0) + "="@);
    assert(" Mon="@ =~= " "@ + day_name(1) + "="@);
    assert(" Tue="@ =~= " "@ + day_name(2) + "="@);
    assert(" Wed="@ =~= " "@ + day_name(3) + "="@);
    assert(" Thu="@ =~= " "@ + day_name(4) + "="@);
    assert(" Fri="@ =~= " "@ + day_name(5) + "="@);
    assert(" Sat="@ =~= " "@ + day_name(6) + "="@);
}

/// Days of the week follow the calendar: 1970-01-01 (time 0) was a
/// Thursday, every moment of a day has that day's weekday, and each next
/// day is the next weekday, Saturday followed by Sunday.
pub proof fn lemma_weekdays_follow_the_calendar(t: u64)
    ensures
        spec_day_of_week(0) == 4,
        spec_day_of_week(t) == spec_day_of_week((t - t % 86400) as u64),
        t <= u64::MAX - 86400 ==> spec_day_of_week((t + 86400) as u64) == (spec_day_of_week(t)
            + 1) % 7,
{
    assert((t - t % 86400) / 86400 == t / 86400);
    if t <= u64::MAX - 86400 {
        assert((t + 86400) / 86400 == t / 86400 + 1);
    }
}

} // verus!
