//! What a detector hands to the scorer, and the scorer's input checks.

use vstd::prelude::*;

use crate::text::{decimal, push_decimal};

verus! {

/// The statistical test that a detector asks the host to run.
#[derive(Debug, Clone)]
pub enum TestType {
    FisherExact,
    ChiSquared(u32),
    KolmogorovSmirnov,
    Bootstrap { statistic_name: String, permutations: u32 },
}

/// Everything a detector returns.
#[derive(Debug, Clone)]
pub struct DetectorOutput {
    pub counts: Vec<u64>,
    pub sample_size: u64,
    pub test_type: TestType,
    pub detail: String,
}

/// Why the scorer refused a detector's output.
#[derive(Debug, Clone)]
pub enum ScorerError {
    TestFailed(String),
    InvalidInput(String),
}

/// Whether the scorer refused the input with exactly this message.
pub open spec fn is_invalid_input(r: Result<(), ScorerError>, msg: Seq<char>) -> bool {
    match r {
        Err(ScorerError::InvalidInput(m)) => m@ == msg,
        _ => false,
    }
}

fn invalid(msg: &str) -> (r: Result<(), ScorerError>)
    ensures
        is_invalid_input(r, msg@),
{
    Err(ScorerError::InvalidInput(String::from_str(msg)))
}

/// The message given when the degrees of freedom do not match the bins.
pub open spec fn df_mismatch_message(df: u32, k: nat) -> Seq<char> {
    "df="@ + decimal(df as nat) + " but k-1="@ + decimal((k - 1) as nat)
}

/// Input checks of the chi-squared goodness-of-fit test against a uniform
/// null: at least two bins, `df == k - 1`, and a non-zero sample size.
pub fn check_chi_squared(counts: &Vec<u64>, sample_size: u64, df: u32) -> (r: Result<(), ScorerError>)
    ensures
        counts.len() < 2 ==> is_invalid_input(r, "need at least 2 bins"@),
        counts.len() >= 2 && df != counts.len() - 1 ==> is_invalid_input(
            r,
            df_mismatch_message(df, counts.len() as nat),
        ),
        counts.len() >= 2 && df == counts.len() - 1 && sample_size == 0 ==> is_invalid_input(
            r,
            "sample_size is zero"@,
        ),
        r is Ok <==> (counts.len() >= 2 && df == counts.len() - 1 && sample_size != 0),
{
    let k = counts.len();
    if k < 2 {
        return invalid("need at least 2 bins");
    }
    if df as u64 != (k - 1) as u64 {
        let mut m = String::from_str("df=");
        push_decimal(&mut m, df as u64);
        m.append(" but k-1=");
        push_decimal(&mut m, (k - 1) as u64);
        return Err(ScorerError::InvalidInput(m));
    }
    if sample_size == 0 {
        return invalid("sample_size is zero");
    }
    Ok(())
}

/// Input checks of the two-sided Fisher exact test on a 2×2 table
/// `[a, b, c, d]`: exactly four counts, not all zero.
pub fn check_fisher_exact(counts: &Vec<u64>) -> (r: Result<(), ScorerError>)
    requires
        counts.len() == 4 ==> counts[0] + counts[1] + counts[2] + counts[3] <= u64::MAX,
    ensures
        counts.len() != 4 ==> is_invalid_input(
            r,
            "Fisher exact requires exactly 4 counts [a,b,c,d]"@,
        ),
        counts.len() == 4 && counts[0] + counts[1] + counts[2] + counts[3] == 0
            ==> is_invalid_input(r, "all counts are zero"@),
        r is Ok <==> (counts.len() == 4 && counts[0] + counts[1] + counts[2] + counts[3] != 0),
{
    if counts.len() != 4 {
        return invalid("Fisher exact requires exactly 4 counts [a,b,c,d]");
    }
    let n = counts[0] + counts[1] + counts[2] + counts[3];
    if n == 0 {
        return invalid("all counts are zero");
    }
    Ok(())
}

/// The values that the top-left cell takes over the 2×2 tables with the
/// margins of `[a, b; c, d]`, which the exact test enumerates: from
/// `(a + c) - (c + d)` (or 0) up to the smaller of `a + b` and `a + c`.
/// The observed table is among them.
pub fn fisher_support(a: u64, b: u64, c: u64, d: u64) -> (r: (u64, u64))
    requires
        a + b + c + d <= u64::MAX,
    ensures
        r.0 == (if a + c > c + d {
            a + c - (c + d)
        } else {
            0
        }),
        r.1 == (if a + b < a + c {
            a + b
        } else {
            a + c
        }),
        r.0 <= a <= r.1,
{
    let r1 = a + b;
    let r2 = c + d;
    let c1 = a + c;
    let x_min = if c1 > r2 {
        c1 - r2
    } else {
        0
    };
    let x_max = if r1 < c1 {
        r1
    } else {
        c1
    };
    (x_min, x_max)
}

/// Input checks of the one-sample Kolmogorov-Smirnov test of binned counts:
/// at least two bins and a non-zero sample size.
pub fn check_ks(counts: &Vec<u64>, sample_size: u64) -> (r: Result<(), ScorerError>)
    ensures
        counts.len() < 2 ==> is_invalid_input(r, "need at least 2 bins"@),
        counts.len() >= 2 && sample_size == 0 ==> is_invalid_input(r, "sample_size is zero"@),
        r is Ok <==> (counts.len() >= 2 && sample_size != 0),
{
    if counts.len() < 2 {
        return invalid("need at least 2 bins");
    }
    if sample_size == 0 {
        return invalid("sample_size is zero");
    }
    Ok(())
}

/// Input checks of the bootstrap test: at least two bins and a non-zero
/// sample size, reported together.
pub fn check_bootstrap(counts: &Vec<u64>, sample_size: u64) -> (r: Result<(), ScorerError>)
    ensures
        (counts.len() < 2 || sample_size == 0) ==> is_invalid_input(
            r,
            "need at least 2 bins and n>0"@,
        ),
        r is Ok <==> (counts.len() >= 2 && sample_size != 0),
{
    if counts.len() < 2 || sample_size == 0 {
        return invalid("need at least 2 bins and n>0");
    }
    Ok(())
}

/// Whether the scorer accepts `output` for the test it names.
pub open spec fn scorer_accepts(output: DetectorOutput) -> bool {
    let k = output.counts.len();
    let c = output.counts@;
    match output.test_type {
        TestType::ChiSquared(df) => k >= 2 && df == k - 1 && output.sample_size != 0,
        TestType::FisherExact => k == 4 && c[0] + c[1] + c[2] + c[3] != 0,
        TestType::KolmogorovSmirnov => k >= 2 && output.sample_size != 0,
        TestType::Bootstrap { .. } => k >= 2 && output.sample_size != 0,
    }
}

/// The input checks of `score`: those of the test that `output` names.
pub fn check_score_input(output: &DetectorOutput) -> (r: Result<(), ScorerError>)
    requires
        output.test_type is FisherExact && output.counts.len() == 4 ==> output.counts[0]
            + output.counts[1] + output.counts[2] + output.counts[3] <= u64::MAX,
    ensures
        r is Ok <==> scorer_accepts(*output),
        r is Err ==> r matches Err(ScorerError::InvalidInput(_)),
{
    match &output.test_type {
        TestType::ChiSquared(df) => check_chi_squared(&output.counts, output.sample_size, *df),
        TestType::FisherExact => check_fisher_exact(&output.counts),
        TestType::KolmogorovSmirnov => check_ks(&output.counts, output.sample_size),
        TestType::Bootstrap { .. } => check_bootstrap(&output.counts, output.sample_size),
    }
}

/// What the scorer accepts, test by test: the chi-squared, KS and bootstrap
/// tests need at least two bins and a non-zero sample size (chi-squared also
/// `df == k - 1`); Fisher's exact test needs four counts, not all zero, and
/// does not look at the sample size.
pub proof fn lemma_scorer_accepts_exactly(o: DetectorOutput)
    ensures
        o.test_type !is FisherExact && o.sample_size == 0 ==> !scorer_accepts(o),
        o.counts.len() < 2 ==> !scorer_accepts(o),
        forall|df: u32|
            o.test_type == TestType::ChiSquared(df) ==> (scorer_accepts(o) <==> (o.counts.len()
                >= 2 && df == o.counts.len() - 1 && o.sample_size > 0)),
        o.test_type is KolmogorovSmirnov ==> (scorer_accepts(o) <==> (o.counts.len() >= 2
            && o.sample_size > 0)),
        o.test_type is Bootstrap ==> (scorer_accepts(o) <==> (o.counts.len() >= 2
            && o.sample_size > 0)),
        o.test_type is FisherExact ==> (scorer_accepts(o) <==> (o.counts.len() == 4 && (
        o.counts@[0] > 0 || o.counts@[1] > 0 || o.counts@[2] > 0 || o.counts@[3] > 0))),
{
}

} // verus!
