//! The host's checks on what a detector returns.

use vstd::prelude::*;

use crate::scorer::{scorer_accepts, DetectorOutput, TestType};
use crate::text::{decimal, push_decimal};

verus! {

/// The detector's handle on the corpus, handed to it by the host.
pub struct CorpusHandle;

/// Why the host refused a detector's output before scoring it.
#[derive(Debug, Clone, Copy, PartialEq, Eq)]
pub enum OutputError {
    ZeroSampleSize,
    EmptyCounts,
    /// A Fisher exact test with other than four counts (the count given).
    FisherCounts(usize),
    /// A chi-squared test whose counts do not number `df + 1`.
    ChiSquaredCounts { df: u32, expected: u64, got: usize },
    /// A chi-squared test with no degree of freedom.
    DegenerateChiSquared,
    /// A test over bins with fewer than two bins (the count given).
    TooFewBins(usize),
}

/// The first problem the host finds with a detector's output, if any.
pub open spec fn output_problem(output: DetectorOutput) -> Option<OutputError> {
    let k = output.counts.len();
    if output.sample_size == 0 {
        Some(OutputError::ZeroSampleSize)
    } else if k == 0 {
        Some(OutputError::EmptyCounts)
    } else {
        match output.test_type {
            TestType::FisherExact => if k != 4 {
                Some(OutputError::FisherCounts(k as usize))
            } else {
                None
            },
            TestType::ChiSquared(df) => if k != df + 1 {
                Some(
                    OutputError::ChiSquaredCounts {
                        df,
                        expected: (df + 1) as u64,
                        got: k as usize,
                    },
                )
            } else if df == 0 {
                Some(OutputError::DegenerateChiSquared)
            } else {
                None
            },
            TestType::KolmogorovSmirnov => if k < 2 {
                Some(OutputError::TooFewBins(k as usize))
            } else {
                None
            },
            TestType::Bootstrap { .. } => if k < 2 {
                Some(OutputError::TooFewBins(k as usize))
            } else {
                None
            },
        }
    }
}

/// Checks that a detector's output fits the test it declares.
pub fn validate_output(output: &DetectorOutput) -> (r: Result<(), OutputError>)
    ensures
        match output_problem(*output) {
            Some(e) => r == Err::<(), OutputError>(e),
            None => r is Ok,
        },
{
    let k = output.counts.len();
    if output.sample_size == 0 {
        return Err(OutputError::ZeroSampleSize);
    }
    if k == 0 {
        return Err(OutputError::EmptyCounts);
    }
    match &output.test_type {
        TestType::FisherExact => {
            if k != 4 {
                return Err(OutputError::FisherCounts(k));
            }
        },
        TestType::ChiSquared(df) => {
            let expected: u64 = *df as u64 + 1;
            if k as u64 != expected {
                return Err(OutputError::ChiSquaredCounts { df: *df, expected, got: k });
            }
            if *df == 0 {
                return Err(OutputError::DegenerateChiSquared);
            }
        },
        TestType::KolmogorovSmirnov | TestType::Bootstrap { .. } => {
            if k < 2 {
                return Err(OutputError::TooFewBins(k));
            }
        },
    }
    Ok(())
}

impl OutputError {
    /// The text of the error.
    pub open spec fn spec_message(self) -> Seq<char> {
        match self {
            OutputError::ZeroSampleSize => "detector returned sample_size = 0"@,
            OutputError::EmptyCounts => "detector returned empty counts"@,
            OutputError::FisherCounts(got) => "fisher_exact requires exactly 4 counts [a,b,c,d], got "@
                + decimal(got as nat),
            OutputError::ChiSquaredCounts { df, expected, got } => "chi_squared(df="@ + decimal(
                df as nat,
            ) + ") requires "@ + decimal(expected as nat) + " counts, got "@ + decimal(got as nat),
            OutputError::DegenerateChiSquared => "chi_squared(df=0) is degenerate"@,
            OutputError::TooFewBins(got) => "test requires at least 2 bins, got "@ + decimal(
                got as nat,
            ),
        }
    }

    /// The text of the error, as the host reports it.
    pub fn message(&self) -> (m: String)
        ensures
            m@ == self.spec_message(),
    {
        match self {
            OutputError::ZeroSampleSize => String::from_str("detector returned sample_size = 0"),
            OutputError::EmptyCounts => String::from_str("detector returned empty counts"),
            OutputError::FisherCounts(got) => {
                let mut m = String::from_str("fisher_exact requires exactly 4 counts [a,b,c,d], got ");
                push_decimal(&mut m, *got as u64);
                m
            },
            OutputError::ChiSquaredCounts { df, expected, got } => {
                let mut m = String::from_str("chi_squared(df=");
                push_decimal(&mut m, *df as u64);
                m.append(") requires ");
                push_decimal(&mut m, *expected);
                m.append(" counts, got ");
                push_decimal(&mut m, *got as u64);
                m
            },
            OutputError::DegenerateChiSquared => String::from_str("chi_squared(df=0) is degenerate"),
            OutputError::TooFewBins(got) => {
                let mut m = String::from_str("test requires at least 2 bins, got ");
                push_decimal(&mut m, *got as u64);
                m
            },
        }
    }
}

/// The first day of the stub corpus: 2023-01-01 00:00:00 UTC.
pub const STUB_BASE_TS: u64 = 1_672_531_200;

/// The `block_timestamp`s of the stub `erc20_transfers` table that stands in
/// for a corpus: one transfer per day, on seven consecutive days.
pub fn stub_erc20_timestamps() -> (v: Vec<u64>)
    ensures
        v.len() == 7,
        forall|d: int| 0 <= d < 7 ==> v@[d] == STUB_BASE_TS + d * 86_400,
{
    let mut v: Vec<u64> = Vec::new();
    let mut d: u64 = 0;
    while d < 7
        invariant
            d <= 7,
            v.len() == d,
            forall|j: int| 0 <= j < d ==> v@[j] == STUB_BASE_TS + j * 86_400,
        decreases 7 - d,
    {
        v.push(STUB_BASE_TS + d * 86_400);
        d = d + 1;
    }
    v
}

/// The one table that the stub corpus holds.
pub open spec fn stub_table_name() -> Seq<char> {
    "erc20_transfers"@
}

/// Whether the stub corpus (used when no corpus is given) holds `table`.
pub fn stub_has_table(table: &str) -> (r: bool)
    ensures
        r == (table@ == stub_table_name()),
{
    crate::text::str_eq(table, "erc20_transfers")
}


/// What the host lets through, the scorer accepts, except a Fisher exact
/// table whose four counts are all zero (the host checks only their number).
pub proof fn lemma_validated_output_is_scored(output: DetectorOutput)
    requires
        output_problem(output) is None,
        !(output.test_type is FisherExact && output.counts@[0] + output.counts@[1]
            + output.counts@[2] + output.counts@[3] == 0),
    ensures
        scorer_accepts(output),
{
}


/// Where the host takes a table's rows from.
#[derive(Debug, Clone, Copy, PartialEq, Eq)]
pub enum RowSource {
    /// The corpus given to the host.
    Corpus,
    /// The built-in stub table.
    Stub,
}

/// Where the rows of `table` come from: the corpus when one is given, else
/// the stub, which holds only `erc20_transfers` (`None`: no such table).
pub fn row_source(has_corpus: bool, table: &str) -> (r: Option<RowSource>)
    ensures
        has_corpus ==> r == Some(RowSource::Corpus),
        !has_corpus ==> r == (if table@ == stub_table_name() {
            Some(RowSource::Stub)
        } else {
            None::<RowSource>
        }),
{
    if has_corpus {
        Some(RowSource::Corpus)
    } else if stub_has_table(table) {
        Some(RowSource::Stub)
    } else {
        None
    }
}

/// A detector's position in a stream of `len` rows.
pub struct RowCursor {
    pos: usize,
    len: usize,
}

impl RowCursor {
    pub closed spec fn spec_pos(&self) -> nat {
        self.pos as nat
    }

    pub closed spec fn spec_len(&self) -> nat {
        self.len as nat
    }

    #[verifier::type_invariant]
    spec fn pos_in_range(self) -> bool {
        self.pos <= self.len
    }

    /// A cursor before the first of `len` rows.
    pub fn new(len: usize) -> (c: RowCursor)
        ensures
            c.spec_pos() == 0,
            c.spec_len() == len,
    {
        RowCursor { pos: 0, len }
    }

    /// The index of the next row, and the cursor moves past it; `None`
    /// once every row was handed out.
    pub fn next(&mut self) -> (r: Option<usize>)
        ensures
            final(self).spec_len() == old(self).spec_len(),
            old(self).spec_pos() < old(self).spec_len() ==> r == Some(old(self).spec_pos() as usize)
                && final(self).spec_pos() == old(self).spec_pos() + 1,
            old(self).spec_pos() >= old(self).spec_len() ==> r is None && final(self).spec_pos()
                == old(self).spec_pos(),
            final(self).spec_pos() <= final(self).spec_len(),
    {
        proof {
            use_type_invariant(&*self);
        }
        if self.pos < self.len {
            let i = self.pos;
            self.pos = self.pos + 1;
            Some(i)
        } else {
            None
        }
    }
}

/// What the host lets through: an output with a positive sample size whose
/// counts fit the declared test. Fisher's exact test takes exactly four
/// counts; a chi-squared test with `df >= 1` degrees of freedom takes
/// `df + 1` counts (so two bins, `df = 1`, are fine); the KS and bootstrap
/// tests take at least two. Every other output is refused.
pub proof fn lemma_host_accepts_fitting_outputs(o: DetectorOutput)
    ensures
        output_problem(o) is None <==> o.sample_size > 0 && match o.test_type {
            TestType::FisherExact => o.counts.len() == 4,
            TestType::ChiSquared(df) => df >= 1 && o.counts.len() == df + 1,
            TestType::KolmogorovSmirnov => o.counts.len() >= 2,
            TestType::Bootstrap { .. } => o.counts.len() >= 2,
        },
{
}

/// Which refusal the host gives: a zero sample size first, then empty
/// counts, then the test's own count rule, each error carrying the numbers
/// it reports.
pub proof fn lemma_host_refusals(o: DetectorOutput)
    ensures
        o.sample_size == 0 ==> output_problem(o) == Some(OutputError::ZeroSampleSize),
        o.sample_size > 0 && o.counts.len() == 0 ==> output_problem(o) == Some(
            OutputError::EmptyCounts,
        ),
        o.sample_size > 0 && o.counts.len() > 0 && o.test_type is FisherExact && o.counts.len()
            != 4 ==> output_problem(o) == Some(OutputError::FisherCounts(o.counts.len() as usize)),
        forall|df: u32|
            o.sample_size > 0 && o.counts.len() > 0 && o.test_type == TestType::ChiSquared(df)
                && o.counts.len() != df + 1 ==> output_problem(o) == Some(
                OutputError::ChiSquaredCounts {
                    df,
                    expected: (df + 1) as u64,
                    got: o.counts.len() as usize,
                },
            ),
        o.sample_size > 0 && o.test_type == TestType::ChiSquared(0) && o.counts.len() == 1
            ==> output_problem(o) == Some(OutputError::DegenerateChiSquared),
        o.sample_size > 0 && o.counts.len() == 1 && (o.test_type is KolmogorovSmirnov
            || o.test_type is Bootstrap) ==> output_problem(o) == Some(OutputError::TooFewBins(1)),
{
}

} // verus!
