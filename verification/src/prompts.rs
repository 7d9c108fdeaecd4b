//! The prompts of the hypothesis and detector-code requests.

use vstd::prelude::*;

use crate::codegen::{known_lines, known_patterns_text, truncate_to_char_boundary, truncated_text, Hypothesis};
use crate::state::SignificantRecord;
use crate::text::{chars_of, decimal, joined, push_char, push_decimal};

verus! {

/// The system prompt of the hypothesis request; `{SCHEMA}` stands for the
/// corpus schema.
pub const HYPOTHESIS_SYSTEM: &'static str = r#"
You generate statistical hypotheses about financial and market data for the Superstition analytics platform.

Corpus schema (all values are uint64):
{SCHEMA}

Test types available (and when to use each):
  chi_squared(df)  — categorical: k uniform bins, df = k-1
                     e.g. day-of-week (k=7, df=6), month (k=12, df=11),
                          full-moon vs not (k=2, df=1)
  fisher_exact     — 2×2 contingency (EXACTLY 4 counts [a,b,c,d])
                     e.g. full_moon × high_price vs low_price
  ks               — continuous uniform comparison (frequency array)
  bootstrap        — general permutation (statistic_name + permutations)

Detector constraints:
  - Can only use columns listed in the schema above
  - Timestamps are Unix seconds at midnight UTC (daily granularity)
  - Price values are in USD cents (e.g. close_usd_cents / 100 = USD price)
  - TVL values are in USD millions
  - Returns raw COUNTS only (host computes statistics)
  - No network, no clock, no randomness
  - Be creative: cross-table correlations are fine (e.g. high BTC price days vs moon phase)

Return ONLY a JSON array — no prose, no markdown, no fences.
"#;

/// The system prompt of the detector-code requests; `{WIT}`, `{REF}` and
/// `{SCHEMA}` stand for the interface, the reference detector and the schema.
pub const CODEGEN_SYSTEM: &'static str = r#"
You write Rust WebAssembly detector components for the Superstition analytics platform.

=== WIT INTERFACE ===
{WIT}

=== REFERENCE IMPLEMENTATION ===
{REF}

=== CORPUS SCHEMA (all columns are uint64) ===
{SCHEMA}

=== RULES ===
1. Return ONLY Rust source code. NO markdown. NO ```rust fences. NO prose.
2. Use the EXACT import pattern from the reference implementation.
3. test() returns raw COUNTS — never statistics or p-values.
4. Format the `detail` string BEFORE constructing TestResult (avoid borrow-after-move).
5. counts.len() must match the test type:
   chi_squared(df): len == df+1
   fisher_exact:    len == 4 exactly, as [a, b, c, d]
   ks / bootstrap:  len == number of bins
6. Access corpus via corpus::iterator(handle, "<table_name>") using the exact table name from the schema.
7. Access columns: row.fields.iter().find(|(k,_)| k == "<column_name>") then match Value::U64Val(v).
8. The exported struct name should be PascalCase of the detector name.
9. Start with #[allow(warnings)] mod bindings; as in the reference.
10. Timestamps in these tables are Unix seconds at midnight UTC (daily data, NOT block-level).
"#;

/// The end of the hypothesis request, after the number asked for.
pub const HYPOTHESIS_KEYS: &'static str = r#" novel hypotheses NOT in the attempted list above.
Use diverse families and test types.

Return a JSON array of objects with these keys:
  name        — snake_case identifier ≤30 chars
  description — human-readable one-liner
  hypothesis  — scientific null-hypothesis statement to reject
  family      — one of: temporal-cyclic, temporal-trend, value-distribution
  test_type   — one of: chi_squared, fisher_exact, ks, bootstrap
  bins        — number of bins (k for chi_squared, 4 for fisher_exact, any for ks/bootstrap)
  notes       — brief implementation hint (formula, etc.)"#;

/// `s` with every occurrence of `pat` replaced by `with`, scanning left to
/// right without overlaps (std's `str::replace`).
pub open spec fn replace_all(s: Seq<char>, pat: Seq<char>, with: Seq<char>) -> Seq<char>
    decreases s.len(),
{
    if pat.len() == 0 || s.len() < pat.len() {
        s
    } else if s.take(pat.len() as int) == pat {
        with + replace_all(s.skip(pat.len() as int), pat, with)
    } else {
        seq![s[0]] + replace_all(s.drop_first(), pat, with)
    }
}

/// Replaces every occurrence of a non-empty `pat` in `s` with `with`.
pub fn replace_str(s: &str, pat: &str, with: &str) -> (r: String)
    requires
        pat@.len() > 0,
    ensures
        r@ == replace_all(s@, pat@, with@),
{
    let v = chars_of(s);
    let p = chars_of(pat);
    let n = v.len();
    let m = p.len();
    let mut r = String::new();
    let mut i: usize = 0;
    assert(v@.skip(0) =~= s@);
    while i < n
        invariant
            v@ == s@,
            p@ == pat@,
            n == v.len(),
            m == p.len(),
            m > 0,
            i <= n,
            r@ + replace_all(v@.skip(i as int), pat@, with@) == replace_all(s@, pat@, with@),
        decreases n - i,
    {
        let ghost rest = v@.skip(i as int);
        let mut matched = m <= n - i;
        let mut j: usize = 0;
        while matched && j < m
            invariant
                v@ == s@,
                p@ == pat@,
                n == v.len(),
                m == p.len(),
                i <= n,
                j <= m,
                matched ==> i + m <= n,
                matched ==> forall|k: int| 0 <= k < j ==> v@[i + k] == p@[k],
                !matched ==> !(i + m <= n && v@.subrange(i as int, i + m) == p@),
            decreases (m - j) + if matched {
                1int
            } else {
                0int
            },
        {
            if v[i + j] != p[j] {
                matched = false;
                assert(v@.subrange(i as int, i + m)[j as int] != p@[j as int]);
            } else {
                j = j + 1;
            }
        }
        if matched {
            assert(rest.take(m as int) =~= p@);
            assert(rest.skip(m as int) =~= v@.skip(i + m));
            r.append(with);
            i = i + m;
        } else {
            proof {
                if rest.len() >= m {
                    assert(rest.take(m as int) =~= v@.subrange(i as int, i + m));
                }
            }
            assert(rest.drop_first() =~= v@.skip(i + 1));
            push_char(&mut r, v[i]);
            assert(r@ + replace_all(v@.skip(i + 1), pat@, with@) =~= replace_all(s@, pat@, with@));
            i = i + 1;
        }
    }
    assert(v@.skip(n as int).len() == 0);
    assert(r@ =~= replace_all(s@, pat@, with@));
    r
}

/// The hypothesis request's system prompt for this corpus schema.
pub fn hypothesis_system_prompt(schema: &str) -> (r: String)
    ensures
        r@ == replace_all(HYPOTHESIS_SYSTEM@, "{SCHEMA}"@, schema@),
{
    proof {
        reveal_strlit("{SCHEMA}");
    }
    replace_str(HYPOTHESIS_SYSTEM, "{SCHEMA}", schema)
}

/// The detector-code requests' system prompt: the interface, the reference
/// detector and the schema put in, in that order.
pub fn codegen_system_prompt(wit: &str, reference: &str, schema: &str) -> (r: String)
    ensures
        r@ == replace_all(
            replace_all(replace_all(CODEGEN_SYSTEM@, "{WIT}"@, wit@), "{REF}"@, reference@),
            "{SCHEMA}"@,
            schema@,
        ),
{
    proof {
        reveal_strlit("{WIT}");
        reveal_strlit("{REF}");
        reveal_strlit("{SCHEMA}");
    }
    let a = replace_str(CODEGEN_SYSTEM, "{WIT}", wit);
    let b = replace_str(a.as_str(), "{REF}", reference);
    replace_str(b.as_str(), "{SCHEMA}", schema)
}

/// A significant find's figures, written out by the caller (the p-value in
/// scientific notation, the effect size to three places).
pub struct RecordFigures {
    pub p_value: String,
    pub effect: String,
}

/// The line that shows one significant find in a prompt.
pub open spec fn significant_line(r: SignificantRecord, f: RecordFigures) -> Seq<char> {
    "  - "@ + r.description@ + " [family="@ + r.family@ + ", p="@ + f.p_value@ + ", V="@
        + f.effect@ + "]"@
}

/// The significant finds, one line each.
pub open spec fn significant_lines(rs: Seq<SignificantRecord>, fs: Seq<RecordFigures>) -> Seq<char>
    decreases rs.len(),
{
    if rs.len() == 0 {
        Seq::empty()
    } else if rs.len() == 1 {
        significant_line(rs[0], fs[0])
    } else {
        significant_lines(rs.drop_last(), fs.take(rs.len() - 1)) + "\n"@ + significant_line(
            rs.last(),
            fs[rs.len() - 1],
        )
    }
}

/// The feedback section of the hypothesis request: nothing when nothing
/// significant was found yet.
pub open spec fn feedback_section(rs: Seq<SignificantRecord>, fs: Seq<RecordFigures>) -> Seq<char> {
    if rs.len() == 0 {
        Seq::empty()
    } else {
        "\nPreviously SIGNIFICANT patterns (high value — generate variants, extensions, or related phenomena that may share the same underlying mechanism):\n"@
            + significant_lines(rs, fs) + "\n"@
    }
}

/// The user prompt of the hypothesis request.
pub open spec fn hypothesis_prompt_text(
    known: Seq<Hypothesis>,
    rs: Seq<SignificantRecord>,
    fs: Seq<RecordFigures>,
    n: nat,
) -> Seq<char> {
    "Previously attempted patterns (do NOT repeat these):\n"@ + (if known.len() == 0 {
        "None yet."@
    } else {
        known_lines(known)
    }) + "\n"@ + feedback_section(rs, fs) + "\nGenerate exactly "@ + decimal(n)
        + HYPOTHESIS_KEYS@
}

/// The user prompt of the hypothesis request: the hypotheses already tried,
/// the significant finds to build on, and how many new ones to propose.
pub fn hypothesis_user_prompt(
    known: &Vec<Hypothesis>,
    significant: &Vec<SignificantRecord>,
    figures: &Vec<RecordFigures>,
    n: usize,
) -> (r: String)
    requires
        figures.len() == significant.len(),
    ensures
        r@ == hypothesis_prompt_text(known@, significant@, figures@, n as nat),
{
    let mut r = String::from_str("Previously attempted patterns (do NOT repeat these):\n");
    let k = known_patterns_text(known);
    r.append(k.as_str());
    r.append("\n");
    if significant.len() > 0 {
        r.append(
            "\nPreviously SIGNIFICANT patterns (high value — generate variants, extensions, or related phenomena that may share the same underlying mechanism):\n",
        );
        let ghost start = r@;
        let mut i: usize = 0;
        assert(significant_lines(significant@.take(0), figures@.take(0)) =~= Seq::<char>::empty());
        while i < significant.len()
            invariant
                figures.len() == significant.len(),
                i <= significant.len(),
                r@ == start + significant_lines(significant@.take(i as int), figures@.take(i as int)),
            decreases significant.len() - i,
        {
            if i > 0 {
                r.append("\n");
            }
            r.append("  - ");
            r.append(significant[i].description.as_str());
            r.append(" [family=");
            r.append(significant[i].family.as_str());
            r.append(", p=");
            r.append(figures[i].p_value.as_str());
            r.append(", V=");
            r.append(figures[i].effect.as_str());
            r.append("]");
            proof {
                let rs = significant@.take(i + 1);
                let fs = figures@.take(i + 1);
                assert(rs.drop_last() =~= significant@.take(i as int));
                assert(fs.take(i as int) =~= figures@.take(i as int));
                assert(rs.last() == significant@[i as int]);
                assert(fs[i as int] == figures@[i as int]);
                if i == 0 {
                    assert(significant_lines(rs, fs) == significant_line(rs[0], fs[0]));
                }
                assert(r@ =~= start + significant_lines(rs, fs));
            }
            i = i + 1;
        }
        assert(significant@.take(significant.len() as int) =~= significant@);
        assert(figures@.take(figures.len() as int) =~= figures@);
        r.append("\n");
    }
    r.append("\nGenerate exactly ");
    push_decimal(&mut r, n as u64);
    r.append(HYPOTHESIS_KEYS);
    r
}

/// The user prompt of the detector-code request.
pub open spec fn detector_prompt_text(hyp_json: Seq<char>, notes: Seq<char>, hint: Seq<char>) -> Seq<char> {
    "Implement this detector:\n\n"@ + hyp_json + "\n\nImplementation notes:\n  "@ + notes
        + "\n  Test type: "@ + hint + "\n\nWrite the complete src/lib.rs."@
}

/// The user prompt that asks for a detector implementing `hyp` (given also
/// as `hyp_json`), with the hint for its test type.
pub fn detector_user_prompt(hyp: &Hypothesis, hyp_json: &str) -> (r: String)
    requires
        hyp.test_type@ == "chi_squared"@ ==> hyp.bins >= 1,
    ensures
        r@ == detector_prompt_text(
            hyp_json@,
            hyp.notes@,
            crate::codegen::bins_hint_text(hyp.test_type@, hyp.bins),
        ),
{
    let hint = crate::codegen::bins_hint(hyp.test_type.as_str(), hyp.bins);
    let mut r = String::from_str("Implement this detector:\n\n");
    r.append(hyp_json);
    r.append("\n\nImplementation notes:\n  ");
    r.append(hyp.notes.as_str());
    r.append("\n  Test type: ");
    r.append(hint.as_str());
    r.append("\n\nWrite the complete src/lib.rs.");
    r
}

/// The user prompt that asks to repair code that failed to build.
pub open spec fn fix_prompt_text(code: Seq<char>, error: Seq<char>, hyp_json: Seq<char>) -> Seq<char> {
    "This detector code failed to compile:\n\n```rust\n"@ + code + "\n```\n\nCompiler error:\n```\n"@
        + error + "\n```\n\nHypothesis:\n"@ + hyp_json
        + "\n\nFix ALL errors and return the corrected complete src/lib.rs.\nReturn ONLY Rust source code. NO markdown. NO fences. NO prose."@
}

/// The user prompt that asks to repair `broken_code`, showing at most the
/// first 3000 bytes of the compiler's error.
pub fn fix_user_prompt(broken_code: &str, build_error: &str, hyp_json: &str) -> (r: String)
    ensures
        r@ == fix_prompt_text(broken_code@, truncated_text(build_error, 3000), hyp_json@),
{
    let mut r = String::from_str("This detector code failed to compile:\n\n```rust\n");
    r.append(broken_code);
    r.append("\n```\n\nCompiler error:\n```\n");
    r.append(truncate_to_char_boundary(build_error, 3000));
    r.append("\n```\n\nHypothesis:\n");
    r.append(hyp_json);
    r.append(
        "\n\nFix ALL errors and return the corrected complete src/lib.rs.\nReturn ONLY Rust source code. NO markdown. NO fences. NO prose.",
    );
    r
}

/// The feedback section lists the significant finds in order, one per line,
/// each with its own figures: line `i` shows `rs[i]` with `fs[i]`.
pub proof fn lemma_significant_lines_pair_each_find_with_its_figures(
    rs: Seq<SignificantRecord>,
    fs: Seq<RecordFigures>,
)
    requires
        fs.len() == rs.len(),
    ensures
        significant_lines(rs, fs) == joined(
            Seq::new(rs.len(), |i: int| significant_line(rs[i], fs[i])),
            "\n"@,
        ),
    decreases rs.len(),
{
    let items = Seq::new(rs.len(), |i: int| significant_line(rs[i], fs[i]));
    if rs.len() > 1 {
        let n = rs.len() - 1;
        lemma_significant_lines_pair_each_find_with_its_figures(rs.drop_last(), fs.take(n));
        assert(items.drop_last() =~= Seq::new(
            rs.drop_last().len(),
            |i: int| significant_line(rs.drop_last()[i], fs.take(n)[i]),
        ));
    }
}

} // verus!
