use superstition::codegen::Hypothesis;
use superstition::host::{row_source, RowCursor, RowSource};
use superstition::prompts::{
    codegen_system_prompt, detector_user_prompt, fix_user_prompt, hypothesis_system_prompt,
    hypothesis_user_prompt, replace_str, RecordFigures,
};
use superstition::state::SignificantRecord;

fn hyp() -> Hypothesis {
    Hypothesis {
        name: "moon_btc".to_string(),
        description: "BTC closes by moon phase".to_string(),
        hypothesis: "h0".to_string(),
        family: "temporal-cyclic".to_string(),
        test_type: "chi_squared".to_string(),
        bins: 2,
        notes: "use is_full_moon".to_string(),
    }
}

#[test]
fn replacement_is_left_to_right() {
    assert_eq!(replace_str("a{X}b{X}", "{X}", "1"), "a1b1");
    assert_eq!(replace_str("aaa", "aa", "b"), "ba");
    assert_eq!(replace_str("none", "{X}", "1"), "none");
    assert_eq!(replace_str("{X}", "{X}", "{X}{X}"), "{X}{X}");
}

#[test]
fn system_prompts_are_filled_in() {
    let sys = hypothesis_system_prompt("  Table: moon_phases");
    assert!(sys.contains("Corpus schema (all values are uint64):\n  Table: moon_phases\n"));
    assert!(!sys.contains("{SCHEMA}"));
    let cg = codegen_system_prompt("WIT-TEXT", "REF-TEXT", "SCHEMA-TEXT");
    assert!(cg.contains("=== WIT INTERFACE ===\nWIT-TEXT\n"));
    assert!(cg.contains("=== REFERENCE IMPLEMENTATION ===\nREF-TEXT\n"));
    assert!(cg.contains("=== CORPUS SCHEMA (all columns are uint64) ===\nSCHEMA-TEXT\n"));
}

#[test]
fn hypothesis_user_prompt_lists_history() {
    let none = hypothesis_user_prompt(&vec![], &vec![], &vec![], 3);
    assert!(none.starts_with("Previously attempted patterns (do NOT repeat these):\nNone yet.\n\nGenerate exactly 3 novel hypotheses"));
    let rec = SignificantRecord {
        name: "dow".to_string(),
        description: "weekday effect".to_string(),
        family: "temporal-cyclic".to_string(),
        p_value_bits: 0,
        effect_size_bits: 0,
        pattern_id: "x".to_string(),
    };
    let figs = vec![RecordFigures { p_value: "1.00e-9".to_string(), effect: "0.110".to_string() }];
    let with = hypothesis_user_prompt(&vec![hyp()], &vec![rec], &figs, 5);
    assert!(with.starts_with(
        "Previously attempted patterns (do NOT repeat these):\n- BTC closes by moon phase (temporal-cyclic)\n\nPreviously SIGNIFICANT patterns (high value — generate variants, extensions, or related phenomena that may share the same underlying mechanism):\n  - weekday effect [family=temporal-cyclic, p=1.00e-9, V=0.110]\n\nGenerate exactly 5 novel"
    ));
    assert!(with.ends_with("notes       — brief implementation hint (formula, etc.)"));
}

#[test]
fn detector_prompts() {
    let u = detector_user_prompt(&hyp(), "{json}");
    assert_eq!(
        u,
        "Implement this detector:\n\n{json}\n\nImplementation notes:\n  use is_full_moon\n  Test type: TestType::ChiSquared(1) with 2 counts\n\nWrite the complete src/lib.rs."
    );
    let long_error = "é".repeat(2000);
    let f = fix_user_prompt("fn x() {}", &long_error, "{json}");
    assert!(f.starts_with("This detector code failed to compile:\n\n```rust\nfn x() {}\n```\n\nCompiler error:\n```\n"));
    let shown = format!("\n```\n\nCompiler error:\n```\n{}\n```", "é".repeat(1500));
    assert!(f.contains(&shown));
}

#[test]
fn host_row_streams() {
    assert_eq!(row_source(true, "anything"), Some(RowSource::Corpus));
    assert_eq!(row_source(false, "erc20_transfers"), Some(RowSource::Stub));
    assert_eq!(row_source(false, "dex_swaps"), None);
    let mut c = RowCursor::new(2);
    assert_eq!(c.next(), Some(0));
    assert_eq!(c.next(), Some(1));
    assert_eq!(c.next(), None);
    assert_eq!(c.next(), None);
}
