use superstition::builder::{detector_manifest, detector_toolchain, replace_char, wasm_file_name};
use superstition::codegen::{
    bins_hint, compose_prompt, extract_json_array, known_patterns_text, strip_code_fences,
    trimmed, truncate_to_char_boundary, Hypothesis,
};
use superstition::render::{html_escape, xml_escape};
use superstition::text::{parse_unsigned_decimal, push_decimal, str_eq, text_less};

fn hyp(desc: &str, family: &str) -> Hypothesis {
    Hypothesis {
        name: "n".to_string(),
        description: desc.to_string(),
        hypothesis: String::new(),
        family: family.to_string(),
        test_type: "ks".to_string(),
        bins: 3,
        notes: String::new(),
    }
}

#[test]
fn truncate_respects_char_boundaries() {
    assert_eq!(truncate_to_char_boundary("hello", 3), "hel");
    assert_eq!(truncate_to_char_boundary("hello", 30), "hello");
    assert_eq!(truncate_to_char_boundary("", 3), "");
    // 'é' is two bytes: cutting inside it backs off to the boundary before it
    assert_eq!(truncate_to_char_boundary("aé", 2), "a");
    assert_eq!(truncate_to_char_boundary("aé", 3), "aé");
    assert_eq!(truncate_to_char_boundary("✓x", 2), "");
    assert_eq!(truncate_to_char_boundary("✓x", 0), "");
}

#[test]
fn json_array_is_cut_out() {
    assert_eq!(extract_json_array("Here: [1, [2]] done"), Some("[1, [2]]".to_string()));
    assert_eq!(extract_json_array("```json\n[{\"a\":1}]\n```"), Some("[{\"a\":1}]".to_string()));
    assert_eq!(extract_json_array("no array"), None);
    assert_eq!(extract_json_array("only [ open"), None);
    assert_eq!(extract_json_array("] before ["), None);
    assert_eq!(extract_json_array("[]"), Some("[]".to_string()));
}

#[test]
fn code_fences_are_stripped() {
    assert_eq!(strip_code_fences("```rust\nfn main() {}\n```"), "fn main() {}");
    assert_eq!(strip_code_fences("  ```\n\n\nlet x = 1;  \n```  \n"), "let x = 1;");
    assert_eq!(strip_code_fences("  plain code \n"), "plain code");
    assert_eq!(strip_code_fences("```rust"), "```rust");
    assert_eq!(strip_code_fences("``````"), "");
    assert_eq!(strip_code_fences("```rust```"), "");
}

#[test]
fn escapes() {
    assert_eq!(html_escape("a < b && c > \"d\""), "a &lt; b &amp;&amp; c &gt; \"d\"");
    assert_eq!(xml_escape("Tom's \"<tag>\" & co"), "Tom&apos;s &quot;&lt;tag&gt;&quot; &amp; co");
    assert_eq!(html_escape(""), "");
}

#[test]
fn detector_crate_files() {
    assert_eq!(replace_char("a_b_c", '_', '-'), "a-b-c");
    assert_eq!(wasm_file_name("dow-erc20"), "dow_erc20.wasm");
    let m = detector_manifest("moon_btc");
    assert!(m.starts_with("[workspace]\n\n[package]\nname = \"moon_btc\"\n"));
    assert!(m.ends_with("package = \"superstition:moon-btc\"\n"));
    assert!(m.contains("crate-type = [\"cdylib\"]"));
    assert_eq!(detector_toolchain(), "[toolchain]\nchannel = \"stable\"\ntargets = [\"wasm32-wasip2\"]\n");
}

#[test]
fn prompts() {
    assert_eq!(compose_prompt("  sys \n", "\n user"), "sys\n\n---\n\nuser");
    assert_eq!(trimmed(" \t answer \n"), "answer");
    assert_eq!(bins_hint("chi_squared", 7), "TestType::ChiSquared(6) with 7 counts");
    assert_eq!(bins_hint("fisher_exact", 4), "TestType::FisherExact with exactly 4 counts [a, b, c, d]");
    assert_eq!(bins_hint("ks", 10), "TestType::KolmogorovSmirnov with 10 bins");
    assert_eq!(bins_hint("bootstrap", 12), "TestType::Bootstrap with 12 bins");
    assert_eq!(known_patterns_text(&vec![]), "None yet.");
    assert_eq!(
        known_patterns_text(&vec![hyp("Moon", "temporal-cyclic"), hyp("Fees", "value-distribution")]),
        "- Moon (temporal-cyclic)\n- Fees (value-distribution)"
    );
}

#[test]
fn numbers_and_text() {
    assert_eq!(parse_unsigned_decimal("42", 100), Some(42));
    assert_eq!(parse_unsigned_decimal("+0042", 100), Some(42));
    assert_eq!(parse_unsigned_decimal("101", 100), None);
    assert_eq!(parse_unsigned_decimal("1a", 100), None);
    assert_eq!(parse_unsigned_decimal("", 100), None);
    assert_eq!(parse_unsigned_decimal("99999999999999999999999", u64::MAX), None);
    let mut s = String::from("n=");
    push_decimal(&mut s, 0);
    push_decimal(&mut s, 1234567890);
    assert_eq!(s, "n=01234567890");
    assert!(str_eq("abc", "abc"));
    assert!(!str_eq("abc", "abd"));
    assert!(text_less("Mon, 1 Jan", "Tue, 1 Jan"));
    assert!(text_less("ab", "abc"));
    assert!(!text_less("abc", "abc"));
    assert!(!text_less("b", "abc"));
}
