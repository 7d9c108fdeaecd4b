use superstition::codegen::Hypothesis;
use superstition::state::{AgentState, SignificantRecord};

fn hyp(name: &str, desc: &str) -> Hypothesis {
    Hypothesis {
        name: name.to_string(),
        description: desc.to_string(),
        hypothesis: String::new(),
        family: "temporal-cyclic".to_string(),
        test_type: "chi_squared".to_string(),
        bins: 7,
        notes: String::new(),
    }
}

fn rec(name: &str) -> SignificantRecord {
    SignificantRecord {
        name: name.to_string(),
        description: String::new(),
        family: String::new(),
        p_value_bits: 1e-9f64.to_bits(),
        effect_size_bits: 0.3f64.to_bits(),
        pattern_id: "id".to_string(),
    }
}

#[test]
fn seen_hypotheses_are_deduplicated_by_name() {
    let mut st = AgentState::default();
    st.add_seen(hyp("dow", "first"));
    st.add_seen(hyp("moon", "second"));
    st.add_seen(hyp("dow", "again"));
    assert_eq!(st.seen.len(), 2);
    assert_eq!(st.seen[0].description, "first");
    assert_eq!(st.seen[1].name, "moon");
    assert!(st.significant.is_empty());
}

#[test]
fn significant_records_are_deduplicated_by_name() {
    let mut st = AgentState::new();
    st.add_significant(rec("dow"));
    st.add_significant(rec("dow"));
    st.add_significant(rec("moon"));
    assert_eq!(st.significant.len(), 2);
    assert!(st.seen.is_empty());
}
