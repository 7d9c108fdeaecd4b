use superstition::corpus::{Corpus, TableFile};
use superstition::schema::{schema_text, sort_tables, TableColumns};

fn table(name: &str, cols: &[&str]) -> TableColumns {
    TableColumns { name: name.to_string(), columns: cols.iter().map(|c| c.to_string()).collect() }
}

#[test]
fn tables_are_sorted_by_name() {
    let sorted = sort_tables(vec![
        table("sp500_daily", &["timestamp"]),
        table("btc_daily", &["timestamp", "close_usd_cents"]),
        table("moon_phases", &[]),
        table("Zeta", &["z"]),
    ]);
    let names: Vec<&str> = sorted.iter().map(|t| t.name.as_str()).collect();
    assert_eq!(names, vec!["Zeta", "btc_daily", "moon_phases", "sp500_daily"]);
    assert_eq!(sorted[1].columns, vec!["timestamp".to_string(), "close_usd_cents".to_string()]);
}

#[test]
fn schema_text_lists_tables_and_columns() {
    let text = schema_text(&vec![
        table("btc_daily", &["timestamp", "close_usd_cents"]),
        table("moon_phases", &["phase_pct"]),
    ]);
    assert_eq!(
        text,
        "  Table: btc_daily\n    timestamp  uint64\n    close_usd_cents  uint64\n\n  Table: moon_phases\n    phase_pct  uint64"
    );
    assert_eq!(schema_text(&vec![]), "");
    assert_eq!(schema_text(&vec![table("empty", &[])]), "  Table: empty\n");
}

#[test]
fn corpus_lists_its_table_names() {
    let files = vec![
        TableFile { name: "b".to_string(), path: "d/b.parquet".to_string(), bytes: vec![1] },
        TableFile { name: "a".to_string(), path: "d/a.parquet".to_string(), bytes: vec![2] },
    ];
    let c = Corpus::from_table_files(&files);
    assert_eq!(c.table_names(), vec!["b".to_string(), "a".to_string()]);
}
