use superstition::corpus::{sort_table_files, Corpus, TableFile};

fn file(name: &str, bytes: &[u8]) -> TableFile {
    TableFile { name: name.to_string(), path: format!("dir/{name}.parquet"), bytes: bytes.to_vec() }
}

#[test]
fn corpus_id_hashes_all_files_in_order() {
    let files = vec![file("btc_daily", b"PAR1aaa"), file("moon_phases", b"PAR1bbb")];
    let c = Corpus::from_table_files(&files);
    let mut hasher = blake3::Hasher::new();
    hasher.update(b"PAR1aaa");
    hasher.update(b"PAR1bbb");
    assert_eq!(c.corpus_id(), &hasher.finalize().to_hex()[..16]);
    assert!(c.has_table("btc_daily"));
    assert!(c.has_table("moon_phases"));
    assert!(!c.has_table("eth_daily"));
    assert_eq!(c.table_path("moon_phases"), Some("dir/moon_phases.parquet".to_string()));
    assert_eq!(c.table_path("nope"), None);
    let swapped = Corpus::from_table_files(&vec![file("moon_phases", b"PAR1bbb"), file("btc_daily", b"PAR1aaa")]);
    assert_ne!(swapped.corpus_id(), c.corpus_id());
}

#[test]
fn empty_corpus_and_repeated_names() {
    let empty = Corpus::from_table_files(&vec![]);
    assert_eq!(empty.corpus_id(), &blake3::hash(b"").to_hex()[..16]);
    assert!(!empty.has_table("x"));
    let mut second = file("t", b"2");
    second.path = "other/t.parquet".to_string();
    let c = Corpus::from_table_files(&vec![file("t", b"1"), second]);
    assert_eq!(c.table_path("t"), Some("other/t.parquet".to_string()));
}

#[test]
fn cloned_corpus_keeps_id_and_tables() {
    let c = Corpus::from_table_files(&vec![file("btc_daily", b"PAR1aaa")]);
    let d = c.clone();
    assert_eq!(d.corpus_id(), c.corpus_id());
    assert_eq!(d.table_path("btc_daily"), Some("dir/btc_daily.parquet".to_string()));
    assert_eq!(d.table_names(), vec!["btc_daily".to_string()]);
}

#[test]
fn files_are_read_in_file_name_order() {
    let sorted = sort_table_files(vec![file("moon_phases", b"m"), file("a", b"x"), file("a-b", b"y")]);
    let names: Vec<&str> = sorted.iter().map(|f| f.name.as_str()).collect();
    // "a-b.parquet" sorts before "a.parquet": '-' comes before '.'
    assert_eq!(names, vec!["a-b", "a", "moon_phases"]);
}

#[test]
fn corpus_id_does_not_depend_on_listing_order() {
    let one = Corpus::from_table_files(&sort_table_files(vec![file("btc_daily", b"PAR1aaa"), file("moon_phases", b"PAR1bbb")]));
    let two = Corpus::from_table_files(&sort_table_files(vec![file("moon_phases", b"PAR1bbb"), file("btc_daily", b"PAR1aaa")]));
    assert_eq!(one.corpus_id(), two.corpus_id());
}
