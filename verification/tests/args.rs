use superstition::args::{parse_agent_args, parse_host_args, parse_verify_args, ArgError, Flag};

fn strings(v: &[&str]) -> Vec<String> {
    v.iter().map(|s| s.to_string()).collect()
}

#[test]
fn agent_args_defaults() {
    let cfg = parse_agent_args(&strings(&["--corpus", "data"])).unwrap();
    assert_eq!(cfg.corpus_dir, "data");
    assert_eq!(cfg.workspace_root, ".");
    assert_eq!(cfg.feed_path, "feed.json");
    assert_eq!(cfg.state_path, "state.json");
    assert_eq!(cfg.iterations, 1);
    assert_eq!(cfg.hypotheses_per_iter, 3);
    assert_eq!(cfg.loop_interval, None);
}

#[test]
fn agent_args_all_flags() {
    let cfg = parse_agent_args(&strings(&[
        "--corpus", "c", "--workspace", "w", "--feed", "f.json", "--state", "s.json", "-n", "4",
        "--hypotheses", "+7", "--loop-interval", "3600", "--unknown",
    ]))
    .unwrap();
    assert_eq!(cfg.corpus_dir, "c");
    assert_eq!(cfg.workspace_root, "w");
    assert_eq!(cfg.feed_path, "f.json");
    assert_eq!(cfg.state_path, "s.json");
    assert_eq!(cfg.iterations, 4);
    assert_eq!(cfg.hypotheses_per_iter, 7);
    assert_eq!(cfg.loop_interval, Some(3600));
}

#[test]
fn agent_args_later_flag_wins() {
    let cfg = parse_agent_args(&strings(&["--iterations", "2", "--corpus", "a", "--iterations", "9", "-h", "1"])).unwrap();
    assert_eq!(cfg.iterations, 9);
    assert_eq!(cfg.hypotheses_per_iter, 1);
    assert_eq!(cfg.corpus_dir, "a");
}

#[test]
fn agent_args_errors() {
    assert_eq!(parse_agent_args(&strings(&[])).err(), Some(ArgError::Usage));
    assert_eq!(parse_agent_args(&strings(&["--feed", "x"])).err(), Some(ArgError::Usage));
    assert_eq!(parse_agent_args(&strings(&["--corpus"])).err(), Some(ArgError::MissingValue(Flag::Corpus)));
    assert_eq!(parse_agent_args(&strings(&["--corpus", "c", "--workspace"])).err(), Some(ArgError::MissingValue(Flag::Workspace)));
    assert_eq!(parse_agent_args(&strings(&["--state"])).err(), Some(ArgError::MissingValue(Flag::State)));
    assert_eq!(parse_agent_args(&strings(&["-n"])).err(), Some(ArgError::MissingValue(Flag::Iterations)));
    assert_eq!(parse_agent_args(&strings(&["--loop-interval"])).err(), Some(ArgError::MissingValue(Flag::LoopInterval)));
    assert_eq!(parse_agent_args(&strings(&["-n", "x"])).err(), Some(ArgError::InvalidNumber(Flag::Iterations)));
    assert_eq!(parse_agent_args(&strings(&["-h", "-1"])).err(), Some(ArgError::InvalidNumber(Flag::Hypotheses)));
    assert_eq!(parse_agent_args(&strings(&["-n", ""])).err(), Some(ArgError::InvalidNumber(Flag::Iterations)));
    assert_eq!(parse_agent_args(&strings(&["-n", "+"])).err(), Some(ArgError::InvalidNumber(Flag::Iterations)));
    assert_eq!(
        parse_agent_args(&strings(&["--loop-interval", "18446744073709551616"])).err(),
        Some(ArgError::InvalidNumber(Flag::LoopInterval))
    );
    let max = parse_agent_args(&strings(&["--corpus", "c", "--loop-interval", "18446744073709551615"])).unwrap();
    assert_eq!(max.loop_interval, Some(u64::MAX));
}

#[test]
fn host_args_collects_detectors() {
    let h = parse_host_args(&strings(&["a.wasm", "--corpus", "dir", "b.wasm"])).unwrap();
    assert_eq!(h.corpus_dir, Some("dir".to_string()));
    assert_eq!(h.wasm_paths, vec!["a.wasm".to_string(), "b.wasm".to_string()]);
    let none = parse_host_args(&strings(&[])).unwrap();
    assert_eq!(none.corpus_dir, None);
    assert!(none.wasm_paths.is_empty());
    assert_eq!(parse_host_args(&strings(&["x.wasm", "--corpus"])).err(), Some(ArgError::MissingValue(Flag::Corpus)));
}

#[test]
fn verify_args_defaults_and_id() {
    let v = parse_verify_args(&strings(&["abc123"])).unwrap();
    assert_eq!(v.id, "abc123");
    assert_eq!(v.feed_path, "feed.json");
    assert_eq!(v.corpus_dir, "corpus/test_fixture");
    let w = parse_verify_args(&strings(&["--feed", "f", "first", "--corpus", "c", "second"])).unwrap();
    assert_eq!(w.id, "second");
    assert_eq!(w.feed_path, "f");
    assert_eq!(w.corpus_dir, "c");
    assert_eq!(parse_verify_args(&strings(&["--feed", "f"])).err(), Some(ArgError::Usage));
    assert_eq!(parse_verify_args(&strings(&["id", "--feed"])).err(), Some(ArgError::MissingValue(Flag::Feed)));
}
