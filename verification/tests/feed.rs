use superstition::feed::{publishable, FeedError, FeedStore, Pattern};

const WASM: &[u8] = b"\x00asm\x01\x00\x00\x00";

fn pattern(wasm: &[u8], corpus: &str, published_at: &str) -> Pattern {
    Pattern::new_at(
        wasm,
        corpus,
        "desc".to_string(),
        "hyp".to_string(),
        "temporal-cyclic".to_string(),
        vec![1, 2, 3],
        6,
        "detail".to_string(),
        0.001f64.to_bits(),
        0.004f64.to_bits(),
        0.25f64.to_bits(),
        published_at.to_string(),
    )
}

#[test]
fn pattern_is_content_addressed() {
    let p = pattern(WASM, "abcdef0123456789", "Tue, 1 Jul 2003 10:52:37 +0000");
    let expected_hash = blake3::hash(WASM).to_hex()[..16].to_string();
    let mut hasher = blake3::Hasher::new();
    hasher.update(WASM);
    hasher.update(b"abcdef0123456789");
    let expected_id = hasher.finalize().to_hex()[..16].to_string();
    assert_eq!(p.wasm_hash, expected_hash);
    assert_eq!(p.id, expected_id);
    assert_ne!(p.id, p.wasm_hash);
    assert_eq!(p.corpus_id, "abcdef0123456789");
    assert_eq!(p.wasm_b64, "AGFzbQEAAAA=");
    assert_eq!(f64::from_bits(p.p_value_bits), 0.001);
    assert_eq!(f64::from_bits(p.q_value_bits), 0.004);
    assert_eq!(f64::from_bits(p.effect_size_bits), 0.25);
    assert_eq!(p.verify_cmd(), format!("superstition-verify {}", p.id));
    // the same detector on the same corpus gets the same address
    let q = pattern(WASM, "abcdef0123456789", "Wed, 2 Jul 2003 10:52:37 +0000");
    assert_eq!(p.id, q.id);
    let other = pattern(WASM, "0000000000000000", "Wed, 2 Jul 2003 10:52:37 +0000");
    assert_ne!(p.id, other.id);
}

#[test]
fn stored_detector_decodes_back() {
    let p = pattern(WASM, "c", "t");
    assert_eq!(p.wasm_bytes(), Ok(WASM.to_vec()));
    let empty = pattern(b"", "c", "t");
    assert_eq!(empty.wasm_b64, "");
    assert_eq!(empty.wasm_bytes(), Ok(vec![]));
    let mut broken = pattern(WASM, "c", "t");
    broken.wasm_b64 = "not base64!".to_string();
    assert_eq!(broken.wasm_bytes(), Err(FeedError::InvalidEncoding));
}

#[test]
fn new_pattern_is_stamped() {
    let p = Pattern::new(WASM, "c", "d".into(), "h".into(), "f".into(), vec![], 1, "x".into(), 0, 0, 0);
    assert!(!p.published_at.is_empty());
    assert_eq!(p.wasm_bytes(), Ok(WASM.to_vec()));
}

#[test]
fn publish_replaces_and_orders_newest_first() {
    let store = FeedStore::open("feed.json");
    assert_eq!(store.path(), "feed.json");
    let a = pattern(b"a", "c", "2024-01-01");
    let b = pattern(b"b", "c", "2024-03-01");
    let c = pattern(b"c", "c", "2024-02-01");
    let feed = store.publish(vec![], a.clone());
    let feed = store.publish(feed, b.clone());
    let feed = store.publish(feed, c.clone());
    let order: Vec<&str> = feed.iter().map(|p| p.published_at.as_str()).collect();
    assert_eq!(order, vec!["2024-03-01", "2024-02-01", "2024-01-01"]);
    // republishing the same detector on the same corpus replaces the entry
    let a2 = pattern(b"a", "c", "2024-04-01");
    let feed = store.publish(feed, a2.clone());
    assert_eq!(feed.len(), 3);
    assert_eq!(feed[0].published_at, "2024-04-01");
    let found = store.get(feed.clone(), &a.id).expect("published pattern");
    assert_eq!(found.published_at, "2024-04-01");
    assert!(store.get(feed, "missing").is_none());
}

#[test]
fn equal_timestamps_keep_publication_order() {
    let store = FeedStore::open("f");
    let x = pattern(b"x", "c", "same");
    let y = pattern(b"y", "c", "same");
    let feed = store.publish(vec![x.clone()], y.clone());
    assert_eq!(feed[0].id, x.id);
    assert_eq!(feed[1].id, y.id);
}

#[test]
fn small_components_are_publishable() {
    assert!(publishable(b"\0asm", "0123456789abcdef"));
    assert!(publishable(b"", ""));
}

#[test]
fn corrupt_stored_detector_is_refused() {
    for bad in ["not base64!", "AAE", "AAF=", "AA=="] {
        let mut p = pattern(b"\0asm\x01\0\0\0", "0123456789abcdef", "2024-01-01");
        p.wasm_b64 = bad.to_string();
        if bad == "AA==" {
            // canonical padding of one zero byte decodes
            assert_eq!(p.wasm_bytes(), Ok(vec![0u8]));
        } else {
            assert_eq!(p.wasm_bytes(), Err(FeedError::InvalidEncoding));
        }
    }
}
