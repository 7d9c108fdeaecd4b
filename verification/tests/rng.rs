use superstition::rng::Rng;

#[test]
fn splitmix64_reference_values() {
    let mut r = Rng(0);
    assert_eq!(r.next(), 0xe220a8397b1dcdaf);
    assert_eq!(r.next(), 0x6e789e6aa1b965f4);
    assert_eq!(r.next(), 0x06c45d188009454f);
    assert_eq!(r.0, 0x9e3779b97f4a7c15u64.wrapping_mul(3));
}

#[test]
fn state_wraps_around() {
    let mut r = Rng(u64::MAX);
    r.next();
    assert_eq!(r.0, 0x9e3779b97f4a7c14);
}
