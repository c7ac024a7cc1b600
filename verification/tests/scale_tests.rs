use maple_core::scale::Scale;

#[test]
fn scale_threshold() {
    assert_eq!(Scale::classify(500_001), Scale::Large);
    assert_eq!(Scale::classify(499_999), Scale::Affordable(499_999));
    assert_eq!(Scale::classify(500_000), Scale::Affordable(500_000));
    assert_eq!(Scale::classify(0), Scale::Affordable(0));
}
