use bloom::Bloom;

#[test]
fn test_basic_usage() {
    let mut bloom = Bloom::new();

    assert_eq!(bloom.add("key"), Ok(()));
    assert_eq!(bloom.has_key("key"), true);
    assert_eq!(bloom.has_key("def-not-a-key"), false)
}
