use tag_timer::uid::TagId;

#[test]
fn tag_key_is_deterministic() {
    let a = TagId::new("test-tag").unwrap();
    let b = TagId::new("test-tag").unwrap();
    assert_eq!(a.as_ref(), b.as_ref());
}

#[test]
fn tag_key_differs_per_token() {
    let a = TagId::new("test-tag").unwrap();
    let b = TagId::new("other-tag").unwrap();
    assert_ne!(a.as_ref(), b.as_ref());
}

#[test]
fn tag_key_is_lowercase_hex() {
    let id = TagId::new("abc").unwrap();
    let key = id.as_ref();
    assert!(!key.is_empty());
    for c in key.chars() {
        assert!(c.is_ascii_hexdigit() && !c.is_ascii_uppercase());
    }
}
