use antenna_relay::link::permalink;

#[test]
fn permalink_of_example() {
    let l = permalink("https://example.test/", "abc123").unwrap();
    assert_eq!(l, "https://example.test/notes/abc123");
}

#[test]
fn permalink_is_repeatable() {
    let a = permalink("https://example.test/", "abc123").unwrap();
    let b = permalink("https://example.test/", "abc123").unwrap();
    assert_eq!(a, b);
}

#[test]
fn permalink_replaces_last_segment_of_base() {
    let l = permalink("https://example.test/app", "9a0b1c2d3e").unwrap();
    assert_eq!(l, "https://example.test/notes/9a0b1c2d3e");
}

#[test]
fn permalink_needs_absolute_base() {
    assert!(permalink("not a url", "abc123").is_err());
}
