use ait_application::text::{
    bounded_identifier, bounded_identifier_with_hash, bounded_provider_string, bounded_to,
    is_bounded_display_value, is_git_commit, MAX_DISPLAY_VALUE_BYTES, MAX_IDENTIFIER_BYTES,
    MAX_PROVIDER_STRING_CHARS,
};

#[test]
fn bounded_to_keeps_short_text_and_cuts_on_a_boundary() {
    assert_eq!(bounded_to("abc".into(), 3), "abc");
    assert_eq!(bounded_to("abcd".into(), 3), "abc");
    assert_eq!(bounded_to("a界".into(), 3), "a");
    assert_eq!(bounded_to("a界".into(), 4), "a界");
    assert_eq!(bounded_to(String::new(), 0), "");
}

#[test]
fn short_identifiers_are_kept() {
    let id = "x".repeat(MAX_IDENTIFIER_BYTES);
    assert_eq!(bounded_identifier(id.clone()), id);
}

#[test]
fn long_identifiers_keep_a_prefix_and_a_hash_suffix() {
    let id = "y".repeat(MAX_IDENTIFIER_BYTES + 1);
    let bounded = bounded_identifier_with_hash(id, 0x0123_4567_89ab_cdef);
    assert_eq!(bounded, format!("{}#0123456789abcdef", "y".repeat(239)));
    assert_eq!(bounded.len(), MAX_IDENTIFIER_BYTES);

    let long = "界".repeat(100);
    let bounded = bounded_identifier(long.clone());
    assert!(bounded.len() <= MAX_IDENTIFIER_BYTES);
    assert!(bounded.starts_with(&"界".repeat(79)));
    assert_eq!(bounded.len(), 79 * 3 + 17);
    assert_eq!(bounded_identifier(long), bounded);
}

#[test]
fn display_values_must_be_filled_bounded_and_printable() {
    assert!(is_bounded_display_value("cargo test"));
    assert!(!is_bounded_display_value("   "));
    assert!(!is_bounded_display_value(""));
    assert!(!is_bounded_display_value("a\u{7}b"));
    assert!(is_bounded_display_value(&"p".repeat(MAX_DISPLAY_VALUE_BYTES)));
    assert!(!is_bounded_display_value(&"p".repeat(MAX_DISPLAY_VALUE_BYTES + 1)));
}

#[test]
fn git_commits_are_forty_lowercase_hex_digits() {
    assert!(is_git_commit(&"a1".repeat(20)));
    assert!(!is_git_commit(&"A1".repeat(20)));
    assert!(!is_git_commit(&"a".repeat(39)));
    assert!(!is_git_commit(&"g".repeat(40)));
}

#[test]
fn provider_strings_keep_their_first_characters() {
    assert_eq!(bounded_provider_string("short"), "short");
    let long = "é".repeat(MAX_PROVIDER_STRING_CHARS + 5);
    let bounded = bounded_provider_string(&long);
    assert_eq!(bounded.chars().count(), MAX_PROVIDER_STRING_CHARS);
}
