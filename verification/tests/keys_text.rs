use weathervane::keys::{hash_key, u64_to_decimal};
use weathervane::text::{
    contains_char, ends_with_str, eq_str, find_char, replace_char_str, split_nonempty,
    starts_with_str, strip_prefix_str, trim_str,
};
use weathervane::{FormHints, WeatherVaneError};

#[test]
fn decimal_rendering_matches_std() {
    for n in [0u64, 1, 9, 10, 99, 100, 4060, 65535, 1_000_000_007, u64::MAX] {
        assert_eq!(u64_to_decimal(n), n.to_string());
    }
}

#[test]
fn hash_keys_are_decimal_cityhashes() {
    let h: u64 = cityhasher::hash("alice.example");
    assert_eq!(hash_key("alice.example"), h.to_string());
    // Different strings hash apart (for these values).
    assert_ne!(hash_key("alice.example"), hash_key("bob.example"));
}

#[test]
fn string_helpers_match_std_semantics() {
    assert!(starts_with_str("did:plc:abc", "did:plc:"));
    assert!(!starts_with_str("did:plc", "did:plc:"));
    assert!(ends_with_str("foo.local", ".local"));
    assert!(!ends_with_str("local", ".local"));
    assert!(eq_str("same", "same"));
    assert!(!eq_str("same", "sama"));
    assert!(contains_char("a.b", '.'));
    assert!(!contains_char("ab", '.'));
    assert_eq!(find_char("a/b/c", '/'), Some(1));
    assert_eq!(find_char("abc", '/'), None);
    assert_eq!(strip_prefix_str("at://x", "at://"), Some("x"));
    assert_eq!(strip_prefix_str("x", "at://"), None);
    assert_eq!(trim_str("  x y\t\n"), "x y");
    assert_eq!(trim_str("\u{a0}x\u{3000}"), "x");
    assert_eq!(replace_char_str("a:b:c", ':', "/"), "a/b/c");
    assert_eq!(split_nonempty(";a;;b;", ';'), vec!["a".to_string(), "b".to_string()]);
    assert_eq!(split_nonempty("", ';'), Vec::<String>::new());
}

#[test]
fn errors_expose_their_message() {
    let e = WeatherVaneError::new("something failed");
    assert_eq!(e.message(), "something failed");
    assert_eq!(e.0, "something failed");
}

#[test]
fn form_hints_carry_an_optional_query() {
    let hints = FormHints { query: Some("did:plc:abc".to_string()) };
    assert_eq!(hints.query.as_deref(), Some("did:plc:abc"));
    let hints = FormHints { query: None };
    assert!(hints.query.is_none());
}
