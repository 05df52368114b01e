use weathervane::did::{is_valid_handle, is_valid_hostname};

#[test]
fn accepts_ordinary_multi_label_hosts() {
    assert!(is_valid_hostname("example.com"));
    assert!(is_valid_hostname("a-b.example.co.uk"));
    assert!(is_valid_hostname("xn--bcher-kva.example"));
    assert!(is_valid_hostname("single"));
    assert!(is_valid_hostname("UPPER.CaSe.Org"));
    assert!(is_valid_hostname("123.456.789"));
}

#[test]
fn rejects_reserved_suffixes() {
    assert!(!is_valid_hostname("foo.localhost"));
    assert!(!is_valid_hostname("foo.internal"));
    assert!(!is_valid_hostname("foo.arpa"));
    assert!(!is_valid_hostname("foo.local"));
    // Only the dotted suffix is reserved; the bare word is a plain label.
    assert!(is_valid_hostname("localhost"));
    assert!(is_valid_hostname("internal"));
}

#[test]
fn rejects_bad_characters() {
    assert!(!is_valid_hostname("exam ple.com"));
    assert!(!is_valid_hostname("exa_mple.com"));
    assert!(!is_valid_hostname("exämple.com"));
}

#[test]
fn rejects_empty_labels() {
    assert!(!is_valid_hostname(""));
    assert!(!is_valid_hostname("."));
    assert!(!is_valid_hostname(".example.com"));
    assert!(!is_valid_hostname("example.com."));
    assert!(!is_valid_hostname("exa..mple.com"));
}

#[test]
fn rejects_hyphen_label_edges() {
    assert!(!is_valid_hostname("-example.com"));
    assert!(!is_valid_hostname("example.com-"));
    assert!(!is_valid_hostname("foo.-bar.com"));
    assert!(!is_valid_hostname("foo-.bar.com"));
    assert!(is_valid_hostname("fo-o.ba-r.com"));
}

#[test]
fn rejects_overlong_labels_and_hosts() {
    let label63 = "a".repeat(63);
    let label64 = "a".repeat(64);
    assert!(is_valid_hostname(&format!("{}.com", label63)));
    assert!(!is_valid_hostname(&format!("{}.com", label64)));

    // 4 * 63 + 3 dots = 255 > 253; trimming two characters passes.
    let long = format!("{}.{}.{}.{}", label63, label63, label63, label63);
    assert_eq!(long.len(), 255);
    assert!(!is_valid_hostname(&long));
    let just_fits = format!("{}.{}.{}.{}", label63, label63, label63, "a".repeat(61));
    assert_eq!(just_fits.len(), 253);
    assert!(is_valid_hostname(&just_fits));
}

#[test]
fn handle_strips_prefix_and_requires_dot() {
    assert_eq!(is_valid_handle("at://alice.example"), Some("alice.example".to_string()));
    assert_eq!(is_valid_handle("@alice.example"), Some("alice.example".to_string()));
    assert_eq!(is_valid_handle("alice.example"), Some("alice.example".to_string()));
    // A valid hostname without a dot is no handle.
    assert_eq!(is_valid_handle("alice"), None);
    assert_eq!(is_valid_handle("@alice"), None);
    // Invalid hostnames are rejected after stripping.
    assert_eq!(is_valid_handle("at://alice..example"), None);
    assert_eq!(is_valid_handle("@foo.local"), None);
}
