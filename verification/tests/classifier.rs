use weathervane::identity::{parse_identities, parse_identity, IdentityType};

#[test]
fn classifies_did_plc() {
    let id = parse_identity("did:plc:abc123");
    assert_eq!(id, IdentityType::DIDMethodPLC("did:plc:abc123".to_string()));
}

#[test]
fn classifies_did_web_before_website_rule() {
    // Ordering matters: `did:web:` must win even though the value is no URL,
    // and an https URL must not shadow it either way.
    let id = parse_identity("did:web:example.com");
    assert_eq!(id, IdentityType::DIDMethodWeb("did:web:example.com".to_string()));
}

#[test]
fn classifies_at_handle_with_whole_remainder() {
    let id = parse_identity("at://alice.example.com");
    assert_eq!(id, IdentityType::Handle("at://alice.example.com".to_string()));
}

#[test]
fn classifies_dns_with_valid_hostname() {
    let id = parse_identity("dns:example.com");
    assert_eq!(id, IdentityType::Domain("dns:example.com".to_string()));
}

#[test]
fn dns_with_invalid_hostname_is_unsupported() {
    let id = parse_identity("dns:bad..host");
    assert_eq!(id, IdentityType::Unsupported("dns:bad..host".to_string()));
}

#[test]
fn classifies_github_user_with_trailing_path() {
    let id = parse_identity("https://github.com/alice/repo/x");
    assert_eq!(id, IdentityType::GitHub("alice".to_string()));
}

#[test]
fn github_without_following_slash_keeps_whole_remainder() {
    let id = parse_identity("https://github.com/alice");
    assert_eq!(id, IdentityType::GitHub("alice".to_string()));
}

#[test]
fn github_without_user_segment_is_unsupported() {
    // The user is named only by the path segment right after the host; with
    // that segment absent the claim is unsupported, not GitHub or Website.
    let id = parse_identity("https://github.com/");
    assert_eq!(id, IdentityType::Unsupported("https://github.com/".to_string()));
    let id = parse_identity("https://github.com//repo");
    assert_eq!(id, IdentityType::Unsupported("https://github.com//repo".to_string()));
}

#[test]
fn classifies_websites() {
    assert_eq!(
        parse_identity("https://example.com/page"),
        IdentityType::Website("https://example.com/page".to_string())
    );
    assert_eq!(
        parse_identity("http://example.com"),
        IdentityType::Website("http://example.com".to_string())
    );
}

#[test]
fn anything_else_is_unsupported() {
    assert_eq!(
        parse_identity("gopher://example.com"),
        IdentityType::Unsupported("gopher://example.com".to_string())
    );
    assert_eq!(parse_identity(""), IdentityType::Unsupported("".to_string()));
}

#[test]
fn pending_strings_carry_kind_markers() {
    assert_eq!(
        parse_identity("did:plc:abc").pending_string(),
        "did:plc:abc [DID-PLC]"
    );
    assert_eq!(
        parse_identity("did:web:ex.com").pending_string(),
        "did:web:ex.com [DID-WEB]"
    );
    assert_eq!(
        parse_identity("at://a.example").pending_string(),
        "at://a.example [Handle]"
    );
    assert_eq!(
        parse_identity("dns:example.com").pending_string(),
        "dns:example.com [DNS]"
    );
    assert_eq!(
        parse_identity("https://github.com/alice").pending_string(),
        "alice [GitHub]"
    );
    assert_eq!(
        parse_identity("https://example.com/x").pending_string(),
        "https://example.com/x [WWW]"
    );
    assert_eq!(parse_identity("nonsense").pending_string(), "nonsense [Unknown]");
}

#[test]
fn to_key_is_decimal_cityhash_of_inner_value() {
    // The key hashes the inner value, not the raw string: a GitHub claim is
    // keyed by the user name.
    let id = parse_identity("https://github.com/alice");
    let expected: u64 = cityhasher::hash("alice");
    assert_eq!(id.to_key(), expected.to_string());

    let id = parse_identity("dns:example.com");
    let expected: u64 = cityhasher::hash("dns:example.com");
    assert_eq!(id.to_key(), expected.to_string());
}

#[test]
fn keys_collide_across_variants_with_same_inner_value() {
    let a = parse_identity("did:plc:abc");
    let b = IdentityType::Handle("did:plc:abc".to_string());
    assert_eq!(a.to_key(), b.to_key());
    assert_ne!(a, b);
}

#[test]
fn batch_classification_dedups_preserving_first_seen_order() {
    let values = vec![
        "did:plc:abc".to_string(),
        "dns:example.com".to_string(),
        "did:plc:abc".to_string(),
        "https://github.com/alice".to_string(),
        "dns:example.com".to_string(),
    ];
    let ids = parse_identities(&values);
    assert_eq!(
        ids,
        vec![
            IdentityType::DIDMethodPLC("did:plc:abc".to_string()),
            IdentityType::Domain("dns:example.com".to_string()),
            IdentityType::GitHub("alice".to_string()),
        ]
    );
}

#[test]
fn batch_classification_collapses_equal_github_users() {
    // Two different URLs classify to the same claim and collapse.
    let values = vec![
        "https://github.com/alice/a".to_string(),
        "https://github.com/alice/b".to_string(),
    ];
    let ids = parse_identities(&values);
    assert_eq!(ids, vec![IdentityType::GitHub("alice".to_string())]);
}
