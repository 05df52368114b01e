use weathervane::resolve::{
    dns_records_to_did, handle_consensus, handle_lookup_plan, parse_input, resolve_handle_target,
    start_resolve_subject, wellknown_body_to_did, HandleLookups, InputType, SubjectResolution,
};

const A: &str = "did:plc:aaa";
const B: &str = "did:plc:bbb";

fn lookups(dns: Option<&str>, http: Option<&str>, web: Option<&str>) -> HandleLookups {
    HandleLookups {
        dns_records: dns.map(|d| vec![format!("did={}", d)]),
        http_body: http.map(|d| format!("{}\n", d)),
        web_id: web.map(|d| d.to_string()),
    }
}

#[test]
fn consensus_of_three_agreeing_sources() {
    let r = handle_consensus("alice.example", &lookups(Some(A), Some(A), Some(A)));
    assert_eq!(r.unwrap(), A);
}

#[test]
fn consensus_rejects_disagreeing_sources() {
    let r = handle_consensus("alice.example", &lookups(Some(A), Some(B), Some(A)));
    assert_eq!(
        r.unwrap_err().0,
        "Resolving handle returns values that do not match: alice.example"
    );
}

#[test]
fn single_successful_source_suffices() {
    let r = handle_consensus("alice.example", &lookups(Some(A), None, None));
    assert_eq!(r.unwrap(), A);
    let r = handle_consensus("alice.example", &lookups(None, Some(A), None));
    assert_eq!(r.unwrap(), A);
    let r = handle_consensus("alice.example", &lookups(None, None, Some(A)));
    assert_eq!(r.unwrap(), A);
}

#[test]
fn no_successful_source_is_an_error() {
    let r = handle_consensus("alice.example", &lookups(None, None, None));
    assert_eq!(r.unwrap_err().0, "Failed to resolve handle alice.example");
}

#[test]
fn unusable_lookup_bodies_count_as_failures() {
    // The http body does not start with `did:` and the DNS records carry no
    // `did=` value, so only the web document counts.
    let l = HandleLookups {
        dns_records: Some(vec!["v=spf1 -all".to_string()]),
        http_body: Some("<html>not a did</html>".to_string()),
        web_id: Some(A.to_string()),
    };
    assert_eq!(handle_consensus("alice.example", &l).unwrap(), A);
}

#[test]
fn two_agreeing_one_failed() {
    let r = handle_consensus("alice.example", &lookups(Some(A), None, Some(A)));
    assert_eq!(r.unwrap(), A);
    let r = handle_consensus("alice.example", &lookups(None, Some(A), Some(B)));
    assert_eq!(
        r.unwrap_err().0,
        "Resolving handle returns values that do not match: alice.example"
    );
}

#[test]
fn dns_records_require_exactly_one_distinct_did() {
    let recs = vec!["did=did:plc:aaa".to_string(), "other".to_string()];
    assert_eq!(dns_records_to_did(&recs, "_atproto.x").unwrap(), A);

    // Repeated identical values still name one DID.
    let recs = vec!["did=did:plc:aaa".to_string(), "did=did:plc:aaa".to_string()];
    assert_eq!(dns_records_to_did(&recs, "_atproto.x").unwrap(), A);

    let recs = vec!["did=did:plc:aaa".to_string(), "did=did:plc:bbb".to_string()];
    assert_eq!(
        dns_records_to_did(&recs, "_atproto.x").unwrap_err().0,
        "Multiple records found: _atproto.x"
    );

    let recs = vec!["unrelated".to_string()];
    assert_eq!(
        dns_records_to_did(&recs, "_atproto.x").unwrap_err().0,
        "No records found: _atproto.x"
    );
}

#[test]
fn wellknown_body_is_trimmed_and_must_name_a_did() {
    assert_eq!(
        wellknown_body_to_did("did:plc:aaa\n  ", "https://x/.well-known/atproto-did").unwrap(),
        A
    );
    assert_eq!(
        wellknown_body_to_did("nope", "https://x/.well-known/atproto-did").unwrap_err().0,
        "Invalid response from https://x/.well-known/atproto-did"
    );
    // The check runs on the raw body: leading whitespace before `did:` fails.
    assert!(wellknown_body_to_did(" did:plc:aaa", "u").is_err());
}

#[test]
fn lookup_plan_names_the_three_targets() {
    let plan = handle_lookup_plan("alice.example");
    assert_eq!(plan.dns_name, "_atproto.alice.example");
    assert_eq!(plan.http_url, "https://alice.example/.well-known/atproto-did");
    assert_eq!(plan.web_url, "https://alice.example/.well-known/did.json");
}

#[test]
fn handle_target_strips_and_trims() {
    assert_eq!(resolve_handle_target(" at://alice.example "), "alice.example");
    assert_eq!(resolve_handle_target("@alice.example"), "alice.example");
    assert_eq!(resolve_handle_target("alice.example"), "alice.example");
}

#[test]
fn parse_input_trims_strips_and_dispatches() {
    match parse_input(" @alice.example ").unwrap() {
        InputType::Handle(h) => assert_eq!(h, "alice.example"),
        _ => panic!("expected a handle"),
    }
    match parse_input("did:plc:aaa").unwrap() {
        InputType::Plc(d) => assert_eq!(d, "did:plc:aaa"),
        _ => panic!("expected a plc DID"),
    }
    match parse_input("at://did:web:example.com").unwrap() {
        InputType::Web(d) => assert_eq!(d, "did:web:example.com"),
        _ => panic!("expected a web DID"),
    }
    assert_eq!(parse_input("   ").unwrap_err().0, "Invalid handle or DID");
    assert_eq!(parse_input("@").unwrap_err().0, "Invalid handle or DID");
}

#[test]
fn subject_resolution_passes_dids_through() {
    match start_resolve_subject("did:plc:aaa").unwrap() {
        SubjectResolution::Resolved(d) => assert_eq!(d, "did:plc:aaa"),
        _ => panic!("expected a resolved DID"),
    }
    match start_resolve_subject("alice.example").unwrap() {
        SubjectResolution::NeedsHandleLookup(h) => assert_eq!(h, "alice.example"),
        _ => panic!("expected a handle lookup"),
    }
}
