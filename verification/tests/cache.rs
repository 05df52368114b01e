use weathervane::cache::{
    document_cache_lookup, document_cache_store, document_ttl, new_did_document_cache,
    new_resolve_handle_cache, new_worker_cache, resolve_cache_lookup, resolve_cache_store,
    resolve_ttl, verify_ttl, DidDocumentResult, ResolveHandleResult, TtlCache, VerifyResult,
};
use weathervane::identity::IdentityType;
use weathervane::worker::{verify_cache_lookup, verify_cache_store};

#[test]
fn ttls_follow_the_outcome() {
    assert_eq!(verify_ttl(&VerifyResult::Found), 600);
    assert_eq!(verify_ttl(&VerifyResult::NotFound), 3600);
    assert_eq!(resolve_ttl(&ResolveHandleResult::Found("d".to_string())), 300);
    assert_eq!(resolve_ttl(&ResolveHandleResult::NotFound("e".to_string())), 7200);
    assert_eq!(document_ttl(&DidDocumentResult::Found("d".to_string(), vec![])), 300);
    assert_eq!(document_ttl(&DidDocumentResult::NotFound("e".to_string())), 7200);
}

#[test]
fn not_found_outlives_found_in_the_resolve_cache() {
    let mut cache = new_resolve_handle_cache();
    let found = ResolveHandleResult::Found("did:plc:aaa".to_string());
    let not_found = ResolveHandleResult::NotFound("no luck".to_string());
    let t = 1000u64;
    cache.insert("pos".to_string(), found.duplicate(), t, resolve_ttl(&found));
    cache.insert("neg".to_string(), not_found.duplicate(), t, resolve_ttl(&not_found));

    // Both live right after insertion.
    assert!(cache.get("pos", t).is_some());
    assert!(cache.get("neg", t).is_some());
    // Just before the positive deadline both still live.
    assert!(cache.get("pos", t + 299).is_some());
    assert!(cache.get("neg", t + 299).is_some());
    // At the positive deadline only the negative entry survives, and it
    // stays retrievable strictly longer.
    assert!(cache.get("pos", t + 300).is_none());
    assert!(cache.get("neg", t + 300).is_some());
    assert!(cache.get("neg", t + 7199).is_some());
    assert!(cache.get("neg", t + 7200).is_none());
}

#[test]
fn not_found_outlives_found_in_the_verify_cache() {
    let mut cache = new_worker_cache();
    let t = 50u64;
    cache.insert("pos".to_string(), VerifyResult::Found, t, verify_ttl(&VerifyResult::Found));
    cache.insert(
        "neg".to_string(),
        VerifyResult::NotFound,
        t,
        verify_ttl(&VerifyResult::NotFound),
    );
    assert!(cache.get("pos", t + 599).is_some());
    assert!(cache.get("pos", t + 600).is_none());
    assert!(cache.get("neg", t + 600).is_some());
    assert!(cache.get("neg", t + 3599).is_some());
    assert!(cache.get("neg", t + 3600).is_none());
}

#[test]
fn not_found_outlives_found_in_the_document_cache() {
    let mut cache = new_did_document_cache();
    let found = DidDocumentResult::Found("did:plc:aaa".to_string(), vec!["x".to_string()]);
    let not_found = DidDocumentResult::NotFound("gone".to_string());
    cache.insert("pos".to_string(), found.duplicate(), 0, document_ttl(&found));
    cache.insert("neg".to_string(), not_found.duplicate(), 0, document_ttl(&not_found));
    assert!(cache.get("pos", 300).is_none());
    assert!(cache.get("neg", 300).is_some());
}

#[test]
fn get_returns_the_stored_value() {
    let mut cache = new_resolve_handle_cache();
    let v = ResolveHandleResult::Found("did:plc:aaa".to_string());
    cache.insert("k".to_string(), v, 10, 300);
    match cache.get("k", 10) {
        Some(ResolveHandleResult::Found(d)) => assert_eq!(d, "did:plc:aaa"),
        _ => panic!("expected the stored outcome"),
    }
    assert!(cache.get("other", 10).is_none());
}

#[test]
fn insert_overwrites_the_same_key() {
    let mut cache: TtlCache<VerifyResult> = TtlCache::new(4);
    cache.insert("k".to_string(), VerifyResult::Found, 0, 600);
    cache.insert("k".to_string(), VerifyResult::NotFound, 0, 3600);
    assert_eq!(cache.len(), 1);
    match cache.get("k", 0) {
        Some(VerifyResult::NotFound) => {},
        _ => panic!("expected the overwritten outcome"),
    }
    // The old entry's shorter deadline is gone with it.
    assert!(cache.get("k", 1000).is_some());
}

#[test]
fn full_cache_evicts_the_oldest_entry() {
    let mut cache: TtlCache<VerifyResult> = TtlCache::new(2);
    cache.insert("a".to_string(), VerifyResult::Found, 0, 600);
    cache.insert("b".to_string(), VerifyResult::Found, 0, 600);
    cache.insert("c".to_string(), VerifyResult::Found, 0, 600);
    assert_eq!(cache.len(), 2);
    assert!(cache.get("a", 0).is_none());
    assert!(cache.get("b", 0).is_some());
    assert!(cache.get("c", 0).is_some());
}

#[test]
fn expired_entries_are_not_served() {
    let mut cache: TtlCache<VerifyResult> = TtlCache::new(2);
    cache.insert("a".to_string(), VerifyResult::Found, 100, 10);
    assert!(cache.get("a", 109).is_some());
    assert!(cache.get("a", 110).is_none());
    // Time before the insertion instant is before the deadline too: entries
    // are judged by deadline alone.
    assert!(cache.get("a", 0).is_some());
}

#[test]
fn resolution_outcomes_round_trip_through_their_cache() {
    let mut cache = new_resolve_handle_cache();
    assert!(resolve_cache_lookup(&cache, "alice.example", 0).is_none());
    resolve_cache_store(
        &mut cache,
        "alice.example",
        ResolveHandleResult::Found("did:plc:aaa".to_string()),
        0,
    );
    resolve_cache_store(
        &mut cache,
        "bob.example",
        ResolveHandleResult::NotFound("Failed to resolve handle bob.example".to_string()),
        0,
    );
    assert_eq!(
        resolve_cache_lookup(&cache, "alice.example", 100).unwrap().unwrap(),
        "did:plc:aaa"
    );
    assert_eq!(
        resolve_cache_lookup(&cache, "bob.example", 100).unwrap().unwrap_err().0,
        "Failed to resolve handle bob.example"
    );
    // The positive entry expires at five minutes; the negative one outlives
    // it.
    assert!(resolve_cache_lookup(&cache, "alice.example", 300).is_none());
    assert!(resolve_cache_lookup(&cache, "bob.example", 300).is_some());
}

#[test]
fn document_outcomes_round_trip_through_their_cache() {
    let mut cache = new_did_document_cache();
    assert!(document_cache_lookup(&cache, "did:plc:aaa", 0).is_none());
    document_cache_store(
        &mut cache,
        "did:plc:aaa",
        DidDocumentResult::Found("did:plc:aaa".to_string(), vec!["at://a.example".to_string()]),
        0,
    );
    let (id, aka) = document_cache_lookup(&cache, "did:plc:aaa", 10).unwrap().unwrap();
    assert_eq!(id, "did:plc:aaa");
    assert_eq!(aka, vec!["at://a.example".to_string()]);
    document_cache_store(
        &mut cache,
        "did:plc:bbb",
        DidDocumentResult::NotFound("gone".to_string()),
        0,
    );
    assert_eq!(
        document_cache_lookup(&cache, "did:plc:bbb", 10).unwrap().unwrap_err().0,
        "gone"
    );
}

#[test]
fn claim_verdicts_round_trip_through_the_worker_cache() {
    let mut cache = new_worker_cache();
    let claim = IdentityType::GitHub("alice".to_string());
    assert!(verify_cache_lookup(&cache, "did:plc:aaa", &claim, 0).is_none());
    verify_cache_store(&mut cache, "did:plc:aaa", &claim, VerifyResult::Found, 0);
    assert_eq!(
        verify_cache_lookup(&cache, "did:plc:aaa", &claim, 599),
        Some(VerifyResult::Found)
    );
    assert!(verify_cache_lookup(&cache, "did:plc:aaa", &claim, 600).is_none());
    // Another subject with the same claim misses: the key pairs subject and
    // claim.
    assert!(verify_cache_lookup(&cache, "did:plc:bbb", &claim, 0).is_none());
}

#[test]
fn deadlines_saturate_at_the_clock_maximum() {
    let mut cache: TtlCache<VerifyResult> = TtlCache::new(2);
    cache.insert("a".to_string(), VerifyResult::Found, u64::MAX - 5, 600);
    assert!(cache.get("a", u64::MAX - 1).is_some());
}
