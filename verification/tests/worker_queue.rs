use weathervane::cache::VerifyResult;
use weathervane::identity::IdentityType;
use weathervane::worker::{
    drain_claims, make_message, verify_cache_key, QueueWork, VerifyWork,
};

fn claims(n: usize) -> Vec<IdentityType> {
    (0..n).map(|i| IdentityType::Handle(format!("at://user{}.example", i))).collect()
}

#[test]
fn batches_cap_at_ten_claims() {
    let work = QueueWork::new("did:plc:aaa".to_string(), claims(15));
    assert_eq!(work.identities.len(), 10);
    // The first ten submitted claims are the ones kept.
    assert_eq!(work.identities, claims(10));
}

#[test]
fn submitting_fifteen_claims_processes_exactly_ten() {
    let mut work = QueueWork::new("did:plc:aaa".to_string(), claims(15));
    let mut processed = 0usize;
    while let Some(_claim) = work.pop_claim() {
        processed += 1;
    }
    assert_eq!(processed, 10);
}

#[test]
fn small_batches_keep_all_claims() {
    let work = QueueWork::new("did:plc:aaa".to_string(), claims(3));
    assert_eq!(work.identities.len(), 3);
}

#[test]
fn claims_are_processed_in_stack_order_then_done() {
    let x = IdentityType::Domain("dns:x.example".to_string());
    let y = IdentityType::Domain("dns:y.example".to_string());
    let z = IdentityType::Domain("dns:z.example".to_string());
    let mut work = QueueWork::new(
        "did:plc:aaa".to_string(),
        vec![x.clone(), y.clone(), z.clone()],
    );

    // Emit one verdict per claim as the worker does, then the sentinel.
    let mut emitted: Vec<VerifyWork> = Vec::new();
    while let Some(claim) = work.pop_claim() {
        emitted.push(make_message(claim, &VerifyResult::Found));
    }
    emitted.push(VerifyWork::Done);

    assert_eq!(
        emitted,
        vec![
            VerifyWork::Passed(z),
            VerifyWork::Passed(y),
            VerifyWork::Passed(x),
            VerifyWork::Done,
        ]
    );
}

#[test]
fn drain_returns_reverse_submission_order() {
    let mut work = QueueWork::new("did:plc:aaa".to_string(), claims(4));
    let drained = drain_claims(&mut work);
    let mut expected = claims(4);
    expected.reverse();
    assert_eq!(drained, expected);
    assert_eq!(work.identities.len(), 0);
}

#[test]
fn failed_verdicts_carry_the_fixed_message() {
    let c = IdentityType::Domain("dns:x.example".to_string());
    match make_message(c.clone(), &VerifyResult::NotFound) {
        VerifyWork::Failed(claim, message) => {
            assert_eq!(claim, c);
            assert_eq!(message, "DID not found");
        },
        _ => panic!("expected a failure message"),
    }
}

#[test]
fn verify_cache_keys_join_the_two_hashes() {
    let claim = IdentityType::GitHub("alice".to_string());
    let key = verify_cache_key("did:plc:aaa", &claim);
    let h1: u64 = cityhasher::hash("did:plc:aaa");
    let h2: u64 = cityhasher::hash("alice");
    assert_eq!(key, format!("{}-{}", h1, h2));
}
