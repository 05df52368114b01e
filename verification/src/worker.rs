use vstd::prelude::*;

use crate::cache::{
    deadline_of, insert_model, live_at, lookup_model, verify_ttl, verify_ttl_spec, TtlCache,
    VerifyResult,
};
use crate::identity::{identity_eq_spec, IdentityType};
use crate::keys::{hash_key, hash_key_spec};
use crate::text::eq_str;

verus! {

// ---------------------------------------------------------------------------
// Batch queue items
// ---------------------------------------------------------------------------

/// A message emitted on a batch's output channel: one verdict per claim,
/// then the terminating sentinel.
#[derive(Debug)]
pub enum VerifyWork {
    Passed(IdentityType),
    Failed(IdentityType, String),
    Done,
}

/// Messages are the same when variant, claim and message agree.
pub open spec fn verify_work_eq_spec(a: &VerifyWork, b: &VerifyWork) -> bool {
    match (a, b) {
        (VerifyWork::Passed(x), VerifyWork::Passed(y)) => identity_eq_spec(x, y),
        (VerifyWork::Failed(x, mx), VerifyWork::Failed(y, my)) => identity_eq_spec(x, y) && mx@
            == my@,
        (VerifyWork::Done, VerifyWork::Done) => true,
        _ => false,
    }
}

impl PartialEq for VerifyWork {
    fn eq(&self, other: &Self) -> (r: bool) {
        match (self, other) {
            (VerifyWork::Passed(x), VerifyWork::Passed(y)) => x.eq(y),
            (VerifyWork::Failed(x, mx), VerifyWork::Failed(y, my)) => x.eq(y) && eq_str(
                mx.as_str(),
                my.as_str(),
            ),
            (VerifyWork::Done, VerifyWork::Done) => true,
            _ => false,
        }
    }
}

impl vstd::std_specs::cmp::PartialEqSpecImpl for VerifyWork {
    open spec fn obeys_eq_spec() -> bool {
        true
    }

    open spec fn eq_spec(&self, other: &Self) -> bool {
        verify_work_eq_spec(self, other)
    }
}

/// How many claims of a submitted batch are kept.
pub open spec fn claim_cap(n: int) -> int {
    if n <= 10 {
        n
    } else {
        10
    }
}

/// One verification batch: the subject DID and its ordered claims, capped
/// at 10; claims beyond the cap are silently dropped.
pub struct QueueWork {
    pub did: String,
    pub identities: Vec<IdentityType>,
}

impl QueueWork {
    /// Builds a batch, keeping only the first 10 claims.
    pub fn new(did: String, identities: Vec<IdentityType>) -> (r: QueueWork)
        ensures
            r.did == did,
            r.identities@ == identities@.take(claim_cap(identities@.len() as int)),
    {
        let ghost full = identities@;
        let mut kept = identities;
        if kept.len() > 10 {
            kept.truncate(10);
            proof {
                assert(kept@ =~= full.take(10));
            }
        } else {
            proof {
                assert(kept@ =~= full.take(full.len() as int));
            }
        }
        QueueWork { did, identities: kept }
    }

    /// Removes and returns the claim to verify next: the last-added one.
    pub fn pop_claim(&mut self) -> (r: Option<IdentityType>)
        ensures
            match r {
                Some(c) => {
                    &&& old(self).identities@.len() > 0
                    &&& c == old(self).identities@.last()
                    &&& final(self).identities@ == old(self).identities@.drop_last()
                    &&& final(self).did == old(self).did
                },
                None => {
                    &&& old(self).identities@.len() == 0
                    &&& final(self).identities@ == old(self).identities@
                    &&& final(self).did == old(self).did
                },
            },
    {
        self.identities.pop()
    }
}

// ---------------------------------------------------------------------------
// Stack-order processing
// ---------------------------------------------------------------------------

/// The order claims leave a batch: repeatedly the last remaining one.
pub open spec fn drain_order(claims: Seq<IdentityType>) -> Seq<IdentityType>
    decreases claims.len(),
{
    if claims.len() == 0 {
        Seq::empty()
    } else {
        seq![claims.last()] + drain_order(claims.drop_last())
    }
}

/// Claims leave a batch exactly in reverse submission order.
pub proof fn lemma_drain_is_reverse(claims: Seq<IdentityType>)
    ensures
        drain_order(claims) == claims.reverse(),
    decreases claims.len(),
{
    if claims.len() > 0 {
        lemma_drain_is_reverse(claims.drop_last());
        assert(drain_order(claims) =~= claims.reverse());
    }
}

/// Drains a batch, returning its claims in processing order: the reverse of
/// submission order.
pub fn drain_claims(work: &mut QueueWork) -> (r: Vec<IdentityType>)
    ensures
        r@ == drain_order(old(work).identities@),
        r@ == old(work).identities@.reverse(),
        final(work).identities@.len() == 0,
        final(work).did == old(work).did,
{
    let ghost orig = work.identities@;
    let mut out: Vec<IdentityType> = Vec::new();
    proof {
        assert(out@ + drain_order(work.identities@) =~= drain_order(orig));
    }
    loop
        invariant
            work.did == old(work).did,
            out@ + drain_order(work.identities@) == drain_order(orig),
        ensures
            work.identities@.len() == 0,
            out@ + drain_order(work.identities@) == drain_order(orig),
            work.did == old(work).did,
        decreases work.identities@.len(),
    {
        let ghost rem0 = work.identities@;
        let ghost pre = out@;
        match work.pop_claim() {
            Some(claim) => {
                proof {
                    assert(drain_order(rem0) == seq![rem0.last()] + drain_order(rem0.drop_last()));
                    assert(pre.push(claim) + drain_order(work.identities@) =~= pre + drain_order(
                        rem0,
                    ));
                }
                out.push(claim);
                proof {
                    assert(out@ + drain_order(work.identities@) == drain_order(orig));
                }
            },
            None => {
                break ;
            },
        }
    }
    proof {
        assert(drain_order(work.identities@) =~= Seq::<IdentityType>::empty());
        assert(out@ =~= drain_order(orig));
        lemma_drain_is_reverse(orig);
    }
    out
}

// ---------------------------------------------------------------------------
// Emission
// ---------------------------------------------------------------------------

/// The message emitted for one verified claim: success carries the claim,
/// failure carries it with the fixed failure text.
pub fn make_message(claim: IdentityType, result: &VerifyResult) -> (r: VerifyWork)
    ensures
        match result {
            VerifyResult::Found => r == VerifyWork::Passed(claim),
            VerifyResult::NotFound => r matches VerifyWork::Failed(c, m) && c == claim && m@
                == "DID not found"@,
        },
{
    match result {
        VerifyResult::Found => VerifyWork::Passed(claim),
        VerifyResult::NotFound => VerifyWork::Failed(claim, "DID not found".to_owned()),
    }
}

/// The composite key a claim's verification is cached under: the hashed
/// subject and hashed claim value, joined by a dash.
pub open spec fn verify_cache_key_spec(did: Seq<char>, value: Seq<char>) -> Seq<char> {
    hash_key_spec(did) + "-"@ + hash_key_spec(value)
}

/// Computes the composite cache key for one claim of one subject.
pub fn verify_cache_key(did: &str, claim: &IdentityType) -> (r: String)
    ensures
        r@ == verify_cache_key_spec(did@, claim.value_spec()),
{
    let mut key = hash_key(did);
    key.append("-");
    let value_key = hash_key(claim.value());
    key.append(value_key.as_str());
    key
}

/// Consults the worker's verification cache for one claim of one subject: a
/// live hit replays the cached verdict.
pub fn verify_cache_lookup(
    cache: &TtlCache<VerifyResult>,
    did: &str,
    claim: &IdentityType,
    now: u64,
) -> (r: Option<VerifyResult>)
    requires
        cache.wf(),
    ensures
        match lookup_model(cache.model(), verify_cache_key_spec(did@, claim.value_spec())) {
            Some((v, dl)) => {
                if live_at(dl, now) {
                    r == Some(v)
                } else {
                    r is None
                }
            },
            None => r is None,
        },
{
    let key = verify_cache_key(did, claim);
    match cache.get(key.as_str(), now) {
        Some(v) => Some(*v),
        None => None,
    }
}

/// Stores one claim's verdict under its composite key, with the verdict's
/// own lifetime.
pub fn verify_cache_store(
    cache: &mut TtlCache<VerifyResult>,
    did: &str,
    claim: &IdentityType,
    outcome: VerifyResult,
    now: u64,
)
    requires
        old(cache).wf(),
    ensures
        final(cache).wf(),
        final(cache).capacity_spec() == old(cache).capacity_spec(),
        final(cache).model() == insert_model(
            old(cache).model(),
            old(cache).capacity_spec(),
            verify_cache_key_spec(did@, claim.value_spec()),
            outcome,
            deadline_of(now, verify_ttl_spec(outcome)),
        ),
{
    let ttl = verify_ttl(&outcome);
    let key = verify_cache_key(did, claim);
    cache.insert(key, outcome, now, ttl);
}

} // verus!
