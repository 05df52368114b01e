use vstd::prelude::*;

use crate::errors::WeatherVaneError;
use crate::keys::{hash_key, hash_key_spec};
use crate::text::eq_str;

verus! {

// ---------------------------------------------------------------------------
// Cached outcomes
// ---------------------------------------------------------------------------

/// Outcome of verifying one claim against a subject.
#[derive(Clone, Copy, Debug, PartialEq, Eq, Structural)]
pub enum VerifyResult {
    Found,
    NotFound,
}

/// Outcome of resolving a handle: the DID found, or the failure message.
#[derive(Clone, Debug)]
pub enum ResolveHandleResult {
    Found(String),
    NotFound(String),
}

impl ResolveHandleResult {
    /// A copy of the outcome, equal to the original.
    pub fn duplicate(&self) -> (r: ResolveHandleResult)
        ensures
            r == *self,
    {
        match self {
            ResolveHandleResult::Found(d) => ResolveHandleResult::Found(d.clone()),
            ResolveHandleResult::NotFound(m) => ResolveHandleResult::NotFound(m.clone()),
        }
    }
}

/// Outcome of fetching a DID document: the document's id and alternate
/// identities, or the failure message.
#[derive(Clone, Debug)]
pub enum DidDocumentResult {
    Found(String, Vec<String>),
    NotFound(String),
}

/// The mathematical content of a DID-document outcome: whether it was found,
/// the id or failure message, and the alternate identities.
pub open spec fn document_result_model(r: &DidDocumentResult) -> (bool, Seq<char>, Seq<Seq<char>>) {
    match r {
        DidDocumentResult::Found(d, aka) => (true, d@, aka.deep_view()),
        DidDocumentResult::NotFound(m) => (false, m@, Seq::empty()),
    }
}

impl DidDocumentResult {
    /// A copy of the outcome, equal to the original in content.
    pub fn duplicate(&self) -> (r: DidDocumentResult)
        ensures
            document_result_model(&r) == document_result_model(self),
    {
        match self {
            DidDocumentResult::Found(d, aka) => {
                let mut entries: Vec<String> = Vec::new();
                let mut i: usize = 0;
                while i < aka.len()
                    invariant
                        i <= aka.len(),
                        entries@ =~= aka@.subrange(0, i as int),
                    decreases aka.len() - i,
                {
                    entries.push(aka[i].clone());
                    i += 1;
                }
                proof {
                    assert(aka@.subrange(0, aka@.len() as int) =~= aka@);
                    assert(entries.deep_view() =~= aka.deep_view());
                }
                DidDocumentResult::Found(d.clone(), entries)
            },
            DidDocumentResult::NotFound(m) => DidDocumentResult::NotFound(m.clone()),
        }
    }
}

// ---------------------------------------------------------------------------
// Outcome-dependent expiry policy
// ---------------------------------------------------------------------------

/// Lifetime in seconds of a cached claim verification: positive results
/// expire after 10 minutes, negative ones after 60.
pub open spec fn verify_ttl_spec(v: VerifyResult) -> u64 {
    match v {
        VerifyResult::Found => 600,
        VerifyResult::NotFound => 3600,
    }
}

/// Lifetime in seconds of a cached handle resolution: positive results
/// expire after 5 minutes, negative ones after 120.
pub open spec fn resolve_ttl_spec(v: &ResolveHandleResult) -> u64 {
    match v {
        ResolveHandleResult::Found(_) => 300,
        ResolveHandleResult::NotFound(_) => 7200,
    }
}

/// Lifetime in seconds of a cached DID document: positive results expire
/// after 5 minutes, negative ones after 120.
pub open spec fn document_ttl_spec(v: &DidDocumentResult) -> u64 {
    match v {
        DidDocumentResult::Found(_, _) => 300,
        DidDocumentResult::NotFound(_) => 7200,
    }
}

/// The expiry lifetime for a claim-verification outcome.
pub fn verify_ttl(v: &VerifyResult) -> (r: u64)
    ensures
        r == verify_ttl_spec(*v),
{
    match v {
        VerifyResult::Found => 600,
        VerifyResult::NotFound => 3600,
    }
}

/// The expiry lifetime for a handle-resolution outcome.
pub fn resolve_ttl(v: &ResolveHandleResult) -> (r: u64)
    ensures
        r == resolve_ttl_spec(v),
{
    match v {
        ResolveHandleResult::Found(_) => 300,
        ResolveHandleResult::NotFound(_) => 7200,
    }
}

/// The expiry lifetime for a DID-document outcome.
pub fn document_ttl(v: &DidDocumentResult) -> (r: u64)
    ensures
        r == document_ttl_spec(v),
{
    match v {
        DidDocumentResult::Found(_, _) => 300,
        DidDocumentResult::NotFound(_) => 7200,
    }
}

// ---------------------------------------------------------------------------
// The cache itself
// ---------------------------------------------------------------------------

/// The instant an entry inserted at `now` with lifetime `ttl` stops being
/// served, saturating at the largest representable instant.
pub open spec fn deadline_of(now: u64, ttl: u64) -> u64 {
    if now + ttl > u64::MAX {
        u64::MAX
    } else {
        (now + ttl) as u64
    }
}

/// An entry is live at `q` while `q` is before its deadline.
pub open spec fn live_at(deadline: u64, q: u64) -> bool {
    q < deadline
}

struct CacheEntry<V> {
    key: String,
    value: V,
    deadline: u64,
}

/// A capacity-bounded key-value cache with per-entry expiry instants and an
/// explicit clock. Time is a caller-supplied number of seconds; entries are
/// served only before their deadline. When full, the oldest entry is
/// evicted.
pub struct TtlCache<V> {
    entries: Vec<CacheEntry<V>>,
    capacity: usize,
}

/// The first entry of `m` under `key`, with its deadline.
pub open spec fn lookup_model<V>(m: Seq<(Seq<char>, V, u64)>, key: Seq<char>) -> Option<(V, u64)>
    decreases m.len(),
{
    if m.len() == 0 {
        None
    } else if m[0].0 == key {
        Some((m[0].1, m[0].2))
    } else {
        lookup_model(m.drop_first(), key)
    }
}

/// `m` without its entries under `key`.
pub open spec fn remove_key_model<V>(m: Seq<(Seq<char>, V, u64)>, key: Seq<char>) -> Seq<
    (Seq<char>, V, u64),
>
    decreases m.len(),
{
    if m.len() == 0 {
        Seq::empty()
    } else if m[0].0 == key {
        remove_key_model(m.drop_first(), key)
    } else {
        seq![m[0]] + remove_key_model(m.drop_first(), key)
    }
}

/// What inserting does to the cache's contents: any entry under the same key
/// is dropped, the oldest entry is evicted if the cache is full, and the new
/// entry is appended.
pub open spec fn insert_model<V>(
    m: Seq<(Seq<char>, V, u64)>,
    cap: int,
    key: Seq<char>,
    value: V,
    deadline: u64,
) -> Seq<(Seq<char>, V, u64)> {
    let without = remove_key_model(m, key);
    let roomy = if without.len() >= cap {
        without.drop_first()
    } else {
        without
    };
    roomy.push((key, value, deadline))
}

/// No two entries share a key.
pub open spec fn keys_unique<V>(m: Seq<(Seq<char>, V, u64)>) -> bool {
    forall|i: int, j: int| 0 <= i < j < m.len() ==> m[i].0 != m[j].0
}

impl<V> TtlCache<V> {
    /// The cache's contents: key, value and deadline of each entry, oldest
    /// first.
    pub closed spec fn model(&self) -> Seq<(Seq<char>, V, u64)> {
        self.entries@.map_values(|e: CacheEntry<V>| (e.key@, e.value, e.deadline))
    }

    /// The cache's capacity.
    pub closed spec fn capacity_spec(&self) -> int {
        self.capacity as int
    }

    /// A well-formed cache holds at most `capacity` entries, each key at
    /// most once.
    pub open spec fn wf(&self) -> bool {
        keys_unique(self.model()) && self.model().len() <= self.capacity_spec()
            && self.capacity_spec() >= 1
    }

    /// An empty cache bounded at `capacity` entries.
    pub fn new(capacity: usize) -> (r: TtlCache<V>)
        requires
            capacity >= 1,
        ensures
            r.wf(),
            r.model() == Seq::<(Seq<char>, V, u64)>::empty(),
            r.capacity_spec() == capacity as int,
    {
        let r = TtlCache { entries: Vec::new(), capacity };
        proof {
            assert(r.model() =~= Seq::<(Seq<char>, V, u64)>::empty());
        }
        r
    }

    /// How many entries the cache holds, live or expired.
    pub fn len(&self) -> (n: usize)
        ensures
            n == self.model().len(),
    {
        self.entries.len()
    }

    /// The value under `key`, if present and still live at `now`.
    pub fn get(&self, key: &str, now: u64) -> (r: Option<&V>)
        requires
            self.wf(),
        ensures
            match lookup_model(self.model(), key@) {
                Some((val, dl)) => {
                    if live_at(dl, now) {
                        match r {
                            Some(v) => *v == val,
                            None => false,
                        }
                    } else {
                        r is None
                    }
                },
                None => r is None,
            },
    {
        let ghost m = self.model();
        let mut i: usize = 0;
        while i < self.entries.len()
            invariant
                i <= self.entries.len(),
                m == self.model(),
                m.len() == self.entries@.len(),
                forall|j: int| 0 <= j < i ==> m[j].0 != key@,
            decreases self.entries.len() - i,
        {
            if eq_str(self.entries[i].key.as_str(), key) {
                proof {
                    lemma_lookup_at_index(m, key@, i as int);
                }
                if now < self.entries[i].deadline {
                    return Some(&self.entries[i].value);
                } else {
                    return None;
                }
            }
            i += 1;
        }
        proof {
            lemma_lookup_absent(m, key@);
        }
        None
    }

    /// Stores `value` under `key` at time `now` with lifetime `ttl`.
    pub fn insert(&mut self, key: String, value: V, now: u64, ttl: u64)
        requires
            old(self).wf(),
        ensures
            final(self).wf(),
            final(self).capacity_spec() == old(self).capacity_spec(),
            final(self).model() == insert_model(
                old(self).model(),
                old(self).capacity_spec(),
                key@,
                value,
                deadline_of(now, ttl),
            ),
    {
        let ghost m0 = self.model();
        let ghost cap = self.capacity_spec();
        // Drop an existing entry under the same key.
        let mut i: usize = 0;
        let mut found: Option<usize> = None;
        while i < self.entries.len()
            invariant
                i <= self.entries.len(),
                m0 == self.model(),
                m0.len() == self.entries@.len(),
                match found {
                    Some(k) => k < i && m0[k as int].0 == key@,
                    None => forall|j: int| 0 <= j < i ==> m0[j].0 != key@,
                },
            decreases self.entries.len() - i,
        {
            if found.is_none() && eq_str(self.entries[i].key.as_str(), key.as_str()) {
                found = Some(i);
            }
            i += 1;
        }
        match found {
            Some(k) => {
                self.entries.remove(k);
                proof {
                    lemma_remove_key_at_index(m0, key@, k as int);
                    assert(self.model() =~= m0.remove(k as int));
                }
            },
            None => {
                proof {
                    lemma_remove_key_absent(m0, key@);
                }
            },
        }
        proof {
            assert(self.model() =~= remove_key_model(m0, key@));
            lemma_remove_key_unique(m0, key@);
        }
        let ghost m1 = self.model();
        // Evict the oldest entry if the cache is full.
        if self.entries.len() >= self.capacity {
            self.entries.remove(0);
            proof {
                assert(self.model() =~= m1.drop_first());
            }
        }
        let ghost m2 = self.model();
        let deadline = if now > u64::MAX - ttl {
            u64::MAX
        } else {
            now + ttl
        };
        self.entries.push(CacheEntry { key, value, deadline });
        proof {
            assert(self.model() =~= m2.push(
                (self.entries@.last().key@, self.entries@.last().value, deadline),
            ));
        }
    }
}

proof fn lemma_lookup_at_index<V>(m: Seq<(Seq<char>, V, u64)>, key: Seq<char>, i: int)
    requires
        0 <= i < m.len(),
        m[i].0 == key,
        forall|j: int| 0 <= j < i ==> m[j].0 != key,
    ensures
        lookup_model(m, key) == Some((m[i].1, m[i].2)),
    decreases i,
{
    if i > 0 {
        lemma_lookup_at_index(m.drop_first(), key, i - 1);
    }
}

proof fn lemma_lookup_absent<V>(m: Seq<(Seq<char>, V, u64)>, key: Seq<char>)
    requires
        forall|j: int| 0 <= j < m.len() ==> m[j].0 != key,
    ensures
        lookup_model(m, key) is None,
    decreases m.len(),
{
    if m.len() > 0 {
        lemma_lookup_absent(m.drop_first(), key);
    }
}

proof fn lemma_remove_key_at_index<V>(m: Seq<(Seq<char>, V, u64)>, key: Seq<char>, i: int)
    requires
        0 <= i < m.len(),
        m[i].0 == key,
        forall|j: int| 0 <= j < m.len() && j != i ==> m[j].0 != key,
    ensures
        remove_key_model(m, key) == m.remove(i),
    decreases i,
{
    if i == 0 {
        lemma_remove_key_absent(m.drop_first(), key);
        assert(m.remove(0) =~= m.drop_first());
    } else {
        lemma_remove_key_at_index(m.drop_first(), key, i - 1);
        assert(seq![m[0]] + m.drop_first().remove(i - 1) =~= m.remove(i));
    }
}

proof fn lemma_remove_key_absent<V>(m: Seq<(Seq<char>, V, u64)>, key: Seq<char>)
    requires
        forall|j: int| 0 <= j < m.len() ==> m[j].0 != key,
    ensures
        remove_key_model(m, key) == m,
    decreases m.len(),
{
    if m.len() > 0 {
        lemma_remove_key_absent(m.drop_first(), key);
        assert(seq![m[0]] + m.drop_first() =~= m);
    }
}

/// Removing a key keeps the remaining keys unique and drops every entry
/// under the removed key.
proof fn lemma_remove_key_unique<V>(m: Seq<(Seq<char>, V, u64)>, key: Seq<char>)
    requires
        keys_unique(m),
    ensures
        keys_unique(remove_key_model(m, key)),
        remove_key_model(m, key).len() <= m.len(),
        forall|j: int|
            0 <= j < remove_key_model(m, key).len() ==> #[trigger] remove_key_model(m, key)[j].0
                != key,
        forall|j: int|
            0 <= j < remove_key_model(m, key).len() ==> m.contains(
                #[trigger] remove_key_model(m, key)[j],
            ),
    decreases m.len(),
{
    if m.len() > 0 {
        assert(forall|j: int|
            0 <= j < m.drop_first().len() ==> #[trigger] m.drop_first()[j] == m[j + 1]);
        lemma_remove_key_unique(m.drop_first(), key);
        if m[0].0 == key {
        } else {
            let r = remove_key_model(m, key);
            let rt = remove_key_model(m.drop_first(), key);
            assert(r == seq![m[0]] + rt);
            assert(forall|j: int| 0 <= j < rt.len() ==> m.drop_first().contains(#[trigger] rt[j]));
            assert(forall|j: int| 1 <= j < r.len() ==> r[j] == rt[j - 1]);
            assert(forall|i: int, j: int| 0 <= i < j < r.len() ==> r[i].0 != r[j].0) by {
                assert(forall|j: int| 1 <= j < r.len() ==> m.drop_first().contains(#[trigger] r[j]));
                assert(forall|j: int| 1 <= j < r.len() ==> #[trigger] r[j].0 != m[0].0) by {
                    assert(forall|t: (Seq<char>, V, u64)|
                        m.drop_first().contains(t) ==> exists|x: int|
                            0 <= x < m.drop_first().len() && m.drop_first()[x] == t);
                }
            }
        }
    }
}

// ---------------------------------------------------------------------------
// The three caches
// ---------------------------------------------------------------------------

/// The cache shared by the verification worker, keyed by subject and claim.
pub fn new_worker_cache() -> (r: TtlCache<VerifyResult>)
    ensures
        r.wf(),
        r.model() == Seq::<(Seq<char>, VerifyResult, u64)>::empty(),
        r.capacity_spec() == 20480,
{
    TtlCache::new(20480)
}

/// The cache of handle resolutions, keyed by hashed subject.
pub fn new_resolve_handle_cache() -> (r: TtlCache<ResolveHandleResult>)
    ensures
        r.wf(),
        r.model() == Seq::<(Seq<char>, ResolveHandleResult, u64)>::empty(),
        r.capacity_spec() == 20480,
{
    TtlCache::new(20480)
}

/// The cache of DID documents, keyed by hashed DID.
pub fn new_did_document_cache() -> (r: TtlCache<DidDocumentResult>)
    ensures
        r.wf(),
        r.model() == Seq::<(Seq<char>, DidDocumentResult, u64)>::empty(),
        r.capacity_spec() == 20480,
{
    TtlCache::new(20480)
}

// ---------------------------------------------------------------------------
// Cache consultation for the resolution flows
// ---------------------------------------------------------------------------

/// Consults the handle-resolution cache for a subject: a live hit replays
/// the cached resolution, positive or negative.
pub fn resolve_cache_lookup(
    cache: &TtlCache<ResolveHandleResult>,
    subject: &str,
    now: u64,
) -> (r: Option<Result<String, WeatherVaneError>>)
    requires
        cache.wf(),
    ensures
        match lookup_model(cache.model(), hash_key_spec(subject@)) {
            Some((outcome, dl)) => {
                if live_at(dl, now) {
                    match outcome {
                        ResolveHandleResult::Found(d) => r matches Some(Ok(x)) && x@ == d@,
                        ResolveHandleResult::NotFound(m) => r matches Some(Err(e)) && e.0@ == m@,
                    }
                } else {
                    r is None
                }
            },
            None => r is None,
        },
{
    let key = hash_key(subject);
    match cache.get(key.as_str(), now) {
        Some(outcome) => match outcome.duplicate() {
            ResolveHandleResult::Found(did) => Some(Ok(did)),
            ResolveHandleResult::NotFound(message) => Some(
                Err(crate::errors::WeatherVaneError(message)),
            ),
        },
        None => None,
    }
}

/// Stores a resolution outcome for a subject, under the subject's hashed key
/// and with the outcome's own lifetime.
pub fn resolve_cache_store(
    cache: &mut TtlCache<ResolveHandleResult>,
    subject: &str,
    outcome: ResolveHandleResult,
    now: u64,
)
    requires
        old(cache).wf(),
    ensures
        final(cache).wf(),
        final(cache).capacity_spec() == old(cache).capacity_spec(),
        final(cache).model() == insert_model(
            old(cache).model(),
            old(cache).capacity_spec(),
            hash_key_spec(subject@),
            outcome,
            deadline_of(now, resolve_ttl_spec(&outcome)),
        ),
{
    let ttl = resolve_ttl(&outcome);
    let key = hash_key(subject);
    cache.insert(key, outcome, now, ttl);
}

/// Consults the DID-document cache: a live hit replays the cached document
/// or failure.
pub fn document_cache_lookup(cache: &TtlCache<DidDocumentResult>, did: &str, now: u64) -> (r:
    Option<Result<(String, Vec<String>), WeatherVaneError>>)
    requires
        cache.wf(),
    ensures
        match lookup_model(cache.model(), hash_key_spec(did@)) {
            Some((outcome, dl)) => {
                if live_at(dl, now) {
                    match outcome {
                        DidDocumentResult::Found(id, aka) => r matches Some(Ok(p)) && p.0@ == id@
                            && p.1.deep_view() == aka.deep_view(),
                        DidDocumentResult::NotFound(m) => r matches Some(Err(e)) && e.0@ == m@,
                    }
                } else {
                    r is None
                }
            },
            None => r is None,
        },
{
    let key = hash_key(did);
    match cache.get(key.as_str(), now) {
        Some(outcome) => match outcome.duplicate() {
            DidDocumentResult::Found(id, aka) => Some(Ok((id, aka))),
            DidDocumentResult::NotFound(message) => Some(
                Err(crate::errors::WeatherVaneError(message)),
            ),
        },
        None => None,
    }
}

/// Stores a document outcome for a DID, under the DID's hashed key and with
/// the outcome's own lifetime.
pub fn document_cache_store(
    cache: &mut TtlCache<DidDocumentResult>,
    did: &str,
    outcome: DidDocumentResult,
    now: u64,
)
    requires
        old(cache).wf(),
    ensures
        final(cache).wf(),
        final(cache).capacity_spec() == old(cache).capacity_spec(),
        final(cache).model() == insert_model(
            old(cache).model(),
            old(cache).capacity_spec(),
            hash_key_spec(did@),
            outcome,
            deadline_of(now, document_ttl_spec(&outcome)),
        ),
{
    let ttl = document_ttl(&outcome);
    let key = hash_key(did);
    cache.insert(key, outcome, now, ttl);
}

// ---------------------------------------------------------------------------
// The expiry law
// ---------------------------------------------------------------------------

/// For claim verifications inserted at the same instant `t`, a negative
/// outcome stays live at every instant a positive one is live at, and --
/// where the clock does not saturate -- strictly longer: at `t + 600` the
/// positive entry is expired while the negative one still lives.
pub proof fn lemma_verify_not_found_outlives_found(t: u64, q: u64)
    ensures
        live_at(deadline_of(t, verify_ttl_spec(VerifyResult::Found)), q) ==> live_at(
            deadline_of(t, verify_ttl_spec(VerifyResult::NotFound)),
            q,
        ),
        t <= u64::MAX - 3600 ==> !live_at(
            deadline_of(t, verify_ttl_spec(VerifyResult::Found)),
            (t + 600) as u64,
        ) && live_at(deadline_of(t, verify_ttl_spec(VerifyResult::NotFound)), (t + 600) as u64),
{
}

/// The same law for handle resolutions: at `t + 300` a positive entry is
/// expired while a negative one still lives.
pub proof fn lemma_resolve_not_found_outlives_found(
    t: u64,
    q: u64,
    found: ResolveHandleResult,
    not_found: ResolveHandleResult,
)
    requires
        found is Found,
        not_found is NotFound,
    ensures
        live_at(deadline_of(t, resolve_ttl_spec(&found)), q) ==> live_at(
            deadline_of(t, resolve_ttl_spec(&not_found)),
            q,
        ),
        t <= u64::MAX - 7200 ==> !live_at(deadline_of(t, resolve_ttl_spec(&found)), (t + 300) as u64)
            && live_at(deadline_of(t, resolve_ttl_spec(&not_found)), (t + 300) as u64),
{
}

/// The same law for DID documents: at `t + 300` a positive entry is expired
/// while a negative one still lives.
pub proof fn lemma_document_not_found_outlives_found(
    t: u64,
    q: u64,
    found: DidDocumentResult,
    not_found: DidDocumentResult,
)
    requires
        found is Found,
        not_found is NotFound,
    ensures
        live_at(deadline_of(t, document_ttl_spec(&found)), q) ==> live_at(
            deadline_of(t, document_ttl_spec(&not_found)),
            q,
        ),
        t <= u64::MAX - 7200 ==> !live_at(
            deadline_of(t, document_ttl_spec(&found)),
            (t + 300) as u64,
        ) && live_at(deadline_of(t, document_ttl_spec(&not_found)), (t + 300) as u64),
{
}

} // verus!
