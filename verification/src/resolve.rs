use vstd::prelude::*;

use crate::did::strip_handle_prefix;
use crate::errors::WeatherVaneError;
use crate::text::{
    eq_str, has_prefix, starts_with_str, strip_prefix_spec, strip_prefix_str, trim_spec, trim_str,
};

verus! {

// ---------------------------------------------------------------------------
// Subject input parsing
// ---------------------------------------------------------------------------

/// How a subject string is to be resolved: as a handle needing lookups, or
/// as a DID returned unchanged.
#[derive(Debug)]
pub enum InputType {
    Handle(String),
    Plc(String),
    Web(String),
}

/// A subject string trimmed and with one optional `at://` or `@` prefix
/// removed.
pub open spec fn canonical_input(s: Seq<char>) -> Seq<char> {
    strip_handle_prefix(trim_spec(s))
}

/// Parses a raw subject string, rejecting an empty one.
pub fn parse_input(input: &str) -> (r: Result<InputType, WeatherVaneError>)
    ensures
        ({
            let c = canonical_input(input@);
            match r {
                Ok(InputType::Web(v)) => c.len() > 0 && has_prefix(c, "did:web:"@) && v@ == c,
                Ok(InputType::Plc(v)) => c.len() > 0 && !has_prefix(c, "did:web:"@) && has_prefix(
                    c,
                    "did:plc:"@,
                ) && v@ == c,
                Ok(InputType::Handle(v)) => c.len() > 0 && !has_prefix(c, "did:web:"@)
                    && !has_prefix(c, "did:plc:"@) && v@ == c,
                Err(e) => c.len() == 0 && e.0@ == "Invalid handle or DID"@,
            }
        }),
{
    let t = trim_str(input);
    let trimmed: &str = if let Some(value) = strip_prefix_str(t, "at://") {
        value
    } else if let Some(value) = strip_prefix_str(t, "@") {
        value
    } else {
        t
    };
    if trimmed.unicode_len() == 0 {
        return Err(WeatherVaneError::new("Invalid handle or DID"));
    }
    if starts_with_str(trimmed, "did:web:") {
        Ok(InputType::Web(trimmed.to_owned()))
    } else if starts_with_str(trimmed, "did:plc:") {
        Ok(InputType::Plc(trimmed.to_owned()))
    } else {
        Ok(InputType::Handle(trimmed.to_owned()))
    }
}

// ---------------------------------------------------------------------------
// DNS TXT record judgment
// ---------------------------------------------------------------------------

/// The values of the records that carry a `did=` prefix, in record order,
/// with the prefix removed.
pub open spec fn did_values(recs: Seq<Seq<char>>) -> Seq<Seq<char>>
    decreases recs.len(),
{
    if recs.len() == 0 {
        Seq::empty()
    } else {
        let rest = did_values(recs.drop_last());
        if has_prefix(recs.last(), "did="@) {
            rest.push(strip_prefix_spec(recs.last(), "did="@))
        } else {
            rest
        }
    }
}

/// All elements of `vals` are the same value.
pub open spec fn all_same(vals: Seq<Seq<char>>) -> bool {
    forall|i: int, j: int| 0 <= i < vals.len() && 0 <= j < vals.len() ==> vals[i] == vals[j]
}

/// Judges the TXT records found at a `_atproto.` DNS name: the records with
/// a `did=` prefix must name exactly one distinct DID.
pub fn dns_records_to_did(records: &Vec<String>, lookup_dns: &str) -> (r: Result<
    String,
    WeatherVaneError,
>)
    ensures
        ({
            let vals = did_values(records.deep_view());
            match r {
                Ok(d) => vals.len() > 0 && all_same(vals) && d@ == vals[0],
                Err(e) => (vals.len() == 0 && e.0@ == "No records found: "@ + lookup_dns@) || (
                !all_same(vals) && e.0@ == "Multiple records found: "@ + lookup_dns@),
            }
        }),
{
    let ghost all = records.deep_view();
    let mut first: Option<String> = None;
    let mut mismatch = false;
    let mut i: usize = 0;
    proof {
        assert(all.subrange(0, 0) =~= Seq::<Seq<char>>::empty());
    }
    while i < records.len()
        invariant
            i <= records.len(),
            all == records.deep_view(),
            all.len() == records@.len(),
            ({
                let vals = did_values(all.subrange(0, i as int));
                &&& (match first {
                    Some(f) => vals.len() > 0 && f@ == vals[0],
                    None => vals.len() == 0,
                })
                &&& mismatch == !all_same(vals)
            }),
        decreases records.len() - i,
    {
        let ghost pre = did_values(all.subrange(0, i as int));
        proof {
            assert(all.subrange(0, i + 1).drop_last() =~= all.subrange(0, i as int));
            assert(all.subrange(0, i + 1).last() == all[i as int]);
            assert(all[i as int] == records@[i as int]@);
        }
        if let Some(rest) = strip_prefix_str(records[i].as_str(), "did=") {
            let ghost post = did_values(all.subrange(0, i + 1));
            proof {
                assert(post == pre.push(rest@));
            }
            match &first {
                None => {
                    first = Some(rest.to_owned());
                    proof {
                        assert(all_same(pre));
                        assert(forall|x: int, y: int|
                            0 <= x < post.len() && 0 <= y < post.len() ==> post[x] == post[y]);
                    }
                },
                Some(f) => {
                    if !eq_str(f.as_str(), rest) {
                        mismatch = true;
                        proof {
                            assert(post[0] != post[post.len() - 1]);
                        }
                    } else {
                        proof {
                            if !mismatch {
                                assert(forall|x: int, y: int|
                                    0 <= x < post.len() && 0 <= y < post.len() ==> post[x]
                                        == post[y]);
                            } else {
                                let (x, y) = choose|x: int, y: int|
                                    0 <= x < pre.len() && 0 <= y < pre.len() && pre[x] != pre[y];
                                assert(post[x] != post[y]);
                            }
                        }
                    }
                },
            }
        }
        i += 1;
    }
    proof {
        assert(all.subrange(0, records@.len() as int) =~= all);
    }
    if mismatch {
        let mut m = "Multiple records found: ".to_owned();
        m.append(lookup_dns);
        return Err(WeatherVaneError(m));
    }
    match first {
        Some(f) => Ok(f),
        None => {
            let mut m = "No records found: ".to_owned();
            m.append(lookup_dns);
            Err(WeatherVaneError(m))
        },
    }
}

// ---------------------------------------------------------------------------
// Well-known body judgment
// ---------------------------------------------------------------------------

/// The DID named by a `.well-known/atproto-did` body: the trimmed body, but
/// only when the raw body starts with `did:`.
pub open spec fn http_did_of(body: Seq<char>) -> Option<Seq<char>> {
    if has_prefix(body, "did:"@) {
        Some(trim_spec(body))
    } else {
        None
    }
}

/// Judges the body served at a handle's `.well-known/atproto-did`.
pub fn wellknown_body_to_did(body: &str, lookup_url: &str) -> (r: Result<String, WeatherVaneError>)
    ensures
        match r {
            Ok(d) => http_did_of(body@) == Some(d@),
            Err(e) => http_did_of(body@) is None && e.0@ == "Invalid response from "@ + lookup_url@,
        },
{
    if starts_with_str(body, "did:") {
        Ok(trim_str(body).to_owned())
    } else {
        let mut m = "Invalid response from ".to_owned();
        m.append(lookup_url);
        Err(WeatherVaneError(m))
    }
}

// ---------------------------------------------------------------------------
// Handle resolution: three independent lookups and consensus
// ---------------------------------------------------------------------------

/// The hostname a handle's lookups are made against: the handle trimmed and
/// with one optional `at://` or `@` prefix removed.
pub fn resolve_handle_target(handle: &str) -> (r: String)
    ensures
        r@ == strip_handle_prefix(trim_spec(handle@)),
{
    let t = trim_str(handle);
    if let Some(value) = strip_prefix_str(t, "at://") {
        value.to_owned()
    } else if let Some(value) = strip_prefix_str(t, "@") {
        value.to_owned()
    } else {
        t.to_owned()
    }
}

/// The three lookup targets for a handle hostname.
#[derive(Debug)]
pub struct HandleLookupPlan {
    /// The DNS name whose TXT records are queried.
    pub dns_name: String,
    /// The URL of the plain-text well-known DID document.
    pub http_url: String,
    /// The URL of the JSON DID document.
    pub web_url: String,
}

/// Builds the three lookup targets for a handle hostname.
pub fn handle_lookup_plan(target: &str) -> (r: HandleLookupPlan)
    ensures
        r.dns_name@ == "_atproto."@ + target@,
        r.http_url@ == "https://"@ + target@ + "/.well-known/atproto-did"@,
        r.web_url@ == "https://"@ + target@ + "/.well-known/did.json"@,
{
    let mut dns_name = "_atproto.".to_owned();
    dns_name.append(target);
    let mut http_url = "https://".to_owned();
    http_url.append(target);
    http_url.append("/.well-known/atproto-did");
    let mut web_url = "https://".to_owned();
    web_url.append(target);
    web_url.append("/.well-known/did.json");
    HandleLookupPlan { dns_name, http_url, web_url }
}

/// The raw outcomes of the three lookups; `None` where the lookup failed.
#[derive(Debug)]
pub struct HandleLookups {
    /// TXT record strings found at the `_atproto.` name.
    pub dns_records: Option<Vec<String>>,
    /// Body served at `/.well-known/atproto-did`.
    pub http_body: Option<String>,
    /// The `id` of the JSON document served at `/.well-known/did.json`.
    pub web_id: Option<String>,
}

/// The records of an optional lookup result, as character sequences.
pub open spec fn records_view(recs: &Option<Vec<String>>) -> Option<Seq<Seq<char>>> {
    match recs {
        Some(v) => Some(v.deep_view()),
        None => None,
    }
}

impl HandleLookups {
    /// The DNS lookup's records, as character sequences.
    pub open spec fn dns_view(&self) -> Option<Seq<Seq<char>>> {
        records_view(&self.dns_records)
    }

    /// The well-known body, as a character sequence.
    pub open spec fn http_view(&self) -> Option<Seq<char>> {
        match self.http_body {
            Some(b) => Some(b@),
            None => None,
        }
    }

    /// The JSON document id, as a character sequence.
    pub open spec fn web_view(&self) -> Option<Seq<char>> {
        match self.web_id {
            Some(d) => Some(d@),
            None => None,
        }
    }
}

/// The DID the DNS lookup yields: the single distinct `did=` value, if the
/// lookup succeeded and exactly one distinct value is present.
pub open spec fn dns_did_opt(recs: Option<Seq<Seq<char>>>) -> Option<Seq<char>> {
    match recs {
        Some(rs) => {
            let vals = did_values(rs);
            if vals.len() > 0 && all_same(vals) {
                Some(vals[0])
            } else {
                None
            }
        },
        None => None,
    }
}

/// The DID the well-known lookup yields, if its body was usable.
pub open spec fn http_did_opt(body: Option<Seq<char>>) -> Option<Seq<char>> {
    match body {
        Some(b) => http_did_of(b),
        None => None,
    }
}

/// The values of the present options, in order.
pub open spec fn successes(
    a: Option<Seq<char>>,
    b: Option<Seq<char>>,
    c: Option<Seq<char>>,
) -> Seq<Seq<char>> {
    (match a {
        Some(x) => seq![x],
        None => Seq::<Seq<char>>::empty(),
    }) + (match b {
        Some(x) => seq![x],
        None => Seq::<Seq<char>>::empty(),
    }) + (match c {
        Some(x) => seq![x],
        None => Seq::<Seq<char>>::empty(),
    })
}

/// The DIDs the three lookups yielded, in lookup order.
pub open spec fn lookup_successes(l: &HandleLookups) -> Seq<Seq<char>> {
    successes(dns_did_opt(l.dns_view()), http_did_opt(l.http_view()), l.web_view())
}

/// The consensus judgment: a DID only when at least one lookup succeeded and
/// every successful lookup returned that same DID.
pub open spec fn consensus_of(l: &HandleLookups) -> Option<Seq<char>> {
    let succ = lookup_successes(l);
    if succ.len() > 0 && all_same(succ) {
        Some(succ[0])
    } else {
        None
    }
}

fn err_no_resolution(handle: &str) -> (e: WeatherVaneError)
    ensures
        e.0@ == "Failed to resolve handle "@ + handle@,
{
    let mut m = "Failed to resolve handle ".to_owned();
    m.append(handle);
    WeatherVaneError(m)
}

fn err_conflict(handle: &str) -> (e: WeatherVaneError)
    ensures
        e.0@ == "Resolving handle returns values that do not match: "@ + handle@,
{
    let mut m = "Resolving handle returns values that do not match: ".to_owned();
    m.append(handle);
    WeatherVaneError(m)
}

/// Judges the three lookups of `handle`: succeeds only on consensus, and
/// distinguishes total failure from disagreement between lookups.
pub fn handle_consensus(handle: &str, lookups: &HandleLookups) -> (r: Result<
    String,
    WeatherVaneError,
>)
    ensures
        ({
            let succ = lookup_successes(lookups);
            match r {
                Ok(d) => consensus_of(lookups) == Some(d@),
                Err(e) => consensus_of(lookups) is None && ((succ.len() == 0 && e.0@
                    == "Failed to resolve handle "@ + handle@) || (succ.len() > 0 && !all_same(succ)
                    && e.0@ == "Resolving handle returns values that do not match: "@ + handle@)),
            }
        }),
{
    let ghost a = dns_did_opt(lookups.dns_view());
    let ghost b = http_did_opt(lookups.http_view());
    let ghost c = lookups.web_view();
    let ghost succ = lookup_successes(lookups);
    let dns_did: Option<String> = match &lookups.dns_records {
        Some(records) => match dns_records_to_did(records, "") {
            Ok(d) => Some(d),
            Err(_) => None,
        },
        None => None,
    };
    let http_did: Option<String> = match &lookups.http_body {
        Some(body) => match wellknown_body_to_did(body.as_str(), "") {
            Ok(d) => Some(d),
            Err(_) => None,
        },
        None => None,
    };
    proof {
        assert(match dns_did {
            Some(d) => a == Some(d@),
            None => a is None,
        });
        assert(match http_did {
            Some(d) => b == Some(d@),
            None => b is None,
        });
    }
    match (&dns_did, &http_did, &lookups.web_id) {
        (None, None, None) => {
            proof {
                assert(succ =~= Seq::<Seq<char>>::empty());
            }
            Err(err_no_resolution(handle))
        },
        (Some(x), None, None) => {
            proof {
                assert(succ =~= seq![x@]);
            }
            Ok(x.clone())
        },
        (None, Some(x), None) => {
            proof {
                assert(succ =~= seq![x@]);
            }
            Ok(x.clone())
        },
        (None, None, Some(x)) => {
            proof {
                assert(succ =~= seq![x@]);
            }
            Ok(x.clone())
        },
        (Some(x), Some(y), None) => {
            proof {
                assert(succ =~= seq![x@, y@]);
            }
            if eq_str(x.as_str(), y.as_str()) {
                Ok(x.clone())
            } else {
                proof {
                    assert(succ[0] != succ[1]);
                }
                Err(err_conflict(handle))
            }
        },
        (Some(x), None, Some(y)) => {
            proof {
                assert(succ =~= seq![x@, y@]);
            }
            if eq_str(x.as_str(), y.as_str()) {
                Ok(x.clone())
            } else {
                proof {
                    assert(succ[0] != succ[1]);
                }
                Err(err_conflict(handle))
            }
        },
        (None, Some(x), Some(y)) => {
            proof {
                assert(succ =~= seq![x@, y@]);
            }
            if eq_str(x.as_str(), y.as_str()) {
                Ok(x.clone())
            } else {
                proof {
                    assert(succ[0] != succ[1]);
                }
                Err(err_conflict(handle))
            }
        },
        (Some(x), Some(y), Some(z)) => {
            proof {
                assert(succ =~= seq![x@, y@, z@]);
            }
            if eq_str(x.as_str(), y.as_str()) && eq_str(x.as_str(), z.as_str()) {
                Ok(x.clone())
            } else {
                proof {
                    if x@ != y@ {
                        assert(succ[0] != succ[1]);
                    } else {
                        assert(succ[0] != succ[2]);
                    }
                }
                Err(err_conflict(handle))
            }
        },
    }
}

// ---------------------------------------------------------------------------
// Subject resolution
// ---------------------------------------------------------------------------

/// How a subject string resolves: already a DID, or a handle whose lookups
/// still have to be made.
#[derive(Debug)]
pub enum SubjectResolution {
    Resolved(String),
    NeedsHandleLookup(String),
}

/// Decides how a subject resolves: `did:plc:`/`did:web:` subjects pass
/// through unchanged, anything else nonempty is a handle to look up.
pub fn start_resolve_subject(subject: &str) -> (r: Result<SubjectResolution, WeatherVaneError>)
    ensures
        ({
            let c = canonical_input(subject@);
            match r {
                Ok(SubjectResolution::Resolved(d)) => c.len() > 0 && (has_prefix(c, "did:web:"@)
                    || has_prefix(c, "did:plc:"@)) && d@ == c,
                Ok(SubjectResolution::NeedsHandleLookup(h)) => c.len() > 0 && !has_prefix(
                    c,
                    "did:web:"@,
                ) && !has_prefix(c, "did:plc:"@) && h@ == c,
                Err(e) => c.len() == 0 && e.0@ == "Invalid handle or DID"@,
            }
        }),
{
    match parse_input(subject)? {
        InputType::Web(did) => Ok(SubjectResolution::Resolved(did)),
        InputType::Plc(did) => Ok(SubjectResolution::Resolved(did)),
        InputType::Handle(handle) => Ok(SubjectResolution::NeedsHandleLookup(handle)),
    }
}

} // verus!
