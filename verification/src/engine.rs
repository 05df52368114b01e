use vstd::prelude::*;

use crate::cache::VerifyResult;
use crate::diddoc::{capped_len, contains_subject, document_from_parts, plc_query_url, web_query_url};
use crate::identity::IdentityType;
use crate::resolve::{
    consensus_of, dns_did_opt, handle_consensus, handle_lookup_plan, records_view,
    resolve_handle_target, HandleLookupPlan, HandleLookups,
};
use crate::text::{
    eq_str, find_char, has_prefix, lemma_seg_len_is, seg_len, strip_prefix_spec, strip_prefix_str,
    trim_spec,
};

verus! {

// ---------------------------------------------------------------------------
// Website claim URLs
// ---------------------------------------------------------------------------

/// The parts of a parsed URL that website-claim checks read.
pub struct UrlParts {
    pub scheme: String,
    pub has_host: bool,
    pub username: String,
    pub has_password: bool,
    pub path: String,
    pub has_query: bool,
    pub serialized: String,
}

impl UrlParts {
    /// The parts as plain values: scheme, host presence, username, password
    /// presence, path, query presence, serialization.
    pub open spec fn model(&self) -> (Seq<char>, bool, Seq<char>, bool, Seq<char>, bool, Seq<char>) {
        (
            self.scheme@,
            self.has_host,
            self.username@,
            self.has_password,
            self.path@,
            self.has_query,
            self.serialized@,
        )
    }
}

/// What URL parsing yields on a string -- scheme, host presence, username,
/// password presence, path, query presence and the normalized serialization
/// -- or nothing where parsing fails. A function of the characters alone.
pub uninterp spec fn url_parts_of(s: Seq<char>) -> Option<
    (Seq<char>, bool, Seq<char>, bool, Seq<char>, bool, Seq<char>),
>;

/// Relies on url::Url::parse and its accessors scheme, host, username,
/// password, path, query and as_str: all read the parsed URL, a function of
/// the input string alone.
#[verifier::external_body]
fn parse_claim_url(s: &str) -> (r: Option<UrlParts>)
    ensures
        match r {
            Some(p) => url_parts_of(s@) == Some(p.model()),
            None => url_parts_of(s@) is None,
        },
{
    match url::Url::parse(s) {
        Ok(u) => Some(UrlParts {
            scheme: u.scheme().to_string(),
            has_host: u.host().is_some(),
            username: u.username().to_string(),
            has_password: u.password().is_some(),
            path: u.path().to_string(),
            has_query: u.query().is_some(),
            serialized: u.as_str().to_string(),
        }),
        Err(_) => None,
    }
}

/// Whether a parsed website claim may be fetched: http or https scheme, a
/// host, no username or password, a nonempty path, and no query string.
pub open spec fn acceptable_url_model(
    p: (Seq<char>, bool, Seq<char>, bool, Seq<char>, bool, Seq<char>),
) -> bool {
    (p.0 == "http"@ || p.0 == "https"@) && p.1 && p.2.len() == 0 && !p.3 && p.4.len() > 0 && !p.5
}

/// Decides whether a parsed website claim URL is acceptable to fetch.
pub fn website_claim_acceptable(p: &UrlParts) -> (b: bool)
    ensures
        b == acceptable_url_model(p.model()),
{
    (eq_str(p.scheme.as_str(), "http") || eq_str(p.scheme.as_str(), "https")) && p.has_host
        && p.username.unicode_len() == 0 && !p.has_password && p.path.unicode_len() > 0
        && !p.has_query
}

// ---------------------------------------------------------------------------
// Website bodies
// ---------------------------------------------------------------------------

/// The href attributes of `link` elements whose `rel` contains `did`,
/// followed by those whose `rel` contains `me`, in document order: what a
/// scan of the HTML body yields. A function of the body alone.
pub uninterp spec fn did_me_hrefs_of(body: Seq<char>) -> Seq<Seq<char>>;

/// Relies on scraper's Html::parse_document, Selector::parse and select:
/// parses the body and collects the href attributes of elements matching
/// `link[rel~="did"]`, then `link[rel~="me"]`.
#[verifier::external_body]
fn extract_did_me_hrefs(body: &str) -> (r: Vec<String>)
    ensures
        r.deep_view() == did_me_hrefs_of(body@),
{
    let document = scraper::Html::parse_document(body);
    let did_sel = scraper::Selector::parse("link[rel~=\"did\"]").unwrap();
    let me_sel = scraper::Selector::parse("link[rel~=\"me\"]").unwrap();
    let mut out = Vec::new();
    for selector in [&did_sel, &me_sel] {
        for element in document.select(selector) {
            if let Some(href) = element.value().attr("href") {
                out.push(href.to_string());
            }
        }
    }
    out
}

/// The verdict over a scanned body: found only when some href equals the
/// subject exactly.
pub fn website_verdict(subject: &str, hrefs: &Vec<String>) -> (r: VerifyResult)
    ensures
        (r == VerifyResult::Found) == hrefs.deep_view().contains(subject@),
{
    if contains_subject(hrefs, subject) {
        VerifyResult::Found
    } else {
        VerifyResult::NotFound
    }
}

/// Scans a fetched website body for a link element naming the subject.
pub fn verify_website_body(subject: &str, body: &str) -> (r: VerifyResult)
    ensures
        (r == VerifyResult::Found) == did_me_hrefs_of(body@).contains(subject@),
{
    let hrefs = extract_did_me_hrefs(body);
    website_verdict(subject, &hrefs)
}

// ---------------------------------------------------------------------------
// GitHub social accounts
// ---------------------------------------------------------------------------

/// One social account attached to a GitHub user.
#[derive(Clone, Debug)]
pub struct SocialAccount {
    pub provider: String,
    pub url: String,
}

/// The accounts as plain pairs of provider and URL.
pub open spec fn social_models(accounts: &Vec<SocialAccount>) -> Seq<(Seq<char>, Seq<char>)> {
    accounts@.map_values(|a: SocialAccount| (a.provider@, a.url@))
}

/// The URL of the first account whose provider is `bluesky`.
pub open spec fn first_bluesky(accounts: Seq<(Seq<char>, Seq<char>)>) -> Option<Seq<char>>
    decreases accounts.len(),
{
    if accounts.len() == 0 {
        None
    } else if accounts[0].0 == "bluesky"@ {
        Some(accounts[0].1)
    } else {
        first_bluesky(accounts.drop_first())
    }
}

/// The handle named by a bluesky profile URL: the path segment after
/// `https://bsky.app/profile/`, up to the next slash.
pub open spec fn bsky_handle_of_url(u: Seq<char>) -> Option<Seq<char>> {
    if has_prefix(u, "https://bsky.app/profile/"@) {
        let rest = strip_prefix_spec(u, "https://bsky.app/profile/"@);
        Some(rest.subrange(0, seg_len(rest, '/') as int))
    } else {
        None
    }
}

/// The bluesky handle advertised among a GitHub user's social accounts, if
/// the first bluesky account carries a profile URL of the expected shape.
pub open spec fn github_handle_of(accounts: Seq<(Seq<char>, Seq<char>)>) -> Option<Seq<char>> {
    match first_bluesky(accounts) {
        Some(u) => bsky_handle_of_url(u),
        None => None,
    }
}

proof fn lemma_first_bluesky_at(accounts: Seq<(Seq<char>, Seq<char>)>, i: int)
    requires
        0 <= i < accounts.len(),
        accounts[i].0 == "bluesky"@,
        forall|j: int| 0 <= j < i ==> accounts[j].0 != "bluesky"@,
    ensures
        first_bluesky(accounts) == Some(accounts[i].1),
    decreases i,
{
    if i > 0 {
        lemma_first_bluesky_at(accounts.drop_first(), i - 1);
    }
}

proof fn lemma_first_bluesky_absent(accounts: Seq<(Seq<char>, Seq<char>)>)
    requires
        forall|j: int| 0 <= j < accounts.len() ==> accounts[j].0 != "bluesky"@,
    ensures
        first_bluesky(accounts) is None,
    decreases accounts.len(),
{
    if accounts.len() > 0 {
        lemma_first_bluesky_absent(accounts.drop_first());
    }
}

/// Extracts the bluesky handle from a GitHub user's social accounts.
pub fn github_socials_to_handle(accounts: &Vec<SocialAccount>) -> (r: Option<String>)
    ensures
        match r {
            Some(h) => github_handle_of(social_models(accounts)) == Some(h@),
            None => github_handle_of(social_models(accounts)) is None,
        },
{
    let ghost ms = social_models(accounts);
    let mut i: usize = 0;
    while i < accounts.len()
        invariant
            i <= accounts.len(),
            ms == social_models(accounts),
            ms.len() == accounts@.len(),
            forall|j: int| 0 <= j < i ==> ms[j].0 != "bluesky"@,
        decreases accounts.len() - i,
    {
        if eq_str(accounts[i].provider.as_str(), "bluesky") {
            proof {
                assert(ms[i as int] == (accounts@[i as int].provider@, accounts@[i as int].url@));
                lemma_first_bluesky_at(ms, i as int);
            }
            let u: &str = accounts[i].url.as_str();
            if let Some(rest) = strip_prefix_str(u, "https://bsky.app/profile/") {
                let ns: usize = rest.unicode_len();
                let handle: &str = match find_char(rest, '/') {
                    Some(k) => {
                        proof {
                            lemma_seg_len_is(rest@, '/', k as nat);
                        }
                        rest.substring_char(0, k)
                    },
                    None => {
                        proof {
                            lemma_seg_len_is(rest@, '/', rest@.len() as nat);
                            assert(rest@.subrange(0, rest@.len() as int) =~= rest@);
                        }
                        rest
                    },
                };
                return Some(handle.to_owned());
            } else {
                return None;
            }
        }
        i += 1;
    }
    proof {
        lemma_first_bluesky_absent(ms);
    }
    None
}

// ---------------------------------------------------------------------------
// The claim verification machine
// ---------------------------------------------------------------------------

/// A network action the engine needs performed by its driver.
#[derive(Debug)]
pub enum NetRequest {
    /// Query the TXT records of this DNS name.
    DnsTxt(String),
    /// Perform the three handle lookups, concurrently.
    HandleLookups(HandleLookupPlan),
    /// Fetch this URL and decode the social accounts it serves.
    GithubSocials(String),
    /// Fetch this URL with a short timeout and return the body.
    WebsiteFetch(String),
    /// Fetch this URL and decode the DID document it serves.
    DidDocument(String),
}

/// The decoded parts of a fetched DID document, before capping.
#[derive(Debug)]
pub struct DocumentParts {
    pub id: String,
    pub also_known_as: Vec<String>,
}

/// What came back for a request; `None` where the call or decoding failed.
#[derive(Debug)]
pub enum NetResponse {
    Records(Option<Vec<String>>),
    Lookups(HandleLookups),
    Socials(Option<Vec<SocialAccount>>),
    Body(Option<String>),
    Document(Option<DocumentParts>),
}

/// Where a claim's verification stands: which response it waits for.
#[derive(Clone, Copy, Debug, PartialEq, Eq, Structural)]
pub enum ClaimState {
    AwaitDns,
    AwaitHandle,
    AwaitGithub,
    AwaitGithubHandle,
    AwaitWebsite,
    AwaitDocument,
}

/// One step of a claim's verification: another request to perform, or the
/// verdict.
#[derive(Debug)]
pub enum ClaimStep {
    Fetch(ClaimState, NetRequest),
    Verdict(VerifyResult),
}

/// A domain claim's value with its optional `dns:` prefix removed.
pub open spec fn domain_of(v: Seq<char>) -> Seq<char> {
    if has_prefix(v, "dns:"@) {
        strip_prefix_spec(v, "dns:"@)
    } else {
        v
    }
}

/// Whether a response is of the kind the state waits for.
pub open spec fn response_matches(state: ClaimState, r: &NetResponse) -> bool {
    match (state, r) {
        (ClaimState::AwaitDns, NetResponse::Records(_)) => true,
        (ClaimState::AwaitHandle, NetResponse::Lookups(_)) => true,
        (ClaimState::AwaitGithub, NetResponse::Socials(_)) => true,
        (ClaimState::AwaitGithubHandle, NetResponse::Lookups(_)) => true,
        (ClaimState::AwaitWebsite, NetResponse::Body(_)) => true,
        (ClaimState::AwaitDocument, NetResponse::Document(_)) => true,
        _ => false,
    }
}

/// The three-lookup request for a handle string, after trimming and prefix
/// stripping.
pub open spec fn handle_fetch_for(r: &ClaimStep, state: ClaimState, h: Seq<char>) -> bool {
    ({
        let target = crate::did::strip_handle_prefix(trim_spec(h));
        r matches ClaimStep::Fetch(st, NetRequest::HandleLookups(plan)) && st == state
            && plan.dns_name@ == "_atproto."@ + target && plan.http_url@ == "https://"@ + target
            + "/.well-known/atproto-did"@ && plan.web_url@ == "https://"@ + target
            + "/.well-known/did.json"@
    })
}

/// Starts verifying one claim: either the first network request to perform,
/// or an immediate verdict where no network work is needed or the claim is
/// rejected outright.
pub fn start_claim(claim: &IdentityType, plc_hostname: &str) -> (r: ClaimStep)
    ensures
        match claim {
            IdentityType::Domain(v) => (r matches ClaimStep::Fetch(
                ClaimState::AwaitDns,
                NetRequest::DnsTxt(n),
            ) && n@ == "_atproto."@ + domain_of(v@)),
            IdentityType::Handle(v) => handle_fetch_for(&r, ClaimState::AwaitHandle, v@),
            IdentityType::GitHub(v) => (r matches ClaimStep::Fetch(
                ClaimState::AwaitGithub,
                NetRequest::GithubSocials(u),
            ) && u@ == "https://api.github.com/users/"@ + v@ + "/social_accounts"@),
            IdentityType::Website(v) => (match url_parts_of(v@) {
                Some(p) => {
                    if acceptable_url_model(p) {
                        r matches ClaimStep::Fetch(
                            ClaimState::AwaitWebsite,
                            NetRequest::WebsiteFetch(u),
                        ) && u@ == p.6
                    } else {
                        r matches ClaimStep::Verdict(VerifyResult::NotFound)
                    }
                },
                None => r matches ClaimStep::Verdict(VerifyResult::NotFound),
            }),
            IdentityType::DIDMethodPLC(v) => (r matches ClaimStep::Fetch(
                ClaimState::AwaitDocument,
                NetRequest::DidDocument(u),
            ) && u@ == "https://"@ + plc_hostname@ + "/"@ + v@),
            IdentityType::DIDMethodWeb(v) => (match crate::diddoc::web_query_url_spec(v@) {
                Some(wu) => r matches ClaimStep::Fetch(
                    ClaimState::AwaitDocument,
                    NetRequest::DidDocument(u),
                ) && u@ == wu,
                None => r matches ClaimStep::Verdict(VerifyResult::NotFound),
            }),
            IdentityType::Unsupported(_) => r matches ClaimStep::Verdict(VerifyResult::NotFound),
        },
{
    match claim {
        IdentityType::Domain(v) => {
            let trimmed: &str = match strip_prefix_str(v.as_str(), "dns:") {
                Some(rest) => rest,
                None => v.as_str(),
            };
            let mut name = "_atproto.".to_owned();
            name.append(trimmed);
            ClaimStep::Fetch(ClaimState::AwaitDns, NetRequest::DnsTxt(name))
        },
        IdentityType::Handle(v) => {
            let target = resolve_handle_target(v.as_str());
            let plan = handle_lookup_plan(target.as_str());
            ClaimStep::Fetch(ClaimState::AwaitHandle, NetRequest::HandleLookups(plan))
        },
        IdentityType::GitHub(v) => {
            let mut url = "https://api.github.com/users/".to_owned();
            url.append(v.as_str());
            url.append("/social_accounts");
            ClaimStep::Fetch(ClaimState::AwaitGithub, NetRequest::GithubSocials(url))
        },
        IdentityType::Website(v) => {
            match parse_claim_url(v.as_str()) {
                Some(parts) => {
                    if website_claim_acceptable(&parts) {
                        ClaimStep::Fetch(
                            ClaimState::AwaitWebsite,
                            NetRequest::WebsiteFetch(parts.serialized),
                        )
                    } else {
                        ClaimStep::Verdict(VerifyResult::NotFound)
                    }
                },
                None => ClaimStep::Verdict(VerifyResult::NotFound),
            }
        },
        IdentityType::DIDMethodPLC(v) => {
            let url = plc_query_url(plc_hostname, v.as_str());
            ClaimStep::Fetch(ClaimState::AwaitDocument, NetRequest::DidDocument(url))
        },
        IdentityType::DIDMethodWeb(v) => {
            match web_query_url(v.as_str()) {
                Ok(url) => ClaimStep::Fetch(ClaimState::AwaitDocument, NetRequest::DidDocument(url)),
                Err(_) => ClaimStep::Verdict(VerifyResult::NotFound),
            }
        },
        IdentityType::Unsupported(_) => ClaimStep::Verdict(VerifyResult::NotFound),
    }
}

/// Continues a claim's verification with the response to its pending
/// request: either the next request, or the verdict. Every failure degrades
/// to a negative verdict.
pub fn continue_claim(state: ClaimState, subject: &str, response: NetResponse) -> (r: ClaimStep)
    requires
        response_matches(state, &response),
    ensures
        match (state, &response) {
            (ClaimState::AwaitDns, NetResponse::Records(recs)) => r == ClaimStep::Verdict(
                if dns_did_opt(records_view(recs)) == Some(subject@) {
                    VerifyResult::Found
                } else {
                    VerifyResult::NotFound
                },
            ),
            (ClaimState::AwaitHandle, NetResponse::Lookups(l)) => r == ClaimStep::Verdict(
                if consensus_of(l) == Some(subject@) {
                    VerifyResult::Found
                } else {
                    VerifyResult::NotFound
                },
            ),
            (ClaimState::AwaitGithubHandle, NetResponse::Lookups(l)) => r == ClaimStep::Verdict(
                if consensus_of(l) == Some(subject@) {
                    VerifyResult::Found
                } else {
                    VerifyResult::NotFound
                },
            ),
            (ClaimState::AwaitGithub, NetResponse::Socials(accounts)) => (match accounts {
                None => r == ClaimStep::Verdict(VerifyResult::NotFound),
                Some(accs) => (match github_handle_of(social_models(accs)) {
                    Some(h) => handle_fetch_for(&r, ClaimState::AwaitGithubHandle, h),
                    None => r == ClaimStep::Verdict(VerifyResult::NotFound),
                }),
            }),
            (ClaimState::AwaitWebsite, NetResponse::Body(body)) => (match body {
                None => r == ClaimStep::Verdict(VerifyResult::NotFound),
                Some(b) => r == ClaimStep::Verdict(
                    if did_me_hrefs_of(b@).contains(subject@) {
                        VerifyResult::Found
                    } else {
                        VerifyResult::NotFound
                    },
                ),
            }),
            (ClaimState::AwaitDocument, NetResponse::Document(doc)) => (match doc {
                None => r == ClaimStep::Verdict(VerifyResult::NotFound),
                Some(parts) => r == ClaimStep::Verdict(
                    if parts.also_known_as.deep_view().take(
                        capped_len(parts.also_known_as.deep_view().len() as int),
                    ).contains(subject@) {
                        VerifyResult::Found
                    } else {
                        VerifyResult::NotFound
                    },
                ),
            }),
            _ => true,
        },
{
    match (state, response) {
        (ClaimState::AwaitDns, NetResponse::Records(recs)) => {
            match recs {
                Some(records) => {
                    match crate::resolve::dns_records_to_did(&records, "") {
                        Ok(d) => {
                            if eq_str(d.as_str(), subject) {
                                ClaimStep::Verdict(VerifyResult::Found)
                            } else {
                                ClaimStep::Verdict(VerifyResult::NotFound)
                            }
                        },
                        Err(_) => ClaimStep::Verdict(VerifyResult::NotFound),
                    }
                },
                None => ClaimStep::Verdict(VerifyResult::NotFound),
            }
        },
        (ClaimState::AwaitHandle, NetResponse::Lookups(l)) => verdict_from_lookups(subject, &l),
        (ClaimState::AwaitGithubHandle, NetResponse::Lookups(l)) => verdict_from_lookups(
            subject,
            &l,
        ),
        (ClaimState::AwaitGithub, NetResponse::Socials(accounts)) => {
            match accounts {
                Some(accs) => {
                    match github_socials_to_handle(&accs) {
                        Some(h) => {
                            let target = resolve_handle_target(h.as_str());
                            let plan = handle_lookup_plan(target.as_str());
                            ClaimStep::Fetch(
                                ClaimState::AwaitGithubHandle,
                                NetRequest::HandleLookups(plan),
                            )
                        },
                        None => ClaimStep::Verdict(VerifyResult::NotFound),
                    }
                },
                None => ClaimStep::Verdict(VerifyResult::NotFound),
            }
        },
        (ClaimState::AwaitWebsite, NetResponse::Body(body)) => {
            match body {
                Some(b) => ClaimStep::Verdict(verify_website_body(subject, b.as_str())),
                None => ClaimStep::Verdict(VerifyResult::NotFound),
            }
        },
        (ClaimState::AwaitDocument, NetResponse::Document(doc)) => {
            match doc {
                Some(parts) => {
                    let document = document_from_parts(parts.id, parts.also_known_as);
                    if contains_subject(&document.also_known_as, subject) {
                        ClaimStep::Verdict(VerifyResult::Found)
                    } else {
                        ClaimStep::Verdict(VerifyResult::NotFound)
                    }
                },
                None => ClaimStep::Verdict(VerifyResult::NotFound),
            }
        },
        _ => ClaimStep::Verdict(VerifyResult::NotFound),
    }
}

/// The verdict over a handle's three lookups: found only on consensus with
/// the subject.
fn verdict_from_lookups(subject: &str, l: &HandleLookups) -> (r: ClaimStep)
    ensures
        r == ClaimStep::Verdict(
            if consensus_of(l) == Some(subject@) {
                VerifyResult::Found
            } else {
                VerifyResult::NotFound
            },
        ),
{
    // The consensus error text names the handle for display; verdicts drop
    // it, so none is supplied here.
    match handle_consensus("", l) {
        Ok(d) => {
            if eq_str(d.as_str(), subject) {
                ClaimStep::Verdict(VerifyResult::Found)
            } else {
                ClaimStep::Verdict(VerifyResult::NotFound)
            }
        },
        Err(_) => ClaimStep::Verdict(VerifyResult::NotFound),
    }
}

} // verus!
