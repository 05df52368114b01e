use vstd::prelude::*;

use crate::errors::WeatherVaneError;
use crate::text::{
    eq_str, find_char, has_prefix, lemma_seg_len_is, replace_char_spec, replace_char_str, seg_len,
    strip_prefix_spec, strip_prefix_str,
};

verus! {

// ---------------------------------------------------------------------------
// DID document lookup URLs
// ---------------------------------------------------------------------------

/// The URL a plc DID document is fetched from.
pub open spec fn plc_query_url_spec(plc_hostname: Seq<char>, did: Seq<char>) -> Seq<char> {
    "https://"@ + plc_hostname + "/"@ + did
}

/// Builds the plc directory URL for `did`.
pub fn plc_query_url(plc_hostname: &str, did: &str) -> (r: String)
    ensures
        r@ == plc_query_url_spec(plc_hostname@, did@),
{
    let mut url = "https://".to_owned();
    url.append(plc_hostname);
    url.append("/");
    url.append(did);
    url
}

/// The URL a `did:web:` document is fetched from. The method-specific part
/// is split on `:`; the first piece is the host and the rest are path
/// segments. With no segments the well-known location is used, otherwise
/// `https://<host>/<path>/did.json`.
pub open spec fn web_query_url_spec(did: Seq<char>) -> Option<Seq<char>> {
    if !has_prefix(did, "did:web:"@) {
        None
    } else {
        let rest = strip_prefix_spec(did, "did:web:"@);
        let k = seg_len(rest, ':');
        if k >= rest.len() {
            Some("https://"@ + rest + "/.well-known/did.json"@)
        } else {
            Some(
                "https://"@ + rest.subrange(0, k as int) + "/"@ + replace_char_spec(
                    rest.subrange(k as int + 1, rest.len() as int),
                    ':',
                    '/',
                ) + "/did.json"@,
            )
        }
    }
}

/// Builds the document URL for a `did:web:` DID, rejecting other strings.
pub fn web_query_url(did: &str) -> (r: Result<String, WeatherVaneError>)
    ensures
        match r {
            Ok(u) => web_query_url_spec(did@) == Some(u@),
            Err(e) => web_query_url_spec(did@) is None && e.0@ == "Invalid DID"@,
        },
{
    let rest: &str = match strip_prefix_str(did, "did:web:") {
        Some(r) => r,
        None => {
            return Err(WeatherVaneError::new("Invalid DID"));
        },
    };
    match find_char(rest, ':') {
        None => {
            proof {
                lemma_seg_len_is(rest@, ':', rest@.len() as nat);
            }
            let mut url = "https://".to_owned();
            url.append(rest);
            url.append("/.well-known/did.json");
            Ok(url)
        },
        Some(i) => {
            proof {
                lemma_seg_len_is(rest@, ':', i as nat);
                reveal_strlit("/");
            }
            let ns: usize = rest.unicode_len();
            let host = rest.substring_char(0, i);
            let path = rest.substring_char(i + 1, ns);
            let path = replace_char_str(path, ':', "/");
            let mut url = "https://".to_owned();
            url.append(host);
            url.append("/");
            url.append(path.as_str());
            url.append("/did.json");
            Ok(url)
        },
    }
}

/// Decides where a subject DID's document lives: `did:plc:` subjects query
/// the configured plc host, `did:web:` subjects their own host; handles and
/// unusable inputs are rejected.
pub fn did_document_request(plc_hostname: &str, did: &str) -> (r: Result<String, WeatherVaneError>)
    ensures
        ({
            let c = crate::resolve::canonical_input(did@);
            match r {
                Ok(u) => (has_prefix(c, "did:web:"@) && web_query_url_spec(c) == Some(u@)) || (
                !has_prefix(c, "did:web:"@) && has_prefix(c, "did:plc:"@) && u@
                    == plc_query_url_spec(plc_hostname@, c)),
                Err(e) => e.0@ == "Invalid DID"@ && (c.len() == 0 || (!has_prefix(c, "did:web:"@)
                    && !has_prefix(c, "did:plc:"@))),
            }
        }),
{
    match crate::resolve::parse_input(did) {
        Ok(crate::resolve::InputType::Plc(did)) => Ok(plc_query_url(plc_hostname, did.as_str())),
        Ok(crate::resolve::InputType::Web(did)) => web_query_url(did.as_str()),
        _ => Err(WeatherVaneError::new("Invalid DID")),
    }
}

// ---------------------------------------------------------------------------
// DID documents
// ---------------------------------------------------------------------------

/// A resolved DID document: the document's id and its declared alternate
/// identities, capped at 25 entries.
pub struct DidDocument {
    pub id: String,
    pub also_known_as: Vec<String>,
}

/// The number of alsoKnownAs entries kept from a document.
pub open spec fn capped_len(n: int) -> int {
    if n <= 25 {
        n
    } else {
        25
    }
}

/// Assembles a document from its decoded parts, keeping at most the first
/// 25 alternate identities.
pub fn document_from_parts(id: String, also_known_as: Vec<String>) -> (r: DidDocument)
    ensures
        r.id == id,
        r.also_known_as.deep_view() == also_known_as.deep_view().take(
            capped_len(also_known_as.deep_view().len() as int),
        ),
{
    let ghost full = also_known_as.deep_view();
    let mut entries = also_known_as;
    if entries.len() > 25 {
        entries.truncate(25);
        proof {
            assert(entries.deep_view() =~= full.take(25));
        }
    } else {
        proof {
            assert(entries.deep_view() =~= full.take(full.len() as int));
        }
    }
    DidDocument { id, also_known_as: entries }
}

/// Whether any entry equals `subject`, character for character.
pub fn contains_subject(entries: &Vec<String>, subject: &str) -> (b: bool)
    ensures
        b == entries.deep_view().contains(subject@),
{
    let mut i: usize = 0;
    while i < entries.len()
        invariant
            i <= entries.len(),
            forall|j: int| 0 <= j < i ==> entries.deep_view()[j] != subject@,
        decreases entries.len() - i,
    {
        if eq_str(entries[i].as_str(), subject) {
            proof {
                assert(entries.deep_view()[i as int] == subject@);
            }
            return true;
        }
        i += 1;
    }
    false
}

} // verus!
