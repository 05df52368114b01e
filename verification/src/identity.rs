use vstd::prelude::*;

use crate::did::valid_hostname;
use crate::keys::{hash_key, hash_key_spec};
use crate::text::{
    eq_str, find_char, has_prefix, lemma_seg_len_is, seg_len, starts_with_str, strip_prefix_spec,
    strip_prefix_str,
};

verus! {

/// One classified identity claim, carrying its normalized string value.
#[derive(Clone, Debug)]
pub enum IdentityType {
    DIDMethodPLC(String),
    DIDMethodWeb(String),
    Handle(String),
    Domain(String),
    GitHub(String),
    Website(String),
    Unsupported(String),
}

/// The variant of an identity claim, without its value.
#[derive(Clone, Copy, Debug, PartialEq, Eq, Structural)]
pub enum IdentityTag {
    Plc,
    Web,
    Handle,
    Domain,
    GitHub,
    Website,
    Unsupported,
}

/// The variant of `id`.
pub open spec fn tag_of(id: &IdentityType) -> IdentityTag {
    match id {
        IdentityType::DIDMethodPLC(_) => IdentityTag::Plc,
        IdentityType::DIDMethodWeb(_) => IdentityTag::Web,
        IdentityType::Handle(_) => IdentityTag::Handle,
        IdentityType::Domain(_) => IdentityTag::Domain,
        IdentityType::GitHub(_) => IdentityTag::GitHub,
        IdentityType::Website(_) => IdentityTag::Website,
        IdentityType::Unsupported(_) => IdentityTag::Unsupported,
    }
}

/// Claims are the same when variant and value agree.
pub open spec fn identity_eq_spec(a: &IdentityType, b: &IdentityType) -> bool {
    tag_of(a) == tag_of(b) && a.value_spec() == b.value_spec()
}

impl PartialEq for IdentityType {
    fn eq(&self, other: &Self) -> (r: bool) {
        match (self, other) {
            (IdentityType::DIDMethodPLC(a), IdentityType::DIDMethodPLC(b)) => eq_str(
                a.as_str(),
                b.as_str(),
            ),
            (IdentityType::DIDMethodWeb(a), IdentityType::DIDMethodWeb(b)) => eq_str(
                a.as_str(),
                b.as_str(),
            ),
            (IdentityType::Handle(a), IdentityType::Handle(b)) => eq_str(a.as_str(), b.as_str()),
            (IdentityType::Domain(a), IdentityType::Domain(b)) => eq_str(a.as_str(), b.as_str()),
            (IdentityType::GitHub(a), IdentityType::GitHub(b)) => eq_str(a.as_str(), b.as_str()),
            (IdentityType::Website(a), IdentityType::Website(b)) => eq_str(a.as_str(), b.as_str()),
            (IdentityType::Unsupported(a), IdentityType::Unsupported(b)) => eq_str(
                a.as_str(),
                b.as_str(),
            ),
            _ => false,
        }
    }
}

impl vstd::std_specs::cmp::PartialEqSpecImpl for IdentityType {
    open spec fn obeys_eq_spec() -> bool {
        true
    }

    open spec fn eq_spec(&self, other: &Self) -> bool {
        identity_eq_spec(self, other)
    }
}

impl IdentityType {
    /// The inner string value of the claim.
    pub open spec fn value_spec(&self) -> Seq<char> {
        match self {
            IdentityType::DIDMethodPLC(v) => v@,
            IdentityType::DIDMethodWeb(v) => v@,
            IdentityType::Handle(v) => v@,
            IdentityType::Domain(v) => v@,
            IdentityType::GitHub(v) => v@,
            IdentityType::Website(v) => v@,
            IdentityType::Unsupported(v) => v@,
        }
    }

    /// The inner string value of the claim.
    pub fn value(&self) -> (r: &str)
        ensures
            r@ == self.value_spec(),
    {
        match self {
            IdentityType::DIDMethodPLC(v) => v.as_str(),
            IdentityType::DIDMethodWeb(v) => v.as_str(),
            IdentityType::Handle(v) => v.as_str(),
            IdentityType::Domain(v) => v.as_str(),
            IdentityType::GitHub(v) => v.as_str(),
            IdentityType::Website(v) => v.as_str(),
            IdentityType::Unsupported(v) => v.as_str(),
        }
    }

    /// A copy of the claim, equal to the original.
    pub fn duplicate(&self) -> (r: IdentityType)
        ensures
            r == *self,
    {
        match self {
            IdentityType::DIDMethodPLC(v) => IdentityType::DIDMethodPLC(v.clone()),
            IdentityType::DIDMethodWeb(v) => IdentityType::DIDMethodWeb(v.clone()),
            IdentityType::Handle(v) => IdentityType::Handle(v.clone()),
            IdentityType::Domain(v) => IdentityType::Domain(v.clone()),
            IdentityType::GitHub(v) => IdentityType::GitHub(v.clone()),
            IdentityType::Website(v) => IdentityType::Website(v.clone()),
            IdentityType::Unsupported(v) => IdentityType::Unsupported(v.clone()),
        }
    }

    /// The display string for a claim awaiting verification: its value
    /// followed by a bracketed kind marker.
    pub open spec fn pending_string_spec(&self) -> Seq<char> {
        match self {
            IdentityType::DIDMethodPLC(v) => v@ + " [DID-PLC]"@,
            IdentityType::DIDMethodWeb(v) => v@ + " [DID-WEB]"@,
            IdentityType::Handle(v) => v@ + " [Handle]"@,
            IdentityType::Domain(v) => v@ + " [DNS]"@,
            IdentityType::GitHub(v) => v@ + " [GitHub]"@,
            IdentityType::Website(v) => v@ + " [WWW]"@,
            IdentityType::Unsupported(v) => v@ + " [Unknown]"@,
        }
    }

    /// Renders the claim's pending-display string.
    pub fn pending_string(&self) -> (r: String)
        ensures
            r@ == self.pending_string_spec(),
    {
        match self {
            IdentityType::DIDMethodPLC(v) => {
                let mut out = v.clone();
                out.append(" [DID-PLC]");
                out
            },
            IdentityType::DIDMethodWeb(v) => {
                let mut out = v.clone();
                out.append(" [DID-WEB]");
                out
            },
            IdentityType::Handle(v) => {
                let mut out = v.clone();
                out.append(" [Handle]");
                out
            },
            IdentityType::Domain(v) => {
                let mut out = v.clone();
                out.append(" [DNS]");
                out
            },
            IdentityType::GitHub(v) => {
                let mut out = v.clone();
                out.append(" [GitHub]");
                out
            },
            IdentityType::Website(v) => {
                let mut out = v.clone();
                out.append(" [WWW]");
                out
            },
            IdentityType::Unsupported(v) => {
                let mut out = v.clone();
                out.append(" [Unknown]");
                out
            },
        }
    }

    /// The claim's stable display/cache key: the hash of its inner value,
    /// independent of the variant tag.
    pub fn to_key(&self) -> (r: String)
        ensures
            r@ == hash_key_spec(self.value_spec()),
    {
        hash_key(self.value())
    }
}

// ---------------------------------------------------------------------------
// Classification
// ---------------------------------------------------------------------------

/// The variant a raw string classifies to: ordered prefix matching, first
/// match wins.
pub open spec fn classify_tag(s: Seq<char>) -> IdentityTag {
    if has_prefix(s, "did:plc:"@) {
        IdentityTag::Plc
    } else if has_prefix(s, "did:web:"@) {
        IdentityTag::Web
    } else if has_prefix(s, "at://"@) {
        IdentityTag::Handle
    } else if has_prefix(s, "dns:"@) && valid_hostname(strip_prefix_spec(s, "dns:"@)) {
        IdentityTag::Domain
    } else if has_prefix(s, "https://github.com/"@) {
        // A GitHub URL names a user only through the path segment right
        // after the host; with that segment absent the claim is unsupported.
        if github_user_of(s).len() > 0 {
            IdentityTag::GitHub
        } else {
            IdentityTag::Unsupported
        }
    } else if has_prefix(s, "https://"@) || has_prefix(s, "http://"@) {
        IdentityTag::Website
    } else {
        IdentityTag::Unsupported
    }
}

/// The GitHub user named by a GitHub profile URL: the path segment right
/// after the host, up to the next slash if any.
pub open spec fn github_user_of(s: Seq<char>) -> Seq<char> {
    let rest = strip_prefix_spec(s, "https://github.com/"@);
    rest.subrange(0, seg_len(rest, '/') as int)
}

/// The value a raw string classifies to: the GitHub user for GitHub URLs,
/// the whole string otherwise.
pub open spec fn classify_value(s: Seq<char>) -> Seq<char> {
    if classify_tag(s) == IdentityTag::GitHub {
        github_user_of(s)
    } else {
        s
    }
}

/// Classifies one raw identity string.
pub fn parse_identity(value: &str) -> (r: IdentityType)
    ensures
        tag_of(&r) == classify_tag(value@),
        r.value_spec() == classify_value(value@),
{
    if starts_with_str(value, "did:plc:") {
        return IdentityType::DIDMethodPLC(value.to_owned());
    }
    if starts_with_str(value, "did:web:") {
        return IdentityType::DIDMethodWeb(value.to_owned());
    }
    if starts_with_str(value, "at://") {
        return IdentityType::Handle(value.to_owned());
    }
    if let Some(rest) = strip_prefix_str(value, "dns:") {
        if crate::did::is_valid_hostname(rest) {
            return IdentityType::Domain(value.to_owned());
        }
    }
    if let Some(rest) = strip_prefix_str(value, "https://github.com/") {
        let user: &str = match find_char(rest, '/') {
            Some(i) => {
                proof {
                    lemma_seg_len_is(rest@, '/', i as nat);
                }
                rest.substring_char(0, i)
            },
            None => {
                proof {
                    lemma_seg_len_is(rest@, '/', rest@.len() as nat);
                    assert(rest@.subrange(0, rest@.len() as int) =~= rest@);
                }
                rest
            },
        };
        if user.unicode_len() > 0 {
            return IdentityType::GitHub(user.to_owned());
        } else {
            return IdentityType::Unsupported(value.to_owned());
        }
    }
    if starts_with_str(value, "https://") || starts_with_str(value, "http://") {
        return IdentityType::Website(value.to_owned());
    }
    IdentityType::Unsupported(value.to_owned())
}

// ---------------------------------------------------------------------------
// Batch classification with order-preserving deduplication
// ---------------------------------------------------------------------------

/// The mathematical content of a claim: its variant and value.
pub open spec fn identity_model(id: &IdentityType) -> (IdentityTag, Seq<char>) {
    (tag_of(id), id.value_spec())
}

/// The models of the classifications of each raw string, in order.
pub open spec fn classified_models(values: Seq<Seq<char>>) -> Seq<(IdentityTag, Seq<char>)> {
    values.map_values(|v: Seq<char>| (classify_tag(v), classify_value(v)))
}

/// Keeps the first occurrence of each model, preserving first-seen order.
pub open spec fn dedup_models(ids: Seq<(IdentityTag, Seq<char>)>) -> Seq<(IdentityTag, Seq<char>)>
    decreases ids.len(),
{
    if ids.len() == 0 {
        Seq::empty()
    } else {
        let rest = dedup_models(ids.drop_last());
        if rest.contains(ids.last()) {
            rest
        } else {
            rest.push(ids.last())
        }
    }
}

/// Classifies a batch of raw strings, collapsing duplicates while keeping
/// first-seen order.
pub fn parse_identities(values: &Vec<String>) -> (r: Vec<IdentityType>)
    ensures
        r@.map_values(|id: IdentityType| identity_model(&id)) == dedup_models(
            classified_models(values.deep_view()),
        ),
{
    let ghost all = classified_models(values.deep_view());
    let mut out: Vec<IdentityType> = Vec::new();
    let mut i: usize = 0;
    proof {
        assert(all.subrange(0, 0) =~= Seq::<(IdentityTag, Seq<char>)>::empty());
    }
    while i < values.len()
        invariant
            i <= values.len(),
            all == classified_models(values.deep_view()),
            all.len() == values@.len(),
            out@.map_values(|id: IdentityType| identity_model(&id)) == dedup_models(
                all.subrange(0, i as int),
            ),
        decreases values.len() - i,
    {
        let id = parse_identity(values[i].as_str());
        proof {
            assert(values.deep_view()[i as int] == values@[i as int]@);
            assert(identity_model(&id) == all[i as int]);
        }
        let ghost models = out@.map_values(|x: IdentityType| identity_model(&x));
        let mut found = false;
        let mut j: usize = 0;
        while j < out.len()
            invariant
                j <= out.len(),
                models == out@.map_values(|x: IdentityType| identity_model(&x)),
                found ==> models.contains(identity_model(&id)),
                !found ==> forall|k: int| 0 <= k < j ==> models[k] != identity_model(&id),
            decreases out.len() - j,
        {
            if out[j].eq(&id) {
                proof {
                    assert(models[j as int] == identity_model(&id));
                }
                found = true;
            }
            j += 1;
        }
        proof {
            assert(all.subrange(0, i + 1).drop_last() =~= all.subrange(0, i as int));
            assert(all.subrange(0, i + 1).last() == all[i as int]);
        }
        if !found {
            out.push(id);
            proof {
                assert(out@.map_values(|x: IdentityType| identity_model(&x)) =~= models.push(
                    all[i as int],
                ));
            }
        }
        i += 1;
    }
    proof {
        assert(all.subrange(0, values@.len() as int) =~= all);
    }
    out
}

} // verus!
