use vstd::prelude::*;

use crate::text::{
    ends_with_str, contains_char, has_prefix, has_suffix, strip_prefix_spec, strip_prefix_str,
};

verus! {

// ---------------------------------------------------------------------------
// Hostname validity
// ---------------------------------------------------------------------------

/// Characters allowed in a hostname: ASCII letters, digits, `-` and `.`.
pub open spec fn is_host_char(c: char) -> bool {
    let u = c as u32;
    (97 <= u && u <= 122) || (65 <= u && u <= 90) || (48 <= u && u <= 57) || c == '-' || c == '.'
}

/// Hostnames under these suffixes name local or reserved zones and are
/// rejected.
pub open spec fn has_forbidden_suffix(s: Seq<char>) -> bool {
    has_suffix(s, ".localhost"@) || has_suffix(s, ".internal"@) || has_suffix(s, ".arpa"@)
        || has_suffix(s, ".local"@)
}

/// No dot-separated label of `s` is empty: `s` neither starts nor ends with a
/// dot, and no two dots are adjacent.
pub open spec fn no_empty_label(s: Seq<char>) -> bool {
    s.len() > 0 ==> s[0] != '.' && s.last() != '.' && (forall|j: int|
        0 < j < s.len() ==> !(s[j - 1] == '.' && #[trigger] s[j] == '.'))
}

/// No dot appears in `s` at an index in `[a, b)`.
pub open spec fn dot_free(s: Seq<char>, a: int, b: int) -> bool {
    forall|k: int| a <= k < b ==> #[trigger] s[k] != '.'
}

/// Every dot-separated label of `s` has at most 63 characters; equivalently,
/// no window of 64 consecutive characters is free of dots.
pub open spec fn labels_within_63(s: Seq<char>) -> bool {
    forall|a: int| 0 <= a && a + 64 <= s.len() ==> !#[trigger] dot_free(s, a, a + 64)
}

/// No dot-separated label of `s` starts or ends with a hyphen.
pub open spec fn no_label_hyphen_edges(s: Seq<char>) -> bool {
    s.len() > 0 ==> s[0] != '-' && s.last() != '-' && (forall|j: int|
        0 < j < s.len() ==> (#[trigger] s[j] == '.' ==> s[j - 1] != '-')) && (forall|j: int|
        0 <= j < s.len() - 1 ==> (#[trigger] s[j] == '.' ==> s[j + 1] != '-'))
}

/// A syntactically valid hostname: 1 to 253 allowed characters, labels of 1
/// to 63 characters that do not start or end with a hyphen, and not under a
/// local or reserved suffix.
pub open spec fn valid_hostname(s: Seq<char>) -> bool {
    &&& 1 <= s.len() <= 253
    &&& !has_forbidden_suffix(s)
    &&& (forall|j: int| 0 <= j < s.len() ==> is_host_char(s[j]))
    &&& no_empty_label(s)
    &&& labels_within_63(s)
    &&& no_label_hyphen_edges(s)
}

/// Whether `c` may appear in a hostname.
fn host_char(c: char) -> (b: bool)
    ensures
        b == is_host_char(c),
{
    let u = c as u32;
    (97 <= u && u <= 122) || (65 <= u && u <= 90) || (48 <= u && u <= 57) || c == '-' || c == '.'
}

/// Decides hostname validity in one pass over the characters.
pub fn is_valid_hostname(hostname: &str) -> (b: bool)
    ensures
        b == valid_hostname(hostname@),
{
    let ns: usize = hostname.unicode_len();
    if ns == 0 || ns > 253 {
        return false;
    }
    if ends_with_str(hostname, ".localhost") || ends_with_str(hostname, ".internal")
        || ends_with_str(hostname, ".arpa") || ends_with_str(hostname, ".local") {
        return false;
    }
    let first = hostname.get_char(0);
    if first == '.' || first == '-' {
        return false;
    }
    let last = hostname.get_char(ns - 1);
    if last == '.' || last == '-' {
        return false;
    }
    let mut i: usize = 0;
    let mut run: usize = 0;
    while i < ns
        invariant
            i <= ns,
            ns == hostname@.len(),
            run <= i,
            run <= 63,
            hostname@[0] != '.',
            hostname@[0] != '-',
            hostname@[ns - 1] != '.',
            hostname@[ns - 1] != '-',
            forall|j: int| i - run <= j < i ==> #[trigger] hostname@[j] != '.',
            run == i || hostname@[i - run - 1] == '.',
            forall|j: int| 0 <= j < i ==> is_host_char(#[trigger] hostname@[j]),
            forall|j: int|
                0 < j < i ==> !(hostname@[j - 1] == '.' && #[trigger] hostname@[j] == '.'),
            forall|j: int|
                0 < j < i ==> (#[trigger] hostname@[j] == '.' ==> hostname@[j - 1] != '-'),
            forall|j: int|
                0 <= j < i - 1 ==> (#[trigger] hostname@[j] == '.' ==> hostname@[j + 1] != '-'),
            forall|a: int| 0 <= a && a + 64 <= i ==> !#[trigger] dot_free(hostname@, a, a + 64),
        decreases ns - i,
    {
        let c = hostname.get_char(i);
        if !host_char(c) {
            return false;
        }
        if c == '.' {
            if run == 0 {
                // The first character is not a dot, so this dot follows
                // another dot: an empty label.
                return false;
            }
            if hostname.get_char(i - 1) == '-' {
                return false;
            }
            run = 0;
        } else {
            if c == '-' && run == 0 {
                // A label (or the whole name) starts with a hyphen.
                return false;
            }
            if run == 63 {
                // 64 consecutive characters without a dot: a label longer
                // than 63 characters.
                proof {
                    let a = i - 63;
                    assert(dot_free(hostname@, a, a + 64));
                    assert(!labels_within_63(hostname@));
                }
                return false;
            }
            run += 1;
        }
        i += 1;
    }
    true
}

// ---------------------------------------------------------------------------
// Handle validity
// ---------------------------------------------------------------------------

/// A candidate handle with an optional leading `at://` or `@` removed.
pub open spec fn strip_handle_prefix(s: Seq<char>) -> Seq<char> {
    if has_prefix(s, "at://"@) {
        strip_prefix_spec(s, "at://"@)
    } else if has_prefix(s, "@"@) {
        strip_prefix_spec(s, "@"@)
    } else {
        s
    }
}

/// A handle is valid when, after the optional prefix is stripped, it is a
/// valid hostname containing at least one dot.
pub open spec fn valid_handle(s: Seq<char>) -> bool {
    valid_hostname(strip_handle_prefix(s)) && strip_handle_prefix(s).contains('.')
}

/// Validates a handle; on success returns the stripped hostname.
pub fn is_valid_handle(handle: &str) -> (r: Option<String>)
    ensures
        match r {
            Some(t) => valid_handle(handle@) && t@ == strip_handle_prefix(handle@),
            None => !valid_handle(handle@),
        },
{
    let trimmed: &str = if let Some(value) = strip_prefix_str(handle, "at://") {
        value
    } else if let Some(value) = strip_prefix_str(handle, "@") {
        value
    } else {
        handle
    };
    if is_valid_hostname(trimmed) && contains_char(trimmed, '.') {
        Some(trimmed.to_owned())
    } else {
        None
    }
}

} // verus!
