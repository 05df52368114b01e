use vstd::prelude::*;

verus! {

// ---------------------------------------------------------------------------
// Spec-level string predicates
// ---------------------------------------------------------------------------

/// `p` is a prefix of `s`.
pub open spec fn has_prefix(s: Seq<char>, p: Seq<char>) -> bool {
    p.len() <= s.len() && s.subrange(0, p.len() as int) == p
}

/// `p` is a suffix of `s`.
pub open spec fn has_suffix(s: Seq<char>, p: Seq<char>) -> bool {
    p.len() <= s.len() && s.subrange(s.len() - p.len(), s.len() as int) == p
}

/// What remains of `s` once the prefix `p` is removed.
pub open spec fn strip_prefix_spec(s: Seq<char>, p: Seq<char>) -> Seq<char>
    recommends
        has_prefix(s, p),
{
    s.subrange(p.len() as int, s.len() as int)
}

// ---------------------------------------------------------------------------
// Exec comparisons
// ---------------------------------------------------------------------------

/// Whether `s` starts with `p`, decided character by character.
pub fn starts_with_str(s: &str, p: &str) -> (b: bool)
    ensures
        b == has_prefix(s@, p@),
{
    let np: usize = p.unicode_len();
    let ns: usize = s.unicode_len();
    if np > ns {
        return false;
    }
    let mut i: usize = 0;
    while i < np
        invariant
            i <= np <= ns,
            np == p@.len(),
            ns == s@.len(),
            forall|j: int| 0 <= j < i ==> s@[j] == p@[j],
        decreases np - i,
    {
        if s.get_char(i) != p.get_char(i) {
            proof {
                assert(s@.subrange(0, np as int)[i as int] != p@[i as int]);
            }
            return false;
        }
        i += 1;
    }
    proof {
        assert(s@.subrange(0, np as int) =~= p@);
    }
    true
}

/// Whether `s` ends with `p`.
pub fn ends_with_str(s: &str, p: &str) -> (b: bool)
    ensures
        b == has_suffix(s@, p@),
{
    let np: usize = p.unicode_len();
    let ns: usize = s.unicode_len();
    if np > ns {
        return false;
    }
    let off: usize = ns - np;
    let mut i: usize = 0;
    while i < np
        invariant
            i <= np <= ns,
            off == ns - np,
            np == p@.len(),
            ns == s@.len(),
            forall|j: int| 0 <= j < i ==> s@[off + j] == p@[j],
        decreases np - i,
    {
        if s.get_char(off + i) != p.get_char(i) {
            proof {
                assert(s@.subrange(s@.len() - p@.len(), s@.len() as int)[i as int] != p@[i as int]);
            }
            return false;
        }
        i += 1;
    }
    proof {
        assert(s@.subrange(s@.len() - p@.len(), s@.len() as int) =~= p@);
    }
    true
}

/// Whether two string slices hold the same characters.
pub fn eq_str(a: &str, b: &str) -> (r: bool)
    ensures
        r == (a@ == b@),
{
    let na: usize = a.unicode_len();
    let nb: usize = b.unicode_len();
    if na != nb {
        return false;
    }
    let mut i: usize = 0;
    while i < na
        invariant
            i <= na,
            na == a@.len(),
            na == b@.len(),
            forall|j: int| 0 <= j < i ==> a@[j] == b@[j],
        decreases na - i,
    {
        if a.get_char(i) != b.get_char(i) {
            return false;
        }
        i += 1;
    }
    proof {
        assert(a@ =~= b@);
    }
    true
}

/// Whether `s` contains the character `c`.
pub fn contains_char(s: &str, c: char) -> (b: bool)
    ensures
        b == s@.contains(c),
{
    let ns: usize = s.unicode_len();
    let mut i: usize = 0;
    while i < ns
        invariant
            i <= ns,
            ns == s@.len(),
            forall|j: int| 0 <= j < i ==> s@[j] != c,
        decreases ns - i,
    {
        if s.get_char(i) == c {
            return true;
        }
        i += 1;
    }
    false
}

/// The index of the first occurrence of `c` in `s`, if any.
pub fn find_char(s: &str, c: char) -> (r: Option<usize>)
    ensures
        match r {
            Some(i) => i < s@.len() && s@[i as int] == c && (forall|j: int|
                0 <= j < i ==> s@[j] != c),
            None => forall|j: int| 0 <= j < s@.len() ==> s@[j] != c,
        },
{
    let ns: usize = s.unicode_len();
    let mut i: usize = 0;
    while i < ns
        invariant
            i <= ns,
            ns == s@.len(),
            forall|j: int| 0 <= j < i ==> s@[j] != c,
        decreases ns - i,
    {
        if s.get_char(i) == c {
            return Some(i);
        }
        i += 1;
    }
    None
}

// ---------------------------------------------------------------------------
// Whitespace trimming
// ---------------------------------------------------------------------------

/// The Unicode `White_Space` characters, the set that `str::trim` removes.
pub open spec fn is_space_char(c: char) -> bool {
    let u = c as u32;
    (9 <= u && u <= 13) || u == 32 || u == 0x85 || u == 0xA0 || u == 0x1680 || (0x2000 <= u && u
        <= 0x200A) || u == 0x2028 || u == 0x2029 || u == 0x202F || u == 0x205F || u == 0x3000
}

/// `s` with leading and trailing whitespace removed.
pub open spec fn trim_spec(s: Seq<char>) -> Seq<char>
    decreases s.len(),
{
    if s.len() > 0 && is_space_char(s[0]) {
        trim_spec(s.drop_first())
    } else if s.len() > 0 && is_space_char(s.last()) {
        trim_spec(s.drop_last())
    } else {
        s
    }
}

/// Whether `c` is one of the Unicode whitespace characters.
pub fn is_space(c: char) -> (b: bool)
    ensures
        b == is_space_char(c),
{
    let u = c as u32;
    (9 <= u && u <= 13) || u == 32 || u == 0x85 || u == 0xA0 || u == 0x1680 || (0x2000 <= u && u
        <= 0x200A) || u == 0x2028 || u == 0x2029 || u == 0x202F || u == 0x205F || u == 0x3000
}

proof fn lemma_trim_range(s: Seq<char>, start: int, end: int)
    requires
        0 <= start <= end <= s.len(),
        forall|j: int| 0 <= j < start ==> is_space_char(s[j]),
        forall|j: int| end <= j < s.len() ==> is_space_char(s[j]),
        start < end ==> !is_space_char(s[start]) && !is_space_char(s[end - 1]),
    ensures
        trim_spec(s) == s.subrange(start, end),
    decreases s.len(),
{
    if s.len() == 0 {
        assert(s.subrange(0, 0) =~= s);
    } else if is_space_char(s[0]) {
        if start > 0 {
            lemma_trim_range(s.drop_first(), start - 1, end - 1);
            assert(s.drop_first().subrange(start - 1, end - 1) =~= s.subrange(start, end));
        } else {
            // start == 0 and s[0] is a space, so start == end and every
            // character of s is a space.
            assert(start == end);
            lemma_trim_range(s.drop_first(), 0, 0);
            assert(s.drop_first().subrange(0, 0) =~= s.subrange(start, end));
        }
    } else if is_space_char(s.last()) {
        // s[0] is not a space, so start == 0; the last character is a space,
        // so end < s.len().
        assert(start == 0);
        assert(end < s.len());
        lemma_trim_range(s.drop_last(), start, end);
        assert(s.drop_last().subrange(start, end) =~= s.subrange(start, end));
    } else {
        assert(start == 0);
        assert(end == s.len());
        assert(s.subrange(0, s.len() as int) =~= s);
    }
}

/// `s` with leading and trailing whitespace removed, as `str::trim` does.
pub fn trim_str<'a>(s: &'a str) -> (r: &'a str)
    ensures
        r@ == trim_spec(s@),
{
    let ns: usize = s.unicode_len();
    let mut start: usize = 0;
    while start < ns && is_space(s.get_char(start))
        invariant
            start <= ns,
            ns == s@.len(),
            forall|j: int| 0 <= j < start ==> is_space_char(s@[j]),
        decreases ns - start,
    {
        start += 1;
    }
    let mut end: usize = ns;
    while end > start && is_space(s.get_char(end - 1))
        invariant
            start <= end <= ns,
            ns == s@.len(),
            forall|j: int| 0 <= j < start ==> is_space_char(s@[j]),
            forall|j: int| end <= j < ns ==> is_space_char(s@[j]),
            start < ns ==> !is_space_char(s@[start as int]),
        decreases end,
    {
        end -= 1;
    }
    proof {
        lemma_trim_range(s@, start as int, end as int);
    }
    s.substring_char(start, end)
}

// ---------------------------------------------------------------------------
// Character replacement
// ---------------------------------------------------------------------------

/// `s` with every occurrence of `from` replaced by `to`.
pub open spec fn replace_char_spec(s: Seq<char>, from: char, to: char) -> Seq<char> {
    Seq::new(s.len(), |i: int| if s[i] == from { to } else { s[i] })
}

/// Appends the single character `s[i]` to `out`.
pub fn push_char_of(out: &mut String, s: &str, i: usize)
    requires
        i < s@.len(),
        i < usize::MAX,
    ensures
        final(out)@ == old(out)@ + seq![s@[i as int]],
{
    let piece = s.substring_char(i, i + 1);
    proof {
        assert(piece@ =~= seq![s@[i as int]]);
    }
    out.append(piece);
}

/// `s` with every occurrence of `from` replaced by the single character of
/// `rep`.
pub fn replace_char_str(s: &str, from: char, rep: &str) -> (r: String)
    requires
        rep@.len() == 1,
    ensures
        r@ == replace_char_spec(s@, from, rep@[0]),
{
    let ns: usize = s.unicode_len();
    let mut out = String::new();
    let mut i: usize = 0;
    while i < ns
        invariant
            i <= ns,
            ns == s@.len(),
            rep@.len() == 1,
            out@ =~= replace_char_spec(s@, from, rep@[0]).subrange(0, i as int),
        decreases ns - i,
    {
        if s.get_char(i) == from {
            out.append(rep);
        } else {
            push_char_of(&mut out, s, i);
        }
        proof {
            assert(out@ =~= replace_char_spec(s@, from, rep@[0]).subrange(0, i + 1));
        }
        i += 1;
    }
    proof {
        assert(replace_char_spec(s@, from, rep@[0]).subrange(0, ns as int) =~= replace_char_spec(
            s@,
            from,
            rep@[0],
        ));
    }
    out
}

// ---------------------------------------------------------------------------
// Separator-delimited segments
// ---------------------------------------------------------------------------

/// The length of the leading run of characters of `s` that are not `sep`.
pub open spec fn seg_len(s: Seq<char>, sep: char) -> nat
    decreases s.len(),
{
    if s.len() == 0 || s[0] == sep {
        0
    } else {
        1 + seg_len(s.drop_first(), sep)
    }
}

/// The maximal nonempty runs of `s` between occurrences of `sep`, in order.
/// Empty runs (adjacent, leading or trailing separators) are left out.
pub open spec fn nonempty_segments(s: Seq<char>, sep: char) -> Seq<Seq<char>>
    decreases s.len(),
{
    if s.len() == 0 {
        Seq::empty()
    } else {
        let k = seg_len(s, sep);
        if k == 0 {
            nonempty_segments(s.drop_first(), sep)
        } else if k >= s.len() {
            seq![s]
        } else {
            seq![s.subrange(0, k as int)] + nonempty_segments(
                s.subrange(k + 1 as int, s.len() as int),
                sep,
            )
        }
    }
}

pub proof fn lemma_seg_len_is(s: Seq<char>, sep: char, m: nat)
    requires
        m <= s.len(),
        forall|j: int| 0 <= j < m ==> s[j] != sep,
        m < s.len() ==> s[m as int] == sep,
    ensures
        seg_len(s, sep) == m,
    decreases m,
{
    if m == 0 {
    } else {
        lemma_seg_len_is(s.drop_first(), sep, (m - 1) as nat);
    }
}

/// Splits `s` on `sep`, keeping only the nonempty pieces.
pub fn split_nonempty(s: &str, sep: char) -> (r: Vec<String>)
    ensures
        r.deep_view() == nonempty_segments(s@, sep),
{
    let ns: usize = s.unicode_len();
    let mut out: Vec<String> = Vec::new();
    let mut seg_start: usize = 0;
    let mut i: usize = 0;
    proof {
        assert(s@.subrange(0, ns as int) =~= s@);
        assert(out.deep_view() + nonempty_segments(s@, sep) =~= nonempty_segments(s@, sep));
    }
    while i < ns
        invariant
            seg_start <= i <= ns,
            ns == s@.len(),
            forall|j: int| seg_start <= j < i ==> s@[j] != sep,
            nonempty_segments(s@, sep) == out.deep_view() + nonempty_segments(
                s@.subrange(seg_start as int, ns as int),
                sep,
            ),
        decreases ns - i,
    {
        if s.get_char(i) == sep {
            let ghost suffix = s@.subrange(seg_start as int, ns as int);
            proof {
                lemma_seg_len_is(suffix, sep, (i - seg_start) as nat);
            }
            if i > seg_start {
                let piece = s.substring_char(seg_start, i).to_owned();
                proof {
                    assert(suffix.subrange(0, i - seg_start) =~= s@.subrange(
                        seg_start as int,
                        i as int,
                    ));
                    assert(suffix.subrange(i - seg_start + 1, suffix.len() as int) =~= s@.subrange(
                        i + 1,
                        ns as int,
                    ));
                }
                let ghost old_out = out.deep_view();
                out.push(piece);
                proof {
                    assert(out.deep_view() =~= old_out.push(s@.subrange(
                        seg_start as int,
                        i as int,
                    )));
                    assert(out.deep_view() + nonempty_segments(s@.subrange(i + 1, ns as int), sep)
                        =~= old_out + (seq![
                        s@.subrange(seg_start as int, i as int),
                    ] + nonempty_segments(s@.subrange(i + 1, ns as int), sep)));
                }
            } else {
                proof {
                    assert(suffix.drop_first() =~= s@.subrange(i + 1, ns as int));
                }
            }
            seg_start = i + 1;
        }
        i += 1;
    }
    let ghost suffix = s@.subrange(seg_start as int, ns as int);
    if seg_start < ns {
        proof {
            lemma_seg_len_is(suffix, sep, (ns - seg_start) as nat);
        }
        let piece = s.substring_char(seg_start, ns).to_owned();
        let ghost old_out = out.deep_view();
        out.push(piece);
        proof {
            assert(out.deep_view() =~= old_out.push(suffix));
            assert(out.deep_view() =~= old_out + seq![suffix]);
        }
    } else {
        proof {
            assert(out.deep_view() + nonempty_segments(suffix, sep) =~= out.deep_view());
        }
    }
    out
}

/// Removes the prefix `p` from `s` when present.
pub fn strip_prefix_str<'a>(s: &'a str, p: &str) -> (r: Option<&'a str>)
    ensures
        match r {
            Some(t) => has_prefix(s@, p@) && t@ == strip_prefix_spec(s@, p@),
            None => !has_prefix(s@, p@),
        },
{
    if starts_with_str(s, p) {
        Some(s.substring_char(p.unicode_len(), s.unicode_len()))
    } else {
        None
    }
}

} // verus!
