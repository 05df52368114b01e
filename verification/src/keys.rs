use vstd::prelude::*;

verus! {

// ---------------------------------------------------------------------------
// CityHash-based cache keys
// ---------------------------------------------------------------------------

/// The 64-bit CityHash of a string's UTF-8 bytes: a function of the
/// characters alone.
pub uninterp spec fn city64_of(s: Seq<char>) -> u64;

/// Relies on cityhasher::hash::<u64>, the CityHash64 algorithm: its result
/// depends only on the input bytes.
#[verifier::external_body]
fn city_hash64(value: &str) -> (r: u64)
    ensures
        r == city64_of(value@),
{
    cityhasher::hash::<u64>(value)
}

/// The decimal digit character for `d`.
pub open spec fn digit_char(d: nat) -> char
    recommends
        d < 10,
{
    if d == 0 {
        '0'
    } else if d == 1 {
        '1'
    } else if d == 2 {
        '2'
    } else if d == 3 {
        '3'
    } else if d == 4 {
        '4'
    } else if d == 5 {
        '5'
    } else if d == 6 {
        '6'
    } else if d == 7 {
        '7'
    } else if d == 8 {
        '8'
    } else {
        '9'
    }
}

/// The decimal digits of `n`, most significant first, with no leading zeros
/// (zero itself is the single digit `0`).
pub open spec fn decimal_of(n: nat) -> Seq<char>
    decreases n,
{
    if n < 10 {
        seq![digit_char(n)]
    } else {
        decimal_of(n / 10).push(digit_char(n % 10))
    }
}

fn digit_str(d: u64) -> (r: &'static str)
    requires
        d < 10,
    ensures
        r@ == seq![digit_char(d as nat)],
{
    proof {
        reveal_strlit("0");
        reveal_strlit("1");
        reveal_strlit("2");
        reveal_strlit("3");
        reveal_strlit("4");
        reveal_strlit("5");
        reveal_strlit("6");
        reveal_strlit("7");
        reveal_strlit("8");
        reveal_strlit("9");
    }
    let r = match d {
        0 => "0",
        1 => "1",
        2 => "2",
        3 => "3",
        4 => "4",
        5 => "5",
        6 => "6",
        7 => "7",
        8 => "8",
        _ => "9",
    };
    proof {
        assert(r@ =~= seq![digit_char(d as nat)]);
    }
    r
}

/// Renders `n` in decimal.
pub fn u64_to_decimal(n: u64) -> (r: String)
    ensures
        r@ == decimal_of(n as nat),
    decreases n,
{
    if n < 10 {
        digit_str(n).to_owned()
    } else {
        let mut prefix = u64_to_decimal(n / 10);
        prefix.append(digit_str(n % 10));
        proof {
            assert(prefix@ =~= decimal_of(n as nat));
        }
        prefix
    }
}

/// The cache key derived from a string: the decimal rendering of its
/// CityHash64.
pub open spec fn hash_key_spec(s: Seq<char>) -> Seq<char> {
    decimal_of(city64_of(s) as nat)
}

/// Hashes `value` and renders the hash in decimal, as cache keys require.
pub fn hash_key(value: &str) -> (r: String)
    ensures
        r@ == hash_key_spec(value@),
{
    u64_to_decimal(city_hash64(value))
}

} // verus!
