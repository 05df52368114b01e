use vstd::prelude::*;

use crate::errors::WeatherVaneError;
use crate::text::{has_prefix, nonempty_segments, split_nonempty, starts_with_str};

verus! {

// ---------------------------------------------------------------------------
// Decimal port parsing
// ---------------------------------------------------------------------------

/// Whether `c` is a decimal digit.
pub open spec fn is_digit(c: char) -> bool {
    48 <= c as u32 <= 57
}

/// The numeric value of a digit character.
pub open spec fn digit_val(c: char) -> int
    recommends
        is_digit(c),
{
    c as u32 - 48
}

/// Every character of `s` is a decimal digit.
pub open spec fn all_digits(s: Seq<char>) -> bool {
    forall|i: int| 0 <= i < s.len() ==> is_digit(#[trigger] s[i])
}

/// The value of a digit string, most significant digit first.
pub open spec fn digits_val(s: Seq<char>) -> int
    decreases s.len(),
{
    if s.len() == 0 {
        0
    } else {
        digits_val(s.drop_last()) * 10 + digit_val(s.last())
    }
}

/// The digits of a number string: everything after one optional leading `+`.
pub open spec fn numeric_part(s: Seq<char>) -> Seq<char> {
    if has_prefix(s, "+"@) {
        s.subrange(1, s.len() as int)
    } else {
        s
    }
}

/// What parsing a `u16` from a string yields: after an optional `+`, one or
/// more digits whose value fits in 16 bits.
pub open spec fn parse_u16_spec(s: Seq<char>) -> Option<u16> {
    let d = numeric_part(s);
    if d.len() > 0 && all_digits(d) && 0 <= digits_val(d) <= 65535 {
        Some(digits_val(d) as u16)
    } else {
        None
    }
}

proof fn lemma_digits_val_bounds(d: Seq<char>)
    requires
        all_digits(d),
    ensures
        digits_val(d) >= 0,
    decreases d.len(),
{
    if d.len() > 0 {
        assert(all_digits(d.drop_last()));
        lemma_digits_val_bounds(d.drop_last());
    }
}

proof fn lemma_digits_val_monotone(d: Seq<char>, k: int)
    requires
        all_digits(d),
        0 <= k <= d.len(),
    ensures
        digits_val(d) >= digits_val(d.subrange(0, k)),
    decreases d.len() - k,
{
    if k == d.len() {
        assert(d.subrange(0, d.len() as int) =~= d);
    } else {
        lemma_digits_val_monotone(d, k + 1);
        assert(d.subrange(0, k + 1).drop_last() =~= d.subrange(0, k));
        assert(all_digits(d.subrange(0, k)));
        lemma_digits_val_bounds(d.subrange(0, k));
        assert(digits_val(d.subrange(0, k + 1)) == digits_val(d.subrange(0, k)) * 10 + digit_val(
            d[k],
        ));
    }
}

/// Parses an unsigned 16-bit number as `str::parse::<u16>` does: an optional
/// leading `+`, then decimal digits, rejecting overflow.
pub fn parse_u16(s: &str) -> (r: Option<u16>)
    ensures
        r == parse_u16_spec(s@),
{
    proof {
        reveal_strlit("+");
    }
    let ns: usize = s.unicode_len();
    let start: usize = if starts_with_str(s, "+") {
        1
    } else {
        0
    };
    let ghost d = numeric_part(s@);
    proof {
        assert(d =~= s@.subrange(start as int, ns as int));
    }
    if start >= ns {
        return None;
    }
    let mut acc: u32 = 0;
    let mut i: usize = start;
    while i < ns
        invariant
            start <= i <= ns,
            ns == s@.len(),
            d == numeric_part(s@),
            d == s@.subrange(start as int, ns as int),
            acc <= 65535,
            all_digits(d.subrange(0, i - start)),
            acc as int == digits_val(d.subrange(0, i - start)),
        decreases ns - i,
    {
        let c = s.get_char(i);
        let u = c as u32;
        proof {
            assert(d[i - start] == s@[i as int]);
        }
        if !(48 <= u && u <= 57) {
            proof {
                assert(!is_digit(d[i - start]));
                assert(!all_digits(d));
            }
            return None;
        }
        let ghost pre = d.subrange(0, i - start);
        acc = acc * 10 + (u - 48);
        proof {
            assert(d.subrange(0, i + 1 - start).drop_last() =~= pre);
            assert(digits_val(d.subrange(0, i + 1 - start)) == digits_val(pre) * 10 + digit_val(
                d[i - start],
            ));
        }
        if acc > 65535 {
            proof {
                if all_digits(d) {
                    lemma_digits_val_monotone(d, i + 1 - start);
                }
            }
            return None;
        }
        i += 1;
    }
    proof {
        assert(d.subrange(0, ns - start) =~= d);
    }
    Some(acc as u16)
}

// ---------------------------------------------------------------------------
// Configuration values
// ---------------------------------------------------------------------------

/// The TCP port the HTTP server listens on.
#[derive(Clone, Debug)]
pub struct HttpPort(u16);

impl HttpPort {
    /// The port number.
    pub closed spec fn spec_port(&self) -> u16 {
        self.0
    }

    /// Parses a port value: an empty string falls back to port 80.
    pub fn try_from(value: String) -> (r: Result<HttpPort, WeatherVaneError>)
        ensures
            match r {
                Ok(p) => {
                    if value@.len() == 0 {
                        p.spec_port() == 80
                    } else {
                        parse_u16_spec(value@) == Some(p.spec_port())
                    }
                },
                Err(e) => value@.len() > 0 && parse_u16_spec(value@) is None && e.0@
                    == "parsing PORT into u16 failed"@,
            },
    {
        if value.as_str().unicode_len() == 0 {
            Ok(HttpPort(80))
        } else {
            match parse_u16(value.as_str()) {
                Some(port) => Ok(HttpPort(port)),
                None => Err(WeatherVaneError::new("parsing PORT into u16 failed")),
            }
        }
    }

    /// The port number, by reference.
    pub fn as_ref(&self) -> (r: &u16)
        ensures
            *r == self.spec_port(),
    {
        &self.0
    }
}

/// Paths of extra trusted certificate bundles, from a `;`-separated list.
#[derive(Clone, Debug)]
pub struct CertificateBundles(Vec<String>);

impl CertificateBundles {
    /// The bundle paths.
    pub closed spec fn bundles(&self) -> Seq<Seq<char>> {
        self.0.deep_view()
    }

    /// Splits a `;`-separated list of paths, dropping empty pieces.
    pub fn try_from(value: String) -> (r: Result<CertificateBundles, WeatherVaneError>)
        ensures
            r matches Ok(c) && c.bundles() == nonempty_segments(value@, ';'),
    {
        Ok(CertificateBundles(split_nonempty(value.as_str(), ';')))
    }

    /// The bundle paths, by reference.
    pub fn as_ref(&self) -> (r: &Vec<String>)
        ensures
            r.deep_view() == self.bundles(),
    {
        &self.0
    }
}

/// The raw environment values the configuration is assembled from; `None`
/// where the variable is unset.
pub struct EnvValues {
    pub http_port: Option<String>,
    pub external_base: Option<String>,
    pub certificate_bundles: Option<String>,
    pub user_agent: Option<String>,
    pub plc_hostname: Option<String>,
    pub git_hash: Option<String>,
    pub cargo_pkg_version: Option<String>,
}

/// An optional value, or its default.
pub open spec fn env_or(o: Option<String>, d: Seq<char>) -> Seq<char> {
    match o {
        Some(s) => s@,
        None => d,
    }
}

/// The version string: the build hash when set, else the package version.
pub fn version(git_hash: &Option<String>, cargo_pkg_version: &Option<String>) -> (r: Result<
    String,
    WeatherVaneError,
>)
    ensures
        match r {
            Ok(v) => match git_hash {
                Some(g) => v@ == g@,
                None => cargo_pkg_version matches Some(p) && v@ == p@,
            },
            Err(e) => git_hash is None && cargo_pkg_version is None && e.0@
                == "one of GIT_HASH or CARGO_PKG_VERSION must be set"@,
        },
{
    match git_hash {
        Some(g) => Ok(g.clone()),
        None => match cargo_pkg_version {
            Some(p) => Ok(p.clone()),
            None => Err(WeatherVaneError::new("one of GIT_HASH or CARGO_PKG_VERSION must be set")),
        },
    }
}

/// The default user agent, naming the service and its version.
pub open spec fn default_user_agent(v: Seq<char>) -> Seq<char> {
    "weathervane ("@ + v + "; +https://github.com/astrenoxcoop/weathervane)"@
}

/// The assembled service configuration.
#[derive(Clone, Debug)]
pub struct Config {
    pub version: String,
    pub http_port: HttpPort,
    pub external_base: String,
    pub certificate_bundles: CertificateBundles,
    pub user_agent: String,
    pub plc_hostname: String,
}

impl Config {
    /// Assembles the configuration from raw environment values: the port
    /// defaults to 4060, the external base is required, the plc hostname
    /// defaults to `plc.directory`, and the version comes from the build
    /// hash or the package version.
    pub fn new(env: &EnvValues) -> (r: Result<Config, WeatherVaneError>)
        ensures
            ({
                let port_raw = env_or(env.http_port, "4060"@);
                let ver_ok = !(env.git_hash is None && env.cargo_pkg_version is None);
                let port_ok = port_raw.len() == 0 || parse_u16_spec(port_raw) is Some;
                match r {
                    Ok(c) => {
                        &&& (if port_raw.len() == 0 {
                            c.http_port.spec_port() == 80
                        } else {
                            parse_u16_spec(port_raw) == Some(c.http_port.spec_port())
                        })
                        &&& env.external_base matches Some(b) && c.external_base@ == b@
                        &&& c.certificate_bundles.bundles() == nonempty_segments(
                            env_or(env.certificate_bundles, Seq::empty()),
                            ';',
                        )
                        &&& (match env.git_hash {
                            Some(g) => c.version@ == g@,
                            None => env.cargo_pkg_version matches Some(p) && c.version@ == p@,
                        })
                        &&& (match env.user_agent {
                            Some(u) => c.user_agent@ == u@,
                            None => c.user_agent@ == default_user_agent(c.version@),
                        })
                        &&& c.plc_hostname@ == env_or(env.plc_hostname, "plc.directory"@)
                    },
                    Err(e) => {
                        ||| !port_ok && e.0@ == "parsing PORT into u16 failed"@
                        ||| port_ok && env.external_base is None && e.0@
                            == "EXTERNAL_BASE must be set"@
                        ||| port_ok && env.external_base is Some && !ver_ok && e.0@
                            == "one of GIT_HASH or CARGO_PKG_VERSION must be set"@
                    },
                }
            }),
    {
        let port_raw: &str = match &env.http_port {
            Some(s) => s.as_str(),
            None => "4060",
        };
        let http_port = match HttpPort::try_from(port_raw.to_owned()) {
            Ok(p) => p,
            Err(e) => {
                return Err(e);
            },
        };
        let external_base: String = match &env.external_base {
            Some(b) => b.clone(),
            None => {
                return Err(WeatherVaneError::new("EXTERNAL_BASE must be set"));
            },
        };
        let bundles_raw: &str = match &env.certificate_bundles {
            Some(s) => s.as_str(),
            None => "",
        };
        proof {
            reveal_strlit("");
            assert(""@ =~= Seq::<char>::empty());
        }
        let certificate_bundles = match CertificateBundles::try_from(bundles_raw.to_owned()) {
            Ok(c) => c,
            Err(e) => {
                return Err(e);
            },
        };
        let ver = match version(&env.git_hash, &env.cargo_pkg_version) {
            Ok(v) => v,
            Err(e) => {
                return Err(e);
            },
        };
        let user_agent: String = match &env.user_agent {
            Some(u) => u.clone(),
            None => {
                let mut ua = "weathervane (".to_owned();
                ua.append(ver.as_str());
                ua.append("; +https://github.com/astrenoxcoop/weathervane)");
                ua
            },
        };
        let plc_hostname: String = match &env.plc_hostname {
            Some(p) => p.clone(),
            None => "plc.directory".to_owned(),
        };
        Ok(
            Config {
                version: ver,
                http_port,
                external_base,
                certificate_bundles,
                user_agent,
                plc_hostname,
            },
        )
    }
}

} // verus!
