//! Service configuration: the auth endpoints' defaults in dev mode, and the
//! CORS allow-list.
use vstd::prelude::*;

use crate::text::{append_decimal, chars_of, decimal, join, owned, string_of_range, trim, trimmed};

verus! {

#[derive(Debug, Clone, PartialEq)]
pub struct AppConfig {
    pub port: u16,
    pub surrealdb_url: String,
    pub surrealdb_user: String,
    pub surrealdb_pass: String,
    pub surrealdb_ns: String,
    pub auth_issuer: String,
    pub auth_jwks_url: String,
    pub auth_org_claim: String,
    pub auth_audience: Option<String>,
    pub auth_dev_mode: bool,
    /// `None` means permissive (dev mode only).
    pub cors_allowed_origins: Option<Vec<String>>,
}

/// Why the configuration cannot start the service.
#[derive(Debug, Clone, PartialEq)]
pub enum ConfigError {
    MissingIssuer,
    MissingJwksUrl,
    MissingCorsOrigins,
    InvalidOrigin(String),
}

pub enum ConfigErrorView {
    MissingIssuer,
    MissingJwksUrl,
    MissingCorsOrigins,
    InvalidOrigin(Seq<char>),
}

impl View for ConfigError {
    type V = ConfigErrorView;

    open spec fn view(&self) -> ConfigErrorView {
        match self {
            ConfigError::MissingIssuer => ConfigErrorView::MissingIssuer,
            ConfigError::MissingJwksUrl => ConfigErrorView::MissingJwksUrl,
            ConfigError::MissingCorsOrigins => ConfigErrorView::MissingCorsOrigins,
            ConfigError::InvalidOrigin(o) => ConfigErrorView::InvalidOrigin(o@),
        }
    }
}

pub open spec fn config_message(e: ConfigErrorView) -> Seq<char> {
    match e {
        ConfigErrorView::MissingIssuer => "AUTH_ISSUER is required"@,
        ConfigErrorView::MissingJwksUrl => "AUTH_JWKS_URL is required"@,
        ConfigErrorView::MissingCorsOrigins => "CORS_ALLOWED_ORIGINS is required outside AUTH_DEV_MODE (a prod deploy must never silently run permissive CORS)"@,
        ConfigErrorView::InvalidOrigin(o) => "CORS_ALLOWED_ORIGINS contains an invalid origin: "@ + o,
    }
}

impl ConfigError {
    pub fn message(&self) -> (r: String)
        ensures
            r@ == config_message(self@),
    {
        match self {
            ConfigError::MissingIssuer => owned("AUTH_ISSUER is required"),
            ConfigError::MissingJwksUrl => owned("AUTH_JWKS_URL is required"),
            ConfigError::MissingCorsOrigins => owned(
                "CORS_ALLOWED_ORIGINS is required outside AUTH_DEV_MODE (a prod deploy must never silently run permissive CORS)",
            ),
            ConfigError::InvalidOrigin(o) => join(
                "CORS_ALLOWED_ORIGINS contains an invalid origin: ",
                o.as_str(),
            ),
        }
    }
}

/// The issuer a dev-mode service signs its own tokens with.
pub open spec fn dev_issuer(port: u16) -> Seq<char> {
    "http://localhost:"@ + decimal(port as nat)
}

/// The key set a dev-mode service publishes.
pub open spec fn dev_jwks_url(port: u16) -> Seq<char> {
    dev_issuer(port) + "/dev/jwks.json"@
}

/// The token issuer and key-set URL: the configured values; in dev mode a
/// missing one defaults to this service's own dev issuer; outside dev mode
/// a missing one (the issuer first) stops startup.
pub fn auth_endpoints(port: u16, auth_dev_mode: bool, issuer: Option<String>, jwks_url: Option<String>) -> (r:
    Result<(String, String), ConfigError>)
    ensures
        issuer is None && !auth_dev_mode ==> (r matches Err(e) && e@ == ConfigErrorView::MissingIssuer),
        issuer is Some && jwks_url is None && !auth_dev_mode ==> (r matches Err(e) && e@
            == ConfigErrorView::MissingJwksUrl),
        (issuer is Some && jwks_url is Some) || auth_dev_mode ==> (r matches Ok(p) && p.0@ == match issuer {
            Some(i) => i@,
            None => dev_issuer(port),
        } && p.1@ == match jwks_url {
            Some(j) => j@,
            None => dev_jwks_url(port),
        }),
{
    let mut default_issuer = owned("http://localhost:");
    append_decimal(&mut default_issuer, port as usize);
    let default_jwks = join(default_issuer.as_str(), "/dev/jwks.json");
    let auth_issuer = match issuer {
        Some(v) => v,
        None => {
            if auth_dev_mode {
                default_issuer
            } else {
                return Err(ConfigError::MissingIssuer);
            }
        },
    };
    let auth_jwks_url = match jwks_url {
        Some(v) => v,
        None => {
            if auth_dev_mode {
                default_jwks
            } else {
                return Err(ConfigError::MissingJwksUrl);
            }
        },
    };
    Ok((auth_issuer, auth_jwks_url))
}

/// The pieces of `s` between commas, in order (`n` commas give `n + 1`
/// pieces).
pub open spec fn comma_pieces(s: Seq<char>) -> Seq<Seq<char>>
    decreases s.len(),
{
    if s.len() == 0 {
        seq![Seq::empty()]
    } else {
        let p = comma_pieces(s.drop_last());
        if s.last() == ',' {
            p.push(Seq::empty())
        } else {
            p.update(p.len() - 1, p.last().push(s.last()))
        }
    }
}

proof fn lemma_comma_pieces_len(s: Seq<char>)
    ensures
        comma_pieces(s).len() >= 1,
    decreases s.len(),
{
    if s.len() > 0 {
        lemma_comma_pieces_len(s.drop_last());
    }
}

/// The trimmed pieces that are not empty, in order.
pub open spec fn kept_origins(ps: Seq<Seq<char>>) -> Seq<Seq<char>>
    decreases ps.len(),
{
    if ps.len() == 0 {
        Seq::empty()
    } else {
        let r = kept_origins(ps.drop_last());
        let t = trimmed(ps.last());
        if t.len() > 0 {
            r.push(t)
        } else {
            r
        }
    }
}

/// The origins listed in a raw allow-list value.
pub open spec fn listed_origins(raw: Seq<char>) -> Seq<Seq<char>> {
    kept_origins(comma_pieces(raw))
}

/// Whether a character may stand in a header value: every byte of its
/// UTF-8 form is a tab, a space, visible ASCII, or at least 0x80.
pub open spec fn header_char_ok(c: char) -> bool {
    (c as u32 >= 32 && c as u32 != 127) || c == '\t'
}

pub open spec fn header_value_ok(s: Seq<char>) -> bool {
    forall|i: int| 0 <= i < s.len() ==> header_char_ok(#[trigger] s[i])
}

/// `axum::http::HeaderValue::from_str`: accepts the string iff every byte is
/// a tab, a space, visible ASCII or at least 0x80, which for UTF-8 text is
/// `header_value_ok` of its characters.
#[verifier::external_body]
fn is_header_value(s: &str) -> (r: bool)
    ensures
        r == header_value_ok(s@),
{
    axum::http::HeaderValue::from_str(s).is_ok()
}

pub open spec fn strings_view(v: Seq<String>) -> Seq<Seq<char>> {
    v.map_values(|s: String| s@)
}

/// Index of the first origin that is not a valid header value.
pub open spec fn first_invalid(os: Seq<Seq<char>>, n: int) -> Option<int>
    decreases n,
{
    if n <= 0 {
        None
    } else {
        match first_invalid(os, n - 1) {
            Some(i) => Some(i),
            None => if !header_value_ok(os[n - 1]) {
                Some(n - 1)
            } else {
                None
            },
        }
    }
}

proof fn lemma_first_invalid_stays(os: Seq<Seq<char>>, k: int, n: int)
    requires
        0 <= k <= n,
        first_invalid(os, k) is Some,
    ensures
        first_invalid(os, n) == first_invalid(os, k),
    decreases n - k,
{
    if n > k {
        lemma_first_invalid_stays(os, k, n - 1);
    }
}

fn split_commas(s: &str) -> (r: Vec<String>)
    ensures
        strings_view(r@) == comma_pieces(s@),
{
    let cs = chars_of(s);
    let mut out: Vec<String> = Vec::new();
    let mut start: usize = 0;
    let mut i: usize = 0;
    assert(cs@.take(0) =~= Seq::<char>::empty());
    assert(strings_view(out@).push(cs@.subrange(0, 0)) =~= seq![Seq::<char>::empty()]);
    while i < cs.len()
        invariant
            start <= i <= cs.len(),
            cs@ == s@,
            strings_view(out@).push(cs@.subrange(start as int, i as int)) == comma_pieces(cs@.take(i as int)),
        decreases cs.len() - i,
    {
        let ghost before = strings_view(out@).push(cs@.subrange(start as int, i as int));
        let ghost old_sv = strings_view(out@);
        let ghost old_start = start;
        assert(cs@.take(i + 1).drop_last() =~= cs@.take(i as int));
        assert(cs@.take(i + 1).last() == cs@[i as int]);
        if cs[i] == ',' {
            let piece = string_of_range(&cs, start, i);
            out.push(piece);
            start = i + 1;
            i += 1;
            assert(strings_view(out@) =~= old_sv.push(cs@.subrange(old_start as int, i - 1)));
            assert(cs@.subrange(start as int, i as int) =~= Seq::<char>::empty());
            assert(strings_view(out@).push(cs@.subrange(start as int, i as int)) =~= before.push(Seq::empty()));
        } else {
            i += 1;
            assert(cs@.subrange(start as int, i as int) =~= cs@.subrange(start as int, i - 1).push(cs@[i - 1]));
            assert(strings_view(out@).push(cs@.subrange(start as int, i as int)) =~= before.update(
                before.len() - 1,
                before.last().push(cs@[i - 1]),
            ));
        }
    }
    let last = string_of_range(&cs, start, cs.len());
    out.push(last);
    assert(cs@.take(cs.len() as int) =~= cs@);
    assert(strings_view(out@) =~= comma_pieces(s@));
    out
}

/// The CORS allow-list from its raw setting: set, the comma-separated
/// origins, trimmed, without empty ones, each checked as a header value
/// (the first bad one stops startup); unset, permissive (`None`) in dev
/// mode and an error outside it.
pub fn parse_cors_allowed_origins(raw: Option<&str>, auth_dev_mode: bool) -> (r: Result<Option<Vec<String>>, ConfigError>)
    ensures
        match raw {
            None => if auth_dev_mode {
                r matches Ok(None)
            } else {
                r matches Err(e) && e@ == ConfigErrorView::MissingCorsOrigins
            },
            Some(v) => {
                let os = listed_origins(v@);
                match first_invalid(os, os.len() as int) {
                    Some(k) => r matches Err(e) && e@ == ConfigErrorView::InvalidOrigin(os[k]),
                    None => r matches Ok(Some(list)) && strings_view(list@) == os,
                }
            },
        },
{
    let value = match raw {
        Some(v) => v,
        None => {
            if auth_dev_mode {
                return Ok(None);
            } else {
                return Err(ConfigError::MissingCorsOrigins);
            }
        },
    };
    let pieces = split_commas(value);
    let ghost ps = comma_pieces(value@);
    let mut origins: Vec<String> = Vec::new();
    let mut i: usize = 0;
    while i < pieces.len()
        invariant
            i <= pieces.len(),
            strings_view(pieces@) == ps,
            strings_view(origins@) == kept_origins(ps.take(i as int)),
        decreases pieces.len() - i,
    {
        assert(ps.take(i + 1).drop_last() =~= ps.take(i as int));
        assert(ps[i as int] == pieces@[i as int]@);
        let t = trim(pieces[i].as_str());
        let ghost before = strings_view(origins@);
        if !t.as_str().is_empty() {
            origins.push(t);
            assert(strings_view(origins@) =~= before.push(t@));
        } else {
            assert(t@.len() == 0);
        }
        i += 1;
    }
    assert(ps.take(pieces.len() as int) =~= ps);
    assert(strings_view(origins@) == listed_origins(value@));
    let ghost os = strings_view(origins@);
    let mut k: usize = 0;
    while k < origins.len()
        invariant
            k <= origins.len(),
            os == strings_view(origins@),
            os == listed_origins(value@),
            raw == Some(value),
            first_invalid(os, k as int) is None,
        decreases origins.len() - k,
    {
        if !is_header_value(origins[k].as_str()) {
            proof {
                assert(first_invalid(os, k + 1) == Some(k as int));
                lemma_first_invalid_stays(os, k + 1, os.len() as int);
            }
            return Err(ConfigError::InvalidOrigin(origins[k].clone()));
        }
        k += 1;
    }
    Ok(Some(origins))
}

} // verus!
