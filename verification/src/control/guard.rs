//! Bearer-token and `Origin` decisions ahead of tool dispatch.
//!
//! `Origin` is checked first: a browser-originated request is forbidden
//! without probing the token. An absent `Origin` passes, since non-browser
//! agents send none; a present one must be a loopback origin. Then the
//! `Authorization` header must carry `Bearer ` and the instance token.

use vstd::prelude::*;
use crate::control::token::InstanceToken;
use crate::text::{ends_with, str_eq, strip_prefix_owned};

verus! {

/// The scheme and host that `http`'s `Uri` parser finds in `text`, or
/// `None` where it refuses the text.
pub uninterp spec fn uri_scheme_and_host(text: Seq<char>) -> Option<(Option<Seq<char>>, Option<Seq<char>>)>;

/// Parses `text` as an `http::Uri` (through axum's re-export) and returns
/// its `scheme_str()` and `host()`; `None` where parsing fails. The result
/// is named [`uri_scheme_and_host`] of the text; the URI grammar itself is
/// not stated.
#[verifier::external_body]
fn parse_scheme_and_host(text: &str) -> (r: Option<(Option<String>, Option<String>)>)
    ensures
        match uri_scheme_and_host(text@) {
            None => r is None,
            Some((scheme, host)) => r is Some && (match r->Some_0.0 {
                Some(s) => scheme == Some(s@),
                None => scheme is None,
            }) && (match r->Some_0.1 {
                Some(h) => host == Some(h@),
                None => host is None,
            }),
        },
{
    match text.parse::<axum::http::Uri>() {
        Ok(uri) => {
            let scheme = uri.scheme_str().map(str::to_owned);
            let host = uri.host().map(str::to_owned);
            Some((scheme, host))
        },
        Err(_) => None,
    }
}

/// A loopback host: `localhost`, a `*.localhost` subdomain, `127.0.0.1`,
/// or IPv6 loopback with or without brackets.
pub open spec fn loopback_host(host: Seq<char>) -> bool {
    ||| host == "localhost"@
    ||| (".localhost"@.len() <= host.len() && host.skip(host.len() - ".localhost"@.len())
        == ".localhost"@)
    ||| host == "127.0.0.1"@
    ||| host == "::1"@
    ||| host == "[::1]"@
}

/// Whether a present `Origin` value is a loopback origin: it parses, its
/// scheme is `http` or `https`, and its host is a loopback host.
pub open spec fn loopback_origin(origin: Seq<char>) -> bool {
    match uri_scheme_and_host(origin) {
        Some((Some(scheme), Some(host))) => (scheme == "http"@ || scheme == "https"@)
            && loopback_host(host),
        _ => false,
    }
}

/// Whether `host` is a loopback host.
pub fn is_loopback_host(host: &str) -> (r: bool)
    ensures
        r == loopback_host(host@),
{
    str_eq(host, "localhost") || ends_with(host, ".localhost") || str_eq(host, "127.0.0.1")
        || str_eq(host, "::1") || str_eq(host, "[::1]")
}

/// Whether a parsed scheme and host make a loopback origin.
pub fn loopback_parts(scheme: Option<&str>, host: Option<&str>) -> (r: bool)
    ensures
        r == (match (scheme, host) {
            (Some(s), Some(h)) => (s@ == "http"@ || s@ == "https"@) && loopback_host(h@),
            _ => false,
        }),
{
    match (scheme, host) {
        (Some(s), Some(h)) => (str_eq(s, "http") || str_eq(s, "https")) && is_loopback_host(h),
        _ => false,
    }
}

/// Whether a present `Origin` value is a loopback origin. The browser
/// `null` origin fails by falling through the parse.
pub fn is_loopback_origin(origin: &str) -> (r: bool)
    ensures
        r == loopback_origin(origin@),
{
    match parse_scheme_and_host(origin) {
        None => false,
        Some((scheme, host)) => {
            let s = match &scheme {
                Some(t) => Some(t.as_str()),
                None => None,
            };
            let h = match &host {
                Some(t) => Some(t.as_str()),
                None => None,
            };
            loopback_parts(s, h)
        },
    }
}

/// What the guard does with one request.
#[derive(Clone, Copy, Debug, PartialEq, Eq, Structural)]
pub enum GuardVerdict {
    /// A browser origin: answer 403 without looking at the token.
    Forbidden,
    /// No valid bearer token: answer 401 with the bearer challenge.
    Unauthorized,
    /// Pass the request on to dispatch.
    Admit,
}

/// The guard's verdict for a request whose `Origin` and `Authorization`
/// headers are given: `None` where the header is absent, `Some(None)` where
/// it is present but not visible ASCII text.
pub open spec fn guard_verdict_spec(
    token: Seq<char>,
    origin: Option<Option<Seq<char>>>,
    authorization: Option<Option<Seq<char>>>,
) -> GuardVerdict {
    let origin_ok = match origin {
        None => true,
        Some(None) => false,
        Some(Some(o)) => loopback_origin(o),
    };
    if !origin_ok {
        GuardVerdict::Forbidden
    } else {
        match authorization {
            Some(Some(a)) => if "Bearer "@.len() <= a.len() && a.take("Bearer "@.len() as int)
                == "Bearer "@ && a.skip("Bearer "@.len() as int) == token {
                GuardVerdict::Admit
            } else {
                GuardVerdict::Unauthorized
            },
            _ => GuardVerdict::Unauthorized,
        }
    }
}

/// Decides one request: forbidden for a non-loopback `Origin`, admitted for
/// `Bearer ` and the instance token, unauthorized otherwise.
pub fn guard_verdict(
    token: &InstanceToken,
    origin: Option<Option<&str>>,
    authorization: Option<Option<&str>>,
) -> (r: GuardVerdict)
    ensures
        r == guard_verdict_spec(
            token@,
            match origin {
                None => None,
                Some(None) => Some(None),
                Some(Some(o)) => Some(Some(o@)),
            },
            match authorization {
                None => None,
                Some(None) => Some(None),
                Some(Some(a)) => Some(Some(a@)),
            },
        ),
{
    match origin {
        None => {},
        Some(None) => return GuardVerdict::Forbidden,
        Some(Some(o)) => {
            if !is_loopback_origin(o) {
                return GuardVerdict::Forbidden;
            }
        },
    }
    match authorization {
        Some(Some(a)) => match strip_prefix_owned(a, "Bearer ") {
            Some(presented) => if token.verify(presented.as_str()) {
                GuardVerdict::Admit
            } else {
                GuardVerdict::Unauthorized
            },
            None => GuardVerdict::Unauthorized,
        },
        _ => GuardVerdict::Unauthorized,
    }
}

} // verus!
