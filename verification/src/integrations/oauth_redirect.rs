//! OAuth 2.0 redirect URI resolution.
//!
//! Both Jira and GitHub register a public HTTPS bridge URL as their callback.
//! A loopback HTTP URL is never accepted as a redirect: providers reject it,
//! so OAuth for that provider is disabled instead.

use vstd::prelude::*;

use crate::text::{
    chars_of, has_prefix, lower, lower_vec, trim, trim_nonblank, trim_str, vec_has_prefix,
};

verus! {

/// Default port for the local API (embedded server and `serve`).
pub const DEFAULT_LOCAL_API_PORT: u16 = 13401;

/// `uri`, trimmed and lowercased, starts with a loopback HTTP origin.
pub open spec fn loopback_http(uri: Seq<char>) -> bool {
    let l = lower(trim(uri));
    ||| has_prefix(l, "http://127.0.0.1"@)
    ||| has_prefix(l, "http://localhost"@)
    ||| has_prefix(l, "http://[::1]"@)
}

/// Whether `uri` is a loopback HTTP URL (`127.0.0.1`, `localhost` or `[::1]`),
/// ignoring surrounding whitespace and ASCII case.
pub fn is_loopback_http_oauth_redirect(uri: &str) -> (r: bool)
    ensures
        r == loopback_http(uri@),
{
    let t = trim_str(uri);
    let tv = chars_of(t.as_str());
    let l = lower_vec(&tv);
    let p1 = chars_of("http://127.0.0.1");
    let p2 = chars_of("http://localhost");
    let p3 = chars_of("http://[::1]");
    vec_has_prefix(&l, &p1) || vec_has_prefix(&l, &p2) || vec_has_prefix(&l, &p3)
}

/// The configured bridge URL for a provider, trimmed; `None` when it is
/// missing or blank (OAuth for that provider is then disabled).
pub fn required_https_bridge(_field: &str, opt: &Option<String>) -> (r: Option<String>)
    ensures
        r.is_some() == trim_nonblank(opt_view(opt)).is_some(),
        r.is_some() ==> trim_nonblank(opt_view(opt)) == Some(r.unwrap()@),
{
    match opt {
        Some(s) => crate::text::trim_nonblank_str(Some(s.as_str())),
        None => None,
    }
}

/// The view of an optional string.
pub open spec fn opt_view(o: &Option<String>) -> Option<Seq<char>> {
    match o {
        Some(s) => Some(s@),
        None => None,
    }
}

/// `false` when `uri` (trimmed) is a loopback HTTP URL, which providers
/// reject; the caller then treats OAuth as disabled.
pub fn reject_loopback_oauth_redirect(_provider_env_prefix: &str, uri: &str) -> (r: bool)
    ensures
        r == !loopback_http(trim(uri@)),
{
    let u = trim_str(uri);
    !is_loopback_http_oauth_redirect(u.as_str())
}

/// The redirect URI a provider uses: the explicit override when one is set,
/// otherwise the bridge URL from the redirect table; `None` when neither
/// gives a usable URL or the chosen one is a loopback HTTP URL.
pub fn resolve_redirect_uri(override_uri: Option<String>, bridge: &Option<String>) -> (r: Option<
    String,
>)
    ensures
        ({
            let chosen: Option<Seq<char>> = match override_uri {
                Some(v) => Some(v@),
                None => trim_nonblank(opt_view(bridge)),
            };
            match chosen {
                Some(u) => if loopback_http(trim(u)) {
                    r is None
                } else {
                    r is Some && r.unwrap()@ == u
                },
                None => r is None,
            }
        }),
{
    let uri = match override_uri {
        Some(v) => v,
        None => match required_https_bridge("", bridge) {
            Some(v) => v,
            None => {
                return None;
            },
        },
    };
    if !reject_loopback_oauth_redirect("", uri.as_str()) {
        return None;
    }
    Some(uri)
}

} // verus!
