//! The reverse proxy to `llama-server`: which requests are buffered for
//! prompt compression, where a request goes upstream, which headers pass,
//! what status is answered, and the HTTP clients' read timeouts.
use vstd::prelude::*;

use crate::doc::Value;
use crate::error::{ErrorModel, OaasError};
use crate::text::{owned, parse_u64, parse_unsigned, str_eq, trim_start_char, trim_start_matches};

verus! {

/// Whether a request is read whole before it is forwarded: a `POST` to
/// `/v1/chat/completions` while prompt compression runs.
pub fn needs_buffered_body(method: &str, path: &str, compression_on: bool) -> (r: bool)
    ensures
        r == (method@ == "POST"@ && path@ == "/v1/chat/completions"@ && compression_on),
{
    str_eq(method, "POST") && str_eq(path, "/v1/chat/completions") && compression_on
}

/// The reference a request is forwarded to, relative to the upstream base:
/// its path without leading slashes, then `?query` when it has one.
pub open spec fn relative_target(path: Seq<char>, query: Option<Seq<char>>) -> Seq<char> {
    trim_start_char(path, '/') + match query {
        Some(q) => "?"@ + q,
        None => seq![],
    }
}

/// The reference a request with `path` and `query` is forwarded to.
pub fn upstream_reference(path: &str, query: Option<&str>) -> (r: String)
    ensures
        r@ == relative_target(path@, match query {
            Some(q) => Some(q@),
            None => None,
        }),
{
    let p = trim_start_matches(path, '/');
    match query {
        Some(q) => p.concat("?").concat(q),
        None => p,
    }
}

/// What `url::Url::join(reference)` gives on the URL whose text is
/// `base_url`: the joined URL, or the text of the parse error.
pub uninterp spec fn url_join_on(base_url: Seq<char>, reference: Seq<char>) -> Result<Seq<char>, Seq<char>>;

/// What `url::Url::parse(s)` gives: the URL as text, or the text of the
/// parse error.
pub uninterp spec fn url_parse_result(s: Seq<char>) -> Result<Seq<char>, Seq<char>>;

/// `reference` resolved against `base`, as text: what [`url_parse_result`]
/// names for `base`, then, once parsed, what [`url_join_on`] names for
/// `Url::join` on that URL. The join reads the base only through the parsed
/// URL, which its text determines.
pub open spec fn joined_url(base: Seq<char>, reference: Seq<char>) -> Result<Seq<char>, Seq<char>> {
    match url_parse_result(base) {
        Ok(u) => url_join_on(u, reference),
        Err(e) => Err(e),
    }
}

/// `url::Url::parse(base)`, then `Url::join(reference)` on it, as text; the
/// result is [`joined_url`].
#[verifier::external_body]
fn url_join(base: &str, reference: &str) -> (r: Result<String, String>)
    ensures
        match url_parse_result(base@) {
            Ok(b) => match r {
                Ok(u) => url_join_on(b, reference@) == Ok::<Seq<char>, Seq<char>>(u@),
                Err(e) => url_join_on(b, reference@) == Err::<Seq<char>, Seq<char>>(e@),
            },
            Err(pe) => r matches Err(e) && e@ == pe,
        },
{
    let b = match url::Url::parse(base) {
        Ok(b) => b,
        Err(e) => return Err(e.to_string()),
    };
    match b.join(reference) {
        Ok(u) => Ok(u.to_string()),
        Err(e) => Err(e.to_string()),
    }
}

/// `url::Url::parse(s)`, as text; the result is named by [`url_parse_result`].
#[verifier::external_body]
fn url_parse(s: &str) -> (r: Result<String, String>)
    ensures
        match r {
            Ok(u) => url_parse_result(s@) == Ok::<Seq<char>, Seq<char>>(u@),
            Err(e) => url_parse_result(s@) == Err::<Seq<char>, Seq<char>>(e@),
        },
{
    match url::Url::parse(s) {
        Ok(u) => Ok(u.to_string()),
        Err(e) => Err(e.to_string()),
    }
}

/// The URL a request is forwarded to: the relative target joined to the
/// upstream base, or a backend error that says why it is invalid.
pub fn upstream_url(upstream: &str, path: &str, query: Option<&str>) -> (r: Result<String, OaasError>)
    ensures
        match joined_url(upstream@, relative_target(path@, match query {
            Some(q) => Some(q@),
            None => None,
        })) {
            Ok(u) => r matches Ok(x) && x@ == u,
            Err(e) => r matches Err(x) && x.model() == ErrorModel::Backend("URL upstream invalide: "@ + e),
        },
{
    let reference = upstream_reference(path, query);
    upstream_url_from(url_join(upstream, reference.as_str()))
}

/// The forwarding URL from the outcome of the join: the URL, or a backend
/// error that gives the reason.
pub fn upstream_url_from(joined: Result<String, String>) -> (r: Result<String, OaasError>)
    ensures
        match joined {
            Ok(u) => r matches Ok(x) && x@ == u@,
            Err(e) => r matches Err(x) && x.model() == ErrorModel::Backend("URL upstream invalide: "@ + e@),
        },
{
    match joined {
        Ok(u) => Ok(u),
        Err(e) => Err(OaasError::Backend(owned("URL upstream invalide: ").concat(e.as_str()))),
    }
}

/// The upstream base of the proxy, parsed: `http://127.0.0.1:<port>` as the
/// URL library writes it, or a configuration error.
pub fn parse_upstream_base(base: &str) -> (r: Result<String, OaasError>)
    ensures
        match url_parse_result(base@) {
            Ok(u) => r matches Ok(x) && x@ == u,
            Err(e) => r matches Err(x) && x.model() == ErrorModel::Config("URL interne invalide: "@ + e),
        },
{
    upstream_base_from(url_parse(base))
}

/// The upstream base from the outcome of parsing it: the URL, or a
/// configuration error that gives the reason.
pub fn upstream_base_from(parsed: Result<String, String>) -> (r: Result<String, OaasError>)
    ensures
        match parsed {
            Ok(u) => r matches Ok(x) && x@ == u@,
            Err(e) => r matches Err(x) && x.model() == ErrorModel::Config("URL interne invalide: "@ + e@),
        },
{
    match parsed {
        Ok(u) => Ok(u),
        Err(e) => Err(OaasError::Config(owned("URL interne invalide: ").concat(e.as_str()))),
    }
}

/// Request headers that are not forwarded (hop-by-hop, and `host`).
pub open spec fn hop_header(name: Seq<char>) -> bool {
    name == "connection"@ || name == "transfer-encoding"@ || name == "te"@ || name == "trailer"@
        || name == "upgrade"@ || name == "host"@
}

/// Whether a request header (lower-case name) is forwarded upstream.
pub fn forwards_request_header(name: &str) -> (r: bool)
    ensures
        r == !hop_header(name@),
{
    !(str_eq(name, "connection") || str_eq(name, "transfer-encoding") || str_eq(name, "te") || str_eq(
        name,
        "trailer",
    ) || str_eq(name, "upgrade") || str_eq(name, "host"))
}

/// Response headers of `llama-server` that are not copied: the proxy's own
/// compression and chunking set them again.
pub open spec fn skipped_response_header(name: Seq<char>) -> bool {
    name == "transfer-encoding"@ || name == "content-length"@ || name == "content-encoding"@
}

/// Whether a response header (lower-case name) is copied to the client.
pub fn copies_response_header(name: &str) -> (r: bool)
    ensures
        r == !skipped_response_header(name@),
{
    !(str_eq(name, "transfer-encoding") || str_eq(name, "content-length") || str_eq(name, "content-encoding"))
}

/// The status answered for an upstream status `code`: itself when it is a
/// valid HTTP status (100 to 999), else 502 Bad Gateway.
pub fn answered_status(code: u16) -> (r: u16)
    ensures
        r == (if 100 <= code && code < 1000 {
            code
        } else {
            502
        }),
{
    if 100 <= code && code < 1000 {
        code
    } else {
        502
    }
}

/// Seconds read from an environment variable's value, `default` when it is
/// unset or not a `u64`.
pub fn env_secs(value: &Option<String>, default: u64) -> (r: u64)
    ensures
        r == match value {
            Some(v) => match parse_unsigned(v@, u64::MAX as nat) {
                Some(n) => n as u64,
                None => default,
            },
            None => default,
        },
{
    match value {
        Some(v) => match parse_u64(v.as_str()) {
            Some(n) => n,
            None => default,
        },
        None => default,
    }
}

/// The read timeout of the download client (`OAAS_HTTP_READ_TIMEOUT_SECS`,
/// default 180 s).
pub fn download_read_timeout(value: &Option<String>) -> (r: u64)
    ensures
        r == match value {
            Some(v) => match parse_unsigned(v@, u64::MAX as nat) {
                Some(n) => n as u64,
                None => 180,
            },
            None => 180,
        },
{
    env_secs(value, 180)
}

/// The read timeout of the proxy client (`OAAS_PROXY_READ_TIMEOUT_SECS`,
/// default 900 s).
pub fn proxy_read_timeout(value: &Option<String>) -> (r: u64)
    ensures
        r == match value {
            Some(v) => match parse_unsigned(v@, u64::MAX as nat) {
                Some(n) => n as u64,
                None => 900,
            },
            None => 900,
        },
{
    env_secs(value, 900)
}

/// What a buffered chat request carries upstream once compression ran:
/// the compressed body; on failure, the error when compression is strict,
/// else the body as received (`None`).
pub fn body_after_compression(strict: bool, outcome: Result<Value, OaasError>) -> (r: Result<Option<Value>, OaasError>)
    ensures
        match outcome {
            Ok(v) => r == Ok::<Option<Value>, OaasError>(Some(v)),
            Err(e) => if strict {
                r == Err::<Option<Value>, OaasError>(e)
            } else {
                r == Ok::<Option<Value>, OaasError>(None)
            },
        },
{
    match outcome {
        Ok(v) => Ok(Some(v)),
        Err(e) => if strict {
            Err(e)
        } else {
            Ok(None)
        },
    }
}

} // verus!
