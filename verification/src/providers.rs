//! Provider endpoints, credentials and response handling.
//!
//! Synod talks only to the official DeepSeek and MiniMax Chat Completions
//! APIs, over credential-free HTTPS with the default port.
use vstd::prelude::*;

use crate::models::ProviderAdapter;
use crate::text::{chars_eq_str, chars_of, push_decimal, push_signed_decimal, push_str, string_from, string_of, bounded, decimal, signed_decimal};

verus! {

/// Why a provider call or its configuration failed.
#[derive(Debug, Clone, PartialEq, Eq)]
pub enum ProviderError {
    Request(String),
    InvalidResponse(String),
    UnsupportedAdapter(String),
    Endpoint(String),
    Credential(String),
}

/// The prefix and detail of a provider error's message.
pub open spec fn provider_error_parts(e: ProviderError) -> (Seq<char>, Seq<char>) {
    match e {
        ProviderError::Request(d) => ("provider request failed: "@, d@),
        ProviderError::InvalidResponse(d) => ("provider response was invalid: "@, d@),
        ProviderError::UnsupportedAdapter(d) => ("provider adapter is unsupported: "@, d@),
        ProviderError::Endpoint(d) => ("provider endpoint is invalid: "@, d@),
        ProviderError::Credential(d) => ("provider credential is unavailable: "@, d@),
    }
}

impl ProviderError {
    /// The human-readable message of the error.
    pub fn message(&self) -> (m: String)
        ensures
            m@ == provider_error_parts(*self).0 + provider_error_parts(*self).1,
    {
        let (prefix, detail) = match self {
            ProviderError::Request(d) => ("provider request failed: ", d),
            ProviderError::InvalidResponse(d) => ("provider response was invalid: ", d),
            ProviderError::UnsupportedAdapter(d) => ("provider adapter is unsupported: ", d),
            ProviderError::Endpoint(d) => ("provider endpoint is invalid: ", d),
            ProviderError::Credential(d) => ("provider credential is unavailable: ", d),
        };
        let mut m = string_from(prefix);
        push_str(&mut m, detail.as_str());
        m
    }
}

/// The API vendors Synod supports.
#[derive(Debug, Clone, Copy, PartialEq, Eq, Structural)]
pub enum Vendor {
    DeepSeek,
    MiniMax,
}

/// The parts of a parsed absolute URL that endpoint checks read.
#[derive(Debug, Clone, PartialEq, Eq)]
pub struct UrlParts {
    pub scheme: String,
    pub username: String,
    pub password: Option<String>,
    pub host: Option<String>,
    pub port: Option<u16>,
    pub path: String,
}

pub struct UrlPartsView {
    pub scheme: Seq<char>,
    pub username: Seq<char>,
    pub password: Option<Seq<char>>,
    pub host: Option<Seq<char>>,
    pub port: Option<u16>,
    pub path: Seq<char>,
}

pub open spec fn opt_view(o: Option<String>) -> Option<Seq<char>> {
    match o {
        Some(s) => Some(s@),
        None => None,
    }
}

impl View for UrlParts {
    type V = UrlPartsView;

    open spec fn view(&self) -> UrlPartsView {
        UrlPartsView {
            scheme: self.scheme@,
            username: self.username@,
            password: opt_view(self.password),
            host: opt_view(self.host),
            port: self.port,
            path: self.path@,
        }
    }
}

/// What the WHATWG URL parser of the `url` crate (`reqwest::Url::parse`) makes
/// of a text: `None` when it is not a valid absolute URL.
pub uninterp spec fn url_parts(text: Seq<char>) -> Option<UrlPartsView>;

/// Parses an absolute URL with `reqwest::Url::parse` and reads its scheme,
/// user name, password, host, explicit port and path. The parts are those the
/// parser returns: lowercased scheme and host, normalized path.
#[verifier::external_body]
fn parse_url(text: &str) -> (parts: Option<UrlParts>)
    ensures
        match parts {
            Some(p) => url_parts(text@) == Some(p@),
            None => url_parts(text@) is None,
        },
{
    match reqwest::Url::parse(text) {
        Ok(url) => Some(UrlParts {
            scheme: url.scheme().to_owned(),
            username: url.username().to_owned(),
            password: url.password().map(str::to_owned),
            host: url.host_str().map(str::to_owned),
            port: url.port(),
            path: url.path().to_owned(),
        }),
        Err(_) => None,
    }
}

/// A Chat Completions endpoint.
#[derive(Debug, Clone, PartialEq, Eq)]
pub struct Endpoint {
    pub url: String,
    pub vendor: Vendor,
}

/// `s` without trailing `/`, as `trim_end_matches('/')` gives it.
pub open spec fn trim_slashes(s: Seq<char>) -> Seq<char>
    decreases s.len(),
{
    if s.len() > 0 && s.last() == '/' {
        trim_slashes(s.drop_last())
    } else {
        s
    }
}

pub open spec fn vendor_of_host(host: Option<Seq<char>>) -> Option<Vendor> {
    match host {
        Some(h) => if h == "api.deepseek.com"@ {
            Some(Vendor::DeepSeek)
        } else if h == "api.minimax.io"@ || h == "api.minimaxi.com"@ {
            Some(Vendor::MiniMax)
        } else {
            None
        },
        None => None,
    }
}

/// The Chat Completions path for a vendor and a base path without trailing
/// slashes, if that base path is supported.
pub open spec fn completions_path(vendor: Vendor, path: Seq<char>) -> Option<Seq<char>> {
    match vendor {
        Vendor::DeepSeek => if path == ""@ || path == "/chat/completions"@ {
            Some("/chat/completions"@)
        } else if path == "/v1"@ || path == "/v1/chat/completions"@ {
            Some("/v1/chat/completions"@)
        } else {
            None
        },
        Vendor::MiniMax => if path == "/v1"@ || path == "/v1/chat/completions"@ {
            Some("/v1/chat/completions"@)
        } else {
            None
        },
    }
}

pub open spec fn endpoint_err(detail: Seq<char>) -> Result<(Seq<char>, Vendor), (Seq<char>, Seq<char>)> {
    Err(("provider endpoint is invalid: "@, detail))
}

/// The endpoint for parsed base-URL parts: its URL text and vendor, or the
/// message of the refusal.
pub open spec fn endpoint_spec(parts: Option<UrlPartsView>) -> Result<(Seq<char>, Vendor), (Seq<char>, Seq<char>)> {
    match parts {
        None => endpoint_err("base URL must be a valid absolute URL"@),
        Some(p) => if p.scheme != "https"@ || p.username.len() != 0 || p.password is Some {
            endpoint_err("only credential-free HTTPS base URLs are allowed"@)
        } else {
            match vendor_of_host(p.host) {
                None => endpoint_err("only official DeepSeek and MiniMax API hosts are supported"@),
                Some(v) => if p.port is Some {
                    endpoint_err("custom API ports are not allowed"@)
                } else {
                    match completions_path(v, trim_slashes(p.path)) {
                        None => endpoint_err("base URL path is not a supported Chat Completions endpoint"@),
                        Some(path) => Ok(("https://"@ + p.host->0 + path, v)),
                    }
                },
            }
        },
    }
}

pub open spec fn endpoint_result_view(r: Result<Endpoint, ProviderError>) -> Result<(Seq<char>, Vendor), (Seq<char>, Seq<char>)> {
    match r {
        Ok(e) => Ok((e.url@, e.vendor)),
        Err(e) => Err(provider_error_parts(e)),
    }
}

fn endpoint_error(detail: &str) -> (e: ProviderError)
    ensures
        provider_error_parts(e) == ("provider endpoint is invalid: "@, detail@),
{
    ProviderError::Endpoint(string_from(detail))
}

fn trim_slashes_exec(v: &Vec<char>) -> (r: Vec<char>)
    ensures
        r@ == trim_slashes(v@),
{
    let mut n = v.len();
    assert(v@.take(n as int) =~= v@);
    while n > 0 && v[n - 1] == '/'
        invariant
            n <= v.len(),
            trim_slashes(v@) == trim_slashes(v@.take(n as int)),
        decreases n,
    {
        assert(v@.take(n as int).drop_last() =~= v@.take(n - 1));
        n -= 1;
    }
    crate::text::slice_chars(v, 0, n)
}

fn vendor_of(host: &Option<String>) -> (v: Option<Vendor>)
    ensures
        v == vendor_of_host(opt_view(*host)),
{
    match host {
        Some(h) => {
            let hv = chars_of(h.as_str());
            if chars_eq_str(&hv, "api.deepseek.com") {
                Some(Vendor::DeepSeek)
            } else if chars_eq_str(&hv, "api.minimax.io") || chars_eq_str(&hv, "api.minimaxi.com") {
                Some(Vendor::MiniMax)
            } else {
                None
            }
        },
        None => None,
    }
}

fn completions_path_exec(vendor: Vendor, path: &Vec<char>) -> (r: Option<&'static str>)
    ensures
        match r {
            Some(s) => completions_path(vendor, path@) == Some(s@),
            None => completions_path(vendor, path@) is None,
        },
{
    match vendor {
        Vendor::DeepSeek => if chars_eq_str(path, "") || chars_eq_str(path, "/chat/completions") {
            Some("/chat/completions")
        } else if chars_eq_str(path, "/v1") || chars_eq_str(path, "/v1/chat/completions") {
            Some("/v1/chat/completions")
        } else {
            None
        },
        Vendor::MiniMax => if chars_eq_str(path, "/v1") || chars_eq_str(path, "/v1/chat/completions") {
            Some("/v1/chat/completions")
        } else {
            None
        },
    }
}

/// The Chat Completions endpoint for parsed base-URL parts.
pub fn endpoint_from_parts(parts: &Option<UrlParts>) -> (r: Result<Endpoint, ProviderError>)
    ensures
        endpoint_result_view(r) == endpoint_spec(match parts {
            Some(p) => Some(p@),
            None => None,
        }),
{
    let p = match parts {
        Some(p) => p,
        None => { return Err(endpoint_error("base URL must be a valid absolute URL")); },
    };
    let scheme = chars_of(p.scheme.as_str());
    let user = chars_of(p.username.as_str());
    if !chars_eq_str(&scheme, "https") || user.len() != 0 || p.password.is_some() {
        return Err(endpoint_error("only credential-free HTTPS base URLs are allowed"));
    }
    let vendor = match vendor_of(&p.host) {
        Some(v) => v,
        None => { return Err(endpoint_error("only official DeepSeek and MiniMax API hosts are supported")); },
    };
    if p.port.is_some() {
        return Err(endpoint_error("custom API ports are not allowed"));
    }
    let trimmed = trim_slashes_exec(&chars_of(p.path.as_str()));
    let path = match completions_path_exec(vendor, &trimmed) {
        Some(s) => s,
        None => { return Err(endpoint_error("base URL path is not a supported Chat Completions endpoint")); },
    };
    let host = match &p.host {
        Some(h) => h,
        None => { return Err(endpoint_error("only official DeepSeek and MiniMax API hosts are supported")); },
    };
    let mut url = string_from("https://");
    push_str(&mut url, host.as_str());
    push_str(&mut url, path);
    Ok(Endpoint { url, vendor })
}

/// The Chat Completions endpoint for a configured base URL.
pub fn endpoint(base_url: &str) -> (r: Result<Endpoint, ProviderError>)
    ensures
        endpoint_result_view(r) == endpoint_spec(url_parts(base_url@)),
{
    let parts = parse_url(base_url);
    endpoint_from_parts(&parts)
}

/// The model-listing path for an endpoint.
pub open spec fn models_path(vendor: Vendor, endpoint_path_is_v1: bool) -> Seq<char> {
    match vendor {
        Vendor::DeepSeek => if endpoint_path_is_v1 { "/v1/models"@ } else { "/models"@ },
        Vendor::MiniMax => "/v1/models"@,
    }
}

pub open spec fn models_endpoint_spec(parts: Option<UrlPartsView>) -> Result<Seq<char>, (Seq<char>, Seq<char>)> {
    match endpoint_spec(parts) {
        Err(e) => Err(e),
        Ok((_, v)) => {
            let p = parts->0;
            let cp = completions_path(v, trim_slashes(p.path))->0;
            Ok("https://"@ + p.host->0 + models_path(v, cp == "/v1/chat/completions"@))
        },
    }
}

/// The model-listing endpoint that belongs to a configured base URL.
pub fn models_endpoint(base_url: &str) -> (r: Result<String, ProviderError>)
    ensures
        match r {
            Ok(u) => models_endpoint_spec(url_parts(base_url@)) == Ok::<Seq<char>, (Seq<char>, Seq<char>)>(u@),
            Err(e) => models_endpoint_spec(url_parts(base_url@)) == Err::<Seq<char>, _>(provider_error_parts(e)),
        },
{
    let parts = parse_url(base_url);
    let found = endpoint_from_parts(&parts);
    let ep = match found {
        Ok(e) => e,
        Err(e) => { return Err(e); },
    };
    let p = match &parts {
        Some(p) => p,
        None => { return Err(endpoint_error("base URL must be a valid absolute URL")); },
    };
    let host = match &p.host {
        Some(h) => h,
        None => { return Err(endpoint_error("only official DeepSeek and MiniMax API hosts are supported")); },
    };
    let trimmed = trim_slashes_exec(&chars_of(p.path.as_str()));
    let cp = completions_path_exec(ep.vendor, &trimmed);
    let is_v1 = match cp {
        Some(s) => {
            let sv = chars_of(s);
            chars_eq_str(&sv, "/v1/chat/completions")
        },
        None => false,
    };
    let path = match ep.vendor {
        Vendor::DeepSeek => if is_v1 { "/v1/models" } else { "/models" },
        Vendor::MiniMax => "/v1/models",
    };
    let mut url = string_from("https://");
    push_str(&mut url, host.as_str());
    push_str(&mut url, path);
    Ok(url)
}

pub open spec fn validate_endpoint_spec(adapter: ProviderAdapter, parts: Option<UrlPartsView>) -> Result<(), (Seq<char>, Seq<char>)> {
    if adapter != ProviderAdapter::OpenaiCompatible {
        Err(("provider adapter is unsupported: "@, crate::models::adapter_text(adapter)))
    } else {
        match endpoint_spec(parts) {
            Ok(_) => Ok(()),
            Err(e) => Err(e),
        }
    }
}

/// Checks that a Provider can be used: only the OpenAI-compatible adapter is
/// supported, and the base URL must name a supported endpoint.
pub fn validate_provider_endpoint(adapter: ProviderAdapter, base_url: &str) -> (r: Result<(), ProviderError>)
    ensures
        match r {
            Ok(()) => validate_endpoint_spec(adapter, url_parts(base_url@)) == Ok::<(), (Seq<char>, Seq<char>)>(()),
            Err(e) => validate_endpoint_spec(adapter, url_parts(base_url@)) == Err::<(), _>(provider_error_parts(e)),
        },
{
    if !matches!(adapter, ProviderAdapter::OpenaiCompatible) {
        return Err(ProviderError::UnsupportedAdapter(string_from(adapter.as_str())));
    }
    match endpoint(base_url) {
        Ok(_) => Ok(()),
        Err(e) => Err(e),
    }
}

/// Where a credential comes from.
#[derive(Debug, Clone, PartialEq, Eq)]
pub enum CredentialSource {
    /// An environment variable of the server, by name.
    Environment(String),
    /// A secret stored for the Provider whose identifier follows `secret://`.
    LocalSecret(String),
}

pub open spec fn has_prefix(s: Seq<char>, p: Seq<char>) -> bool {
    s.len() >= p.len() && s.take(p.len() as int) == p
}

/// An environment variable name: ASCII letters, digits and `_`, not empty.
pub open spec fn valid_env_name(s: Seq<char>) -> bool {
    s.len() > 0 && forall|i: int| 0 <= i < s.len() ==> (crate::text::is_alnum(#[trigger] s[i]) || s[i] == '_')
}

pub open spec fn credential_spec(r: Seq<char>) -> Result<(bool, Seq<char>), Seq<char>> {
    if has_prefix(r, "env://"@) {
        let name = r.skip(6);
        if valid_env_name(name) {
            Ok((true, name))
        } else {
            Err("environment variable reference is invalid"@)
        }
    } else if has_prefix(r, "secret://"@) {
        Ok((false, r.skip(9)))
    } else {
        Err("credential reference scheme is unsupported"@)
    }
}

pub fn starts_with(v: &Vec<char>, p: &str) -> (b: bool)
    ensures
        b == has_prefix(v@, p@),
{
    let pv = chars_of(p);
    if v.len() < pv.len() {
        return false;
    }
    let head = crate::text::slice_chars(v, 0, pv.len());
    assert(head@ =~= v@.take(pv@.len() as int));
    crate::text::chars_eq(&head, &pv)
}

pub fn env_name_ok(v: &Vec<char>) -> (b: bool)
    ensures
        b == valid_env_name(v@),
{
    if v.len() == 0 {
        return false;
    }
    let mut i: usize = 0;
    while i < v.len()
        invariant
            i <= v.len(),
            forall|j: int| 0 <= j < i ==> (crate::text::is_alnum(#[trigger] v@[j]) || v@[j] == '_'),
        decreases v.len() - i,
    {
        if !(crate::text::alnum(v[i]) || v[i] == '_') {
            return false;
        }
        i += 1;
    }
    true
}

/// Reads a credential reference: `env://NAME` or `secret://PROVIDER`.
pub fn parse_credential_reference(reference: &str) -> (r: Result<CredentialSource, ProviderError>)
    ensures
        match r {
            Ok(CredentialSource::Environment(n)) => credential_spec(reference@) == Ok::<_, Seq<char>>((true, n@)),
            Ok(CredentialSource::LocalSecret(id)) => credential_spec(reference@) == Ok::<_, Seq<char>>((false, id@)),
            Err(e) => e matches ProviderError::Credential(d) && credential_spec(reference@) == Err::<(bool, Seq<char>), _>(d@),
        },
{
    let v = chars_of(reference);
    proof {
        reveal_strlit("env://");
        reveal_strlit("secret://");
    }
    if starts_with(&v, "env://") {
        let name = crate::text::slice_chars(&v, 6, v.len());
        assert(name@ =~= v@.skip(6));
        if env_name_ok(&name) {
            Ok(CredentialSource::Environment(string_of(&name)))
        } else {
            Err(ProviderError::Credential(string_from("environment variable reference is invalid")))
        }
    } else if starts_with(&v, "secret://") {
        let id = crate::text::slice_chars(&v, 9, v.len());
        assert(id@ =~= v@.skip(9));
        Ok(CredentialSource::LocalSecret(string_of(&id)))
    } else {
        Err(ProviderError::Credential(string_from("credential reference scheme is unsupported")))
    }
}

/// The error for an environment variable that is not set.
pub fn missing_environment_variable(name: &str) -> (e: ProviderError)
    ensures
        e == ProviderError::Credential(e->Credential_0) && e->Credential_0@ == "environment variable "@ + name@ + " is not set"@,
{
    let mut m = string_from("environment variable ");
    push_str(&mut m, name);
    push_str(&mut m, " is not set");
    ProviderError::Credential(m)
}

/// The choice content and status envelope of a Chat Completions reply.
#[derive(Debug, Clone, PartialEq, Eq)]
pub struct ChatCompletion {
    pub id: Option<String>,
    /// The content of each choice's message, in order.
    pub choices: Vec<Option<String>>,
    /// The reply's usage object as JSON text (`null` when it gave none).
    pub usage: String,
    /// MiniMax's business status, when present.
    pub base_resp: Option<BaseResponse>,
}

/// MiniMax's business status inside a successful HTTP reply.
#[derive(Debug, Clone, PartialEq, Eq)]
pub struct BaseResponse {
    pub status_code: i64,
    pub status_msg: String,
}

/// The text a model answered, the usage it reported (as JSON text) and the
/// provider's request identifier.
#[derive(Debug, Clone, PartialEq, Eq)]
pub struct Completion {
    pub text: String,
    pub usage: String,
    pub provider_request_id: Option<String>,
}

pub open spec fn take_chars(s: Seq<char>, n: nat) -> Seq<char> {
    if n < s.len() { s.take(n as int) } else { s }
}

/// The text and request identifier of a successful HTTP reply: none when it
/// carries a MiniMax business error or no text in its first choice.
pub open spec fn completion_spec(w: ChatCompletion) -> Option<(Seq<char>, Option<Seq<char>>)> {
    if w.base_resp is Some && w.base_resp->0.status_code != 0 {
        None
    } else if w.choices@.len() == 0 || w.choices@[0] is None {
        None
    } else {
        Some((w.choices@[0]->0@, opt_view(w.id)))
    }
}

/// Interprets a decoded Chat Completions reply.
pub fn decode_completion(wire: ChatCompletion) -> (r: Result<Completion, ProviderError>)
    ensures
        match r {
            Ok(c) => completion_spec(wire) == Some((c.text@, opt_view(c.provider_request_id)))
                && c.usage@ == wire.usage@,
            Err(ProviderError::Request(d)) => wire.base_resp is Some && wire.base_resp->0.status_code != 0
                && d@ == "MiniMax API error "@ + signed_decimal(wire.base_resp->0.status_code as int) + ": "@
                    + take_chars(wire.base_resp->0.status_msg@, 500),
            Err(ProviderError::InvalidResponse(d)) => completion_spec(wire) is None
                && !(wire.base_resp is Some && wire.base_resp->0.status_code != 0)
                && d@ == "response has no text choice"@,
            Err(_) => false,
        },
{
    if let Some(base) = &wire.base_resp {
        if base.status_code != 0 {
            let mut m = string_from("MiniMax API error ");
            push_signed_decimal(&mut m, base.status_code);
            push_str(&mut m, ": ");
            let b = bounded(base.status_msg.as_str(), 500);
            push_str(&mut m, b.as_str());
            return Err(ProviderError::Request(m));
        }
    }
    if wire.choices.len() == 0 {
        return Err(ProviderError::InvalidResponse(string_from("response has no text choice")));
    }
    let first = wire.choices[0].clone();
    match first {
        Some(text) => Ok(Completion { text, usage: wire.usage, provider_request_id: wire.id }),
        None => Err(ProviderError::InvalidResponse(string_from("response has no text choice"))),
    }
}

/// The error for an unsuccessful HTTP status, with at most 500 characters of
/// the detail the reply gave.
pub fn http_error(status: u16, detail: &str) -> (e: ProviderError)
    ensures
        e == ProviderError::Request(e->Request_0),
        e->Request_0@ == "HTTP "@ + decimal(status as nat) + ": "@ + take_chars(detail@, 500),
{
    let mut m = string_from("HTTP ");
    push_decimal(&mut m, status as u64);
    push_str(&mut m, ": ");
    let b = bounded(detail, 500);
    push_str(&mut m, b.as_str());
    ProviderError::Request(m)
}

/// The largest reply body read from a provider: 2 MiB.
pub const MAX_RESPONSE_BYTES: u64 = 2_097_152;

/// A reply body may hold at most 2 MiB; `size` is its announced or its
/// accumulated length.
pub fn check_response_size(size: u64) -> (r: Result<(), ProviderError>)
    ensures
        size <= MAX_RESPONSE_BYTES ==> r is Ok,
        size > MAX_RESPONSE_BYTES ==> r == Err::<(), ProviderError>(ProviderError::InvalidResponse(r->Err_0->InvalidResponse_0))
            && r->Err_0->InvalidResponse_0@ == "response exceeds the 2 MiB limit"@,
{
    if size > MAX_RESPONSE_BYTES {
        return Err(ProviderError::InvalidResponse(string_from("response exceeds the 2 MiB limit")));
    }
    Ok(())
}

pub open spec fn detail_of(candidates: Seq<Option<Option<String>>>, body_text: String) -> Seq<char>
    decreases candidates.len(),
{
    if candidates.len() == 0 {
        body_text@
    } else {
        match candidates[0] {
            None => detail_of(candidates.drop_first(), body_text),
            Some(Some(t)) => t@,
            Some(None) => body_text@,
        }
    }
}

/// The detail of an unsuccessful reply: the first field among `candidates`
/// that the reply has (`None` when absent, `Some(None)` when present but not
/// text) if it is text, otherwise the reply's body as text.
pub fn error_detail(candidates: Vec<Option<Option<String>>>, body_text: String) -> (d: String)
    ensures
        d@ == detail_of(candidates@, body_text),
{
    let mut i: usize = 0;
    assert(candidates@.skip(0) =~= candidates@);
    while i < candidates.len()
        invariant
            i <= candidates.len(),
            detail_of(candidates@, body_text) == detail_of(candidates@.skip(i as int), body_text),
        decreases candidates.len() - i,
    {
        let ghost rest = candidates@.skip(i as int);
        assert(rest.drop_first() =~= candidates@.skip(i + 1));
        assert(rest[0] == candidates@[i as int]);
        match &candidates[i] {
            None => {},
            Some(Some(t)) => {
                let out = string_from(t.as_str());
                return out;
            },
            Some(None) => {
                let out = string_from(body_text.as_str());
                return out;
            },
        }
        i += 1;
    }
    assert(candidates@.skip(candidates.len() as int).len() == 0);
    body_text
}

/// The key of an environment credential: the variable's value, or the error
/// for a variable that is not set.
pub fn environment_credential(name: &str, value: Option<String>) -> (r: Result<String, ProviderError>)
    ensures
        match value {
            Some(v) => r == Ok::<String, ProviderError>(v),
            None => r matches Err(ProviderError::Credential(d)) && d@ == "environment variable "@ + name@ + " is not set"@,
        },
{
    match value {
        Some(v) => Ok(v),
        None => Err(missing_environment_variable(name)),
    }
}

/// The key of a locally stored credential, or the error for a missing one.
pub fn local_credential(secret: Option<String>) -> (r: Result<String, ProviderError>)
    ensures
        match secret {
            Some(v) => r == Ok::<String, ProviderError>(v),
            None => r matches Err(ProviderError::Credential(d)) && d@ == "local provider secret is missing"@,
        },
{
    match secret {
        Some(v) => Ok(v),
        None => Err(ProviderError::Credential(string_from("local provider secret is missing"))),
    }
}

} // verus!
