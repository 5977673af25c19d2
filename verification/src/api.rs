//! The HTTP-facing rules: request shapes, identifiers, authentication headers
//! and how errors are answered.
use vstd::prelude::*;

use crate::dispatch::DispatchStatus;
use crate::ids::DispatchId;
use crate::issue::CommentKind;
use crate::models::ProviderAdapter;
use crate::permissions::MembershipRole;
use crate::services::ServiceError;
use crate::store::StoredCreation;
use crate::text::{chars_eq, chars_of, lower_seq, string_of};
use crate::topic::Principal;

verus! {

/// How an API request failed.
#[derive(Debug, Clone, Copy)]
pub enum ApiError {
    BadRequest(&'static str),
    Unauthorized,
    Forbidden,
    NotFound,
    Conflict,
    Internal,
    ProviderUnavailable,
}

pub open spec fn api_error_of(e: ServiceError) -> ApiError {
    match e {
        ServiceError::Validation(_) => ApiError::BadRequest("request content is invalid"),
        ServiceError::InvalidReference(m) => ApiError::BadRequest(m),
        ServiceError::Forbidden => ApiError::Forbidden,
        ServiceError::Conflict => ApiError::Conflict,
        ServiceError::NotFound => ApiError::NotFound,
        ServiceError::Storage(_) => ApiError::Internal,
        ServiceError::CorruptData => ApiError::Internal,
    }
}

/// The answer to a failed service request.
pub fn api_error(error: ServiceError) -> (r: ApiError)
    ensures
        r == api_error_of(error),
{
    match error {
        ServiceError::Validation(_) => ApiError::BadRequest("request content is invalid"),
        ServiceError::InvalidReference(message) => ApiError::BadRequest(message),
        ServiceError::Forbidden => ApiError::Forbidden,
        ServiceError::Conflict => ApiError::Conflict,
        ServiceError::NotFound => ApiError::NotFound,
        ServiceError::Storage(_) => ApiError::Internal,
        ServiceError::CorruptData => ApiError::Internal,
    }
}

impl From<ServiceError> for ApiError {
    fn from(error: ServiceError) -> (r: ApiError) {
        api_error(error)
    }
}

impl vstd::std_specs::convert::FromSpecImpl<ServiceError> for ApiError {
    open spec fn obeys_from_spec() -> bool {
        true
    }

    open spec fn from_spec(v: ServiceError) -> ApiError {
        api_error_of(v)
    }
}

/// HTTP status, error code and message of an error answer.
pub open spec fn error_parts(e: ApiError) -> (u16, Seq<char>, Seq<char>) {
    match e {
        ApiError::BadRequest(m) => (400, "bad_request"@, m@),
        ApiError::Unauthorized => (401, "unauthorized"@, "valid bearer authentication is required"@),
        ApiError::Forbidden => (403, "forbidden"@, "operation is not permitted"@),
        ApiError::NotFound => (404, "not_found"@, "resource was not found"@),
        ApiError::Conflict => (409, "conflict"@, "resource already exists or has changed"@),
        ApiError::Internal => (500, "internal_error"@, "an internal error occurred"@),
        ApiError::ProviderUnavailable => (502, "provider_unavailable"@, "the model provider could not be reached"@),
    }
}

impl ApiError {
    /// The HTTP status, error code and message with which the error is answered.
    pub fn response_parts(self) -> (r: (u16, &'static str, &'static str))
        ensures
            (r.0, r.1@, r.2@) == error_parts(self),
    {
        match self {
            ApiError::BadRequest(message) => (400, "bad_request", message),
            ApiError::Unauthorized => (401, "unauthorized", "valid bearer authentication is required"),
            ApiError::Forbidden => (403, "forbidden", "operation is not permitted"),
            ApiError::NotFound => (404, "not_found", "resource was not found"),
            ApiError::Conflict => (409, "conflict", "resource already exists or has changed"),
            ApiError::Internal => (500, "internal_error", "an internal error occurred"),
            ApiError::ProviderUnavailable => (502, "provider_unavailable", "the model provider could not be reached"),
        }
    }
}

/// The value of a UUID text as `uuid::Uuid::parse_str` reads it, or `None`
/// when that parser refuses the text.
pub uninterp spec fn uuid_value(text: Seq<char>) -> Option<u128>;

/// Reads a UUID with `uuid::Uuid::parse_str` (hyphenated, simple, braced or
/// URN form) and gives its 128-bit value.
#[verifier::external_body]
pub(crate) fn parse_uuid(text: &str) -> (r: Option<u128>)
    ensures
        r == uuid_value(text@),
{
    uuid::Uuid::parse_str(text).ok().map(|id| id.as_u128())
}

/// Reads an identifier from a request path; an unreadable one is a bad
/// request with the given message.
pub fn parse_id(value: &str, message: &'static str) -> (r: Result<u128, ApiError>)
    ensures
        match r {
            Ok(v) => uuid_value(value@) == Some(v),
            Err(e) => uuid_value(value@) is None && e == ApiError::BadRequest(message),
        },
{
    match parse_uuid(value) {
        Some(v) => Ok(v),
        None => Err(ApiError::BadRequest(message)),
    }
}

/// The principal a request authenticated as.
pub struct AuthenticatedPrincipal(pub Principal);

/// The envelope of a successful answer.
pub struct Data<T> {
    pub data: T,
}

/// Whether `a` equals `b` ignoring ASCII case.
pub open spec fn eq_ignore_ascii_case(a: Seq<char>, b: Seq<char>) -> bool {
    lower_seq(a) == lower_seq(b)
}

/// The index of the first space in `s`, or -1.
pub open spec fn first_space(s: Seq<char>, i: int) -> int
    decreases s.len() - i,
{
    if i < 0 || i >= s.len() {
        -1
    } else if s[i] == ' ' {
        i
    } else {
        first_space(s, i + 1)
    }
}

/// The bearer token of an `Authorization` header value: the text after the
/// first space, when the text before it is `bearer` in any case and the
/// token is not empty.
pub open spec fn bearer_spec(header: Seq<char>) -> Option<Seq<char>> {
    let k = first_space(header, 0);
    if k < 0 {
        None
    } else if !eq_ignore_ascii_case(header.take(k), "bearer"@) || header.skip(k + 1).len() == 0 {
        None
    } else {
        Some(header.skip(k + 1))
    }
}

/// Extracts the bearer token from an `Authorization` header value.
pub fn bearer_token(header: &str) -> (r: Option<String>)
    ensures
        match r {
            Some(t) => bearer_spec(header@) == Some(t@),
            None => bearer_spec(header@) is None,
        },
{
    let v = chars_of(header);
    let mut k: usize = 0;
    while k < v.len() && v[k] != ' '
        invariant
            k <= v.len(),
            first_space(v@, 0) == first_space(v@, k as int),
        decreases v.len() - k,
    {
        k += 1;
    }
    if k == v.len() {
        return None;
    }
    let scheme = crate::text::slice_chars(&v, 0, k);
    let lowered = crate::text::slice_chars(&v, 0, k);
    let mut low: Vec<char> = Vec::new();
    let mut i: usize = 0;
    while i < lowered.len()
        invariant
            i <= lowered.len(),
            low@ == lower_seq(lowered@.take(i as int)),
        decreases lowered.len() - i,
    {
        low.push(crate::text::lower_of(lowered[i]));
        assert(lower_seq(lowered@.take(i + 1)) =~= lower_seq(lowered@.take(i as int)).push(crate::text::lower_char(lowered@[i as int])));
        i += 1;
    }
    assert(lowered@.take(lowered@.len() as int) =~= lowered@);
    let bearer = chars_of("bearer");
    proof {
        reveal_strlit("bearer");
        assert(lower_seq("bearer"@) =~= "bearer"@);
        assert(scheme@ =~= v@.take(k as int));
    }
    if !chars_eq(&low, &bearer) {
        return None;
    }
    let token = crate::text::slice_chars(&v, k + 1, v.len());
    assert(token@ =~= v@.skip(k + 1));
    if token.len() == 0 {
        return None;
    }
    Some(string_of(&token))
}

/// The Dispatch part of a creation answer.
pub struct DispatchResponse {
    pub id: DispatchId,
    pub status: &'static str,
}

/// The answer to a successful creation: the value and, when its mentions
/// opened a Dispatch, that Dispatch as pending.
pub struct CreationResponse<T> {
    pub data: T,
    pub dispatch: Option<DispatchResponse>,
}

/// Builds the answer to a creation.
pub fn creation_response<T>(creation: StoredCreation<T>) -> (r: CreationResponse<T>)
    ensures
        r.data == creation.value,
        match creation.dispatch_id {
            Some(id) => r.dispatch matches Some(d) && d.id == id && d.status@ == "pending"@,
            None => r.dispatch is None,
        },
{
    CreationResponse {
        data: creation.value,
        dispatch: match creation.dispatch_id {
            Some(id) => Some(DispatchResponse { id, status: DispatchStatus::Pending.as_str() }),
            None => None,
        },
    }
}

/// The kind of a Comment whose request names none.
pub fn default_comment_kind() -> (k: CommentKind)
    ensures
        k == CommentKind::Discussion,
{
    CommentKind::Discussion
}

/// What a request that matched no route receives.
#[derive(Debug, Clone, Copy, PartialEq, Eq, Structural)]
pub enum FallbackAnswer {
    MethodNotAllowed,
    NotFound,
    WebApplication,
}

/// Only `GET` is served outside the routes; unknown `/api/` paths are not
/// found, and every other path serves the web application.
pub fn fallback_answer(is_get: bool, path: &str) -> (a: FallbackAnswer)
    ensures
        a == (if !is_get {
            FallbackAnswer::MethodNotAllowed
        } else if crate::providers::has_prefix(path@, "/api/"@) {
            FallbackAnswer::NotFound
        } else {
            FallbackAnswer::WebApplication
        }),
{
    if !is_get {
        FallbackAnswer::MethodNotAllowed
    } else if crate::providers::starts_with(&chars_of(path), "/api/") {
        FallbackAnswer::NotFound
    } else {
        FallbackAnswer::WebApplication
    }
}

/// The health answer: HTTP status, overall status and database status.
pub fn health_report(database_ready: bool) -> (r: (u16, &'static str, &'static str))
    ensures
        database_ready ==> r.0 == 200 && r.1@ == "ok"@ && r.2@ == "ok"@,
        !database_ready ==> r.0 == 503 && r.1@ == "degraded"@ && r.2@ == "unavailable"@,
{
    if database_ready {
        (200, "ok", "ok")
    } else {
        (503, "degraded", "unavailable")
    }
}

/// A request to create a Topic.
pub struct CreateTopicRequest {
    pub key: String,
    pub title: String,
    pub description: String,
}

/// A request to create an Issue.
pub struct CreateIssueRequest {
    pub issue_type: String,
    pub title: String,
    pub body: String,
    pub parent_issue_id: Option<String>,
}

/// A request to create a Comment.
pub struct CreateCommentRequest {
    pub kind: CommentKind,
    pub body: String,
    pub reply_to_comment_id: Option<String>,
}

/// A request to set a principal's role in a Topic.
pub struct PutMemberRequest {
    pub role: MembershipRole,
}

/// A request to create a Team.
pub struct CreateTeamRequest {
    pub handle: String,
    pub display_name: String,
}

/// A request to create a Provider, with either a credential reference or an
/// API key.
pub struct CreateProviderRequest {
    pub name: String,
    pub adapter: ProviderAdapter,
    pub base_url: String,
    pub credential_ref: Option<String>,
    pub api_key: Option<String>,
}

/// The credential a Provider request supplies.
pub enum ProviderCredential {
    Reference(String),
    ApiKey(String),
}

/// Exactly one of a credential reference and an API key must be given.
pub fn provider_credential(credential_ref: Option<String>, api_key: Option<String>) -> (r: Result<ProviderCredential, ApiError>)
    ensures
        match r {
            Ok(ProviderCredential::Reference(c)) => credential_ref == Some(c) && api_key is None,
            Ok(ProviderCredential::ApiKey(k)) => api_key == Some(k) && credential_ref is None,
            Err(e) => (credential_ref is Some) == (api_key is Some)
                && e == ApiError::BadRequest("provide exactly one of credential_ref or api_key"),
        },
{
    match (credential_ref, api_key) {
        (Some(reference), None) => Ok(ProviderCredential::Reference(reference)),
        (None, Some(secret)) => Ok(ProviderCredential::ApiKey(secret)),
        _ => Err(ApiError::BadRequest("provide exactly one of credential_ref or api_key")),
    }
}

/// A request to create an AI Member.
pub struct CreateAiMemberRequest {
    pub handle: String,
    pub display_name: String,
    pub identity_prompt: String,
    pub default_model_id: Option<String>,
    pub provider_id: Option<String>,
    pub model_name: Option<String>,
}

/// The model an AI Member request names.
pub enum MemberModel {
    Existing(String),
    ByName(String, String),
}

/// Either a model identifier, or a Provider identifier with a model name.
pub fn member_model(default_model_id: Option<String>, provider_id: Option<String>, model_name: Option<String>) -> (r: Result<
    MemberModel,
    ApiError,
>)
    ensures
        match r {
            Ok(MemberModel::Existing(m)) => default_model_id == Some(m) && provider_id is None && model_name is None,
            Ok(MemberModel::ByName(p, n)) => default_model_id is None && provider_id == Some(p) && model_name == Some(n),
            Err(e) => !(default_model_id is Some && provider_id is None && model_name is None)
                && !(default_model_id is None && provider_id is Some && model_name is Some)
                && e == ApiError::BadRequest("provide either default_model_id or provider_id with model_name"),
        },
{
    match (default_model_id, provider_id, model_name) {
        (Some(m), None, None) => Ok(MemberModel::Existing(m)),
        (None, Some(p), Some(n)) => Ok(MemberModel::ByName(p, n)),
        _ => Err(ApiError::BadRequest("provide either default_model_id or provider_id with model_name")),
    }
}

} // verus!
