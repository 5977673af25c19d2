//! The request rules that services apply before they touch storage.
use vstd::prelude::*;

use crate::models::ProviderAdapter;
use crate::permissions::PrincipalKind;
use crate::providers::{has_prefix, starts_with, env_name_ok, valid_env_name, validate_provider_endpoint, validate_endpoint_spec, url_parts};
use crate::store::StoreError;
use crate::text::{blank, chars_of, is_blank, string_of, trim, trimmed};
use crate::topic::{validate_handle, valid_handle, ValidationError};

verus! {

/// Why a service request failed.
#[derive(Debug)]
pub enum ServiceError {
    Validation(ValidationError),
    InvalidReference(&'static str),
    Forbidden,
    Conflict,
    NotFound,
    Storage(sqlx::Error),
    CorruptData,
}

pub open spec fn service_error_of(e: StoreError) -> ServiceError {
    match e {
        StoreError::Conflict => ServiceError::Conflict,
        StoreError::NotFound => ServiceError::NotFound,
        StoreError::PermissionDenied => ServiceError::Forbidden,
        StoreError::InvalidReference(m) => ServiceError::InvalidReference(m),
        StoreError::Sqlx(x) => ServiceError::Storage(x),
        StoreError::CorruptData(_) => ServiceError::CorruptData,
        StoreError::AlreadyBootstrapped => ServiceError::CorruptData,
    }
}

impl From<StoreError> for ServiceError {
    fn from(error: StoreError) -> (r: ServiceError) {
        match error {
            StoreError::Conflict => ServiceError::Conflict,
            StoreError::NotFound => ServiceError::NotFound,
            StoreError::PermissionDenied => ServiceError::Forbidden,
            StoreError::InvalidReference(message) => ServiceError::InvalidReference(message),
            StoreError::Sqlx(error) => ServiceError::Storage(error),
            StoreError::CorruptData(_) => ServiceError::CorruptData,
            StoreError::AlreadyBootstrapped => ServiceError::CorruptData,
        }
    }
}

impl vstd::std_specs::convert::FromSpecImpl<StoreError> for ServiceError {
    open spec fn obeys_from_spec() -> bool {
        true
    }

    open spec fn from_spec(v: StoreError) -> ServiceError {
        service_error_of(v)
    }
}

/// Free text that must hold something besides white space and at most
/// `max_chars` characters.
pub open spec fn text_ok(value: Seq<char>, max_chars: nat) -> bool {
    !is_blank(value) && value.len() <= max_chars
}

/// Checks free text; `message` says what was wrong.
pub fn validate_text(value: &str, max_chars: usize, message: &'static str) -> (r: Result<(), ServiceError>)
    ensures
        r is Ok <==> text_ok(value@, max_chars as nat),
        r matches Err(e) ==> e == ServiceError::InvalidReference(message),
{
    let v = chars_of(value);
    if blank(&v) || v.len() > max_chars {
        Err(ServiceError::InvalidReference(message))
    } else {
        Ok(())
    }
}

pub open spec fn provider_ok(name: Seq<char>, adapter: ProviderAdapter, base_url: Seq<char>) -> Result<(), &'static str> {
    if !text_ok(name, 100) {
        Err("provider name is invalid")
    } else if !text_ok(base_url, 2000) {
        Err("provider base URL is invalid")
    } else if validate_endpoint_spec(adapter, url_parts(base_url)) is Err {
        Err("only official DeepSeek and MiniMax endpoints are supported")
    } else {
        Ok(())
    }
}

/// Checks a Provider's name and endpoint.
pub fn validate_provider(name: &str, adapter: ProviderAdapter, base_url: &str) -> (r: Result<(), ServiceError>)
    ensures
        match r {
            Ok(()) => provider_ok(name@, adapter, base_url@) is Ok,
            Err(e) => provider_ok(name@, adapter, base_url@) matches Err(m) && e == ServiceError::InvalidReference(m),
        },
{
    validate_text(name, 100, "provider name is invalid")?;
    validate_text(base_url, 2_000, "provider base URL is invalid")?;
    if validate_provider_endpoint(adapter, base_url).is_err() {
        return Err(ServiceError::InvalidReference("only official DeepSeek and MiniMax endpoints are supported"));
    }
    Ok(())
}

/// A checked request to create a Provider whose credential lives elsewhere.
pub struct ProviderInput {
    pub name: String,
    pub adapter: ProviderAdapter,
    pub base_url: String,
    pub credential: String,
}

pub open spec fn external_provider_spec(name: Seq<char>, adapter: ProviderAdapter, base_url: Seq<char>, credential_ref: Seq<char>) -> Result<(), &'static str> {
    match provider_ok(name, adapter, base_url) {
        Err(m) => Err(m),
        Ok(()) => if !text_ok(credential_ref, 500) {
            Err("credential reference is invalid")
        } else if !has_prefix(credential_ref, "env://"@) {
            Err("external credential reference must use env://")
        } else if !valid_env_name(credential_ref.skip(6)) {
            Err("environment variable reference is invalid")
        } else {
            Ok(())
        },
    }
}

/// Checks a request to create a Provider that reads its key from an
/// environment variable (`env://NAME`). The name is trimmed.
pub fn prepare_external_provider(name: String, adapter: ProviderAdapter, base_url: String, credential_ref: String) -> (r: Result<
    ProviderInput,
    ServiceError,
>)
    ensures
        match r {
            Ok(p) => external_provider_spec(name@, adapter, base_url@, credential_ref@) is Ok && p.name@ == trim(name@)
                && p.adapter == adapter && p.base_url@ == base_url@ && p.credential@ == credential_ref@,
            Err(e) => external_provider_spec(name@, adapter, base_url@, credential_ref@) matches Err(m)
                && e == ServiceError::InvalidReference(m),
        },
{
    validate_provider(name.as_str(), adapter, base_url.as_str())?;
    validate_text(credential_ref.as_str(), 500, "credential reference is invalid")?;
    let v = chars_of(credential_ref.as_str());
    proof { reveal_strlit("env://"); }
    if !starts_with(&v, "env://") {
        return Err(ServiceError::InvalidReference("external credential reference must use env://"));
    }
    let env = crate::text::slice_chars(&v, 6, v.len());
    assert(env@ =~= v@.skip(6));
    if !env_name_ok(&env) {
        return Err(ServiceError::InvalidReference("environment variable reference is invalid"));
    }
    let trimmed_name = string_of(&trimmed(&chars_of(name.as_str())));
    Ok(ProviderInput { name: trimmed_name, adapter, base_url, credential: credential_ref })
}

pub open spec fn local_provider_spec(name: Seq<char>, adapter: ProviderAdapter, base_url: Seq<char>, secret: Seq<char>) -> Result<(), &'static str> {
    match provider_ok(name, adapter, base_url) {
        Err(m) => Err(m),
        Ok(()) => if !text_ok(secret, 8192) {
            Err("provider API key is invalid")
        } else {
            Ok(())
        },
    }
}

/// Checks a request to create a Provider whose API key is stored locally.
/// The name and the key are trimmed.
pub fn prepare_local_provider(name: String, adapter: ProviderAdapter, base_url: String, secret: String) -> (r: Result<
    ProviderInput,
    ServiceError,
>)
    ensures
        match r {
            Ok(p) => local_provider_spec(name@, adapter, base_url@, secret@) is Ok && p.name@ == trim(name@)
                && p.adapter == adapter && p.base_url@ == base_url@ && p.credential@ == trim(secret@),
            Err(e) => local_provider_spec(name@, adapter, base_url@, secret@) matches Err(m)
                && e == ServiceError::InvalidReference(m),
        },
{
    validate_provider(name.as_str(), adapter, base_url.as_str())?;
    validate_text(secret.as_str(), 8_192, "provider API key is invalid")?;
    let trimmed_name = string_of(&trimmed(&chars_of(name.as_str())));
    let trimmed_secret = string_of(&trimmed(&chars_of(secret.as_str())));
    Ok(ProviderInput { name: trimmed_name, adapter, base_url, credential: trimmed_secret })
}

/// Checks one model configuration value: a JSON object whose compact text
/// is at most 20000 bytes.
pub fn check_configuration(is_object: bool, serialized_bytes: usize, message: &'static str) -> (r: Result<(), ServiceError>)
    ensures
        r is Ok <==> (is_object && serialized_bytes <= 20_000),
        r matches Err(e) ==> e == ServiceError::InvalidReference(message),
{
    if !is_object || serialized_bytes > 20_000 {
        Err(ServiceError::InvalidReference(message))
    } else {
        Ok(())
    }
}

pub open spec fn ai_member_spec(handle: Seq<char>, display_name: Seq<char>, identity_prompt: Seq<char>) -> Result<(), ServiceError> {
    if !valid_handle(handle) {
        Err(ServiceError::Validation(ValidationError::InvalidHandle))
    } else if !text_ok(display_name, 100) {
        Err(ServiceError::InvalidReference("AI Member display name is invalid"))
    } else if !text_ok(identity_prompt, 100_000) {
        Err(ServiceError::InvalidReference("identity Prompt is invalid"))
    } else {
        Ok(())
    }
}

/// Checks a request to create or configure an AI Member.
pub fn validate_ai_member(handle: &str, display_name: &str, identity_prompt: &str) -> (r: Result<(), ServiceError>)
    ensures
        r == ai_member_spec(handle@, display_name@, identity_prompt@),
{
    match validate_handle(handle) {
        Ok(()) => {},
        Err(e) => { return Err(ServiceError::Validation(e)); },
    }
    validate_text(display_name, 100, "AI Member display name is invalid")?;
    validate_text(identity_prompt, 100_000, "identity Prompt is invalid")?;
    Ok(())
}

/// Whether each model configuration value is a JSON object whose compact
/// text is at most 20000 bytes; each value is given as (is an object, bytes).
pub open spec fn configurations_ok(configurations: Seq<(bool, usize)>) -> bool {
    forall|i: int| 0 <= i < configurations.len() ==> (#[trigger] configurations[i]).0 && configurations[i].1 <= 20_000
}

pub open spec fn model_spec(model_name: Seq<char>, display_name: Seq<char>, configurations: Seq<(bool, usize)>) -> Result<(), ServiceError> {
    if !text_ok(model_name, 200) {
        Err(ServiceError::InvalidReference("model name is invalid"))
    } else if !text_ok(display_name, 100) {
        Err(ServiceError::InvalidReference("model display name is invalid"))
    } else if !configurations_ok(configurations) {
        Err(ServiceError::InvalidReference("model configuration must be an object no larger than 20000 bytes"))
    } else {
        Ok(())
    }
}

/// Checks a request to create a Model: its name, display name and its
/// capabilities, limits and defaults.
pub fn validate_model(model_name: &str, display_name: &str, configurations: &Vec<(bool, usize)>) -> (r: Result<(), ServiceError>)
    ensures
        r == model_spec(model_name@, display_name@, configurations@),
{
    validate_text(model_name, 200, "model name is invalid")?;
    validate_text(display_name, 100, "model display name is invalid")?;
    let mut i: usize = 0;
    while i < configurations.len()
        invariant
            i <= configurations.len(),
            text_ok(model_name@, 200),
            text_ok(display_name@, 100),
            configurations_ok(configurations@.take(i as int)),
        decreases configurations.len() - i,
    {
        let (is_object, bytes) = configurations[i];
        if !is_object || bytes > 20_000 {
            assert(!configurations_ok(configurations@)) by {
                assert(configurations@[i as int] == (is_object, bytes));
            }
            return Err(ServiceError::InvalidReference("model configuration must be an object no larger than 20000 bytes"));
        }
        assert forall|j: int| 0 <= j < i + 1 implies (#[trigger] configurations@.take(i + 1)[j]).0 && configurations@.take(i + 1)[j].1 <= 20_000 by {
            if j < i {
                assert(configurations@.take(i + 1)[j] == configurations@.take(i as int)[j]);
            }
        }
        i += 1;
    }
    assert(configurations@.take(configurations.len() as int) =~= configurations@);
    Ok(())
}

pub open spec fn local_ai_member_spec(
    handle: Seq<char>,
    display_name: Seq<char>,
    identity_prompt: Seq<char>,
    provider_name: Seq<char>,
    model_name: Seq<char>,
    defaults_is_object: bool,
    defaults_bytes: usize,
) -> Result<(), ServiceError> {
    match ai_member_spec(handle, display_name, identity_prompt) {
        Err(e) => Err(e),
        Ok(()) => if !text_ok(provider_name, 100) {
            Err(ServiceError::InvalidReference("Provider name is invalid"))
        } else if !text_ok(model_name, 200) {
            Err(ServiceError::InvalidReference("model name is invalid"))
        } else if !defaults_is_object || defaults_bytes > 20_000 {
            Err(ServiceError::InvalidReference("AI Member execution defaults must be an object no larger than 20000 bytes"))
        } else {
            Ok(())
        },
    }
}

/// Checks a local request to configure an AI Member by Provider and model
/// name, with its execution defaults given as (is an object, bytes).
pub fn validate_local_ai_member(
    handle: &str,
    display_name: &str,
    identity_prompt: &str,
    provider_name: &str,
    model_name: &str,
    defaults_is_object: bool,
    defaults_bytes: usize,
) -> (r: Result<(), ServiceError>)
    ensures
        r == local_ai_member_spec(handle@, display_name@, identity_prompt@, provider_name@, model_name@, defaults_is_object, defaults_bytes),
{
    validate_ai_member(handle, display_name, identity_prompt)?;
    validate_text(provider_name, 100, "Provider name is invalid")?;
    validate_text(model_name, 200, "model name is invalid")?;
    if !defaults_is_object || defaults_bytes > 20_000 {
        return Err(ServiceError::InvalidReference("AI Member execution defaults must be an object no larger than 20000 bytes"));
    }
    Ok(())
}

pub open spec fn team_spec(handle: Seq<char>, display_name: Seq<char>) -> Result<(), ServiceError> {
    if !valid_handle(handle) {
        Err(ServiceError::Validation(ValidationError::InvalidHandle))
    } else if trim(display_name).len() == 0 || display_name.len() > 100 {
        Err(ServiceError::InvalidReference("team display name is invalid"))
    } else {
        Ok(())
    }
}

/// Checks a request to create a Team.
pub fn validate_team(handle: &str, display_name: &str) -> (r: Result<(), ServiceError>)
    ensures
        r == team_spec(handle@, display_name@),
{
    match validate_handle(handle) {
        Ok(()) => {},
        Err(e) => { return Err(ServiceError::Validation(e)); },
    }
    let v = chars_of(display_name);
    if blank(&v) || v.len() > 100 {
        return Err(ServiceError::InvalidReference("team display name is invalid"));
    }
    Ok(())
}

/// Only Humans create Topics.
pub fn check_topic_creator(kind: PrincipalKind) -> (r: Result<(), ServiceError>)
    ensures
        r is Ok <==> kind == PrincipalKind::Human,
        r matches Err(e) ==> e is Forbidden,
{
    if !matches!(kind, PrincipalKind::Human) {
        Err(ServiceError::Forbidden)
    } else {
        Ok(())
    }
}

/// Why bootstrapping the first Human failed.
#[derive(Debug)]
pub enum IdentityError {
    Validation(ValidationError),
    InvalidDisplayName,
    Store(StoreError),
}

pub open spec fn bootstrap_spec(handle: Seq<char>, display_name: Seq<char>) -> Result<Seq<char>, IdentityError> {
    if !valid_handle(handle) {
        Err(IdentityError::Validation(ValidationError::InvalidHandle))
    } else if trim(display_name).len() == 0 || trim(display_name).len() > 100 {
        Err(IdentityError::InvalidDisplayName)
    } else {
        Ok(trim(display_name))
    }
}

/// Checks the first Human's handle and display name; returns the trimmed
/// display name.
pub fn validate_bootstrap(handle: &str, display_name: &str) -> (r: Result<String, IdentityError>)
    ensures
        match r {
            Ok(d) => bootstrap_spec(handle@, display_name@) == Ok::<Seq<char>, IdentityError>(d@),
            Err(e) => bootstrap_spec(handle@, display_name@) == Err::<Seq<char>, IdentityError>(e),
        },
{
    match validate_handle(handle) {
        Ok(()) => {},
        Err(e) => { return Err(IdentityError::Validation(e)); },
    }
    let t = trimmed(&chars_of(display_name));
    if t.len() == 0 || t.len() > 100 {
        return Err(IdentityError::InvalidDisplayName);
    }
    Ok(string_of(&t))
}

} // verus!
