//! The storage rules that decide an outcome from what the database returned.
use vstd::prelude::*;

use crate::ids::{DispatchId, PrincipalId};
use crate::permissions::{role_from_text, role_rank, MembershipRole, PrincipalKind};
use crate::api::{parse_uuid, uuid_value};
use crate::execution::{id_text, uuid_text};
use crate::text::{chars_eq, chars_eq_str, chars_of};
use crate::topic::Principal;

verus! {

#[verifier::external_type_specification]
#[verifier::external_body]
pub struct ExSqlxError(sqlx::Error);

/// Why a storage operation failed.
#[derive(Debug)]
pub enum StoreError {
    AlreadyBootstrapped,
    Conflict,
    NotFound,
    PermissionDenied,
    InvalidReference(&'static str),
    CorruptData(&'static str),
    Sqlx(sqlx::Error),
}

/// The first Human and the token that authenticates it.
pub struct BootstrapOutput {
    pub principal: Principal,
    pub token: String,
}

/// A created value and the Dispatch its mentions opened, if any.
pub struct StoredCreation<T> {
    pub value: T,
    pub dispatch_id: Option<DispatchId>,
}

/// Whether a database error is a unique-constraint violation, as sqlx
/// reports it: a `sqlx::Error::Database` whose `is_unique_violation()` holds
/// (its error kind is `UniqueViolation`). It depends on the error alone.
pub uninterp spec fn unique_violation(error: sqlx::Error) -> bool;

/// Asks sqlx whether the database refused a write because of a unique
/// constraint; the answer is `unique_violation` of the error.
#[verifier::external_body]
fn is_unique_violation(error: &sqlx::Error) -> (b: bool)
    ensures
        b == unique_violation(*error),
{
    matches!(error, sqlx::Error::Database(database) if database.is_unique_violation())
}

/// The store error for a failed write: a conflict when a unique constraint
/// refused it, otherwise the database error itself.
pub fn constraint_error(error: sqlx::Error, unique_violation: bool) -> (e: StoreError)
    ensures
        unique_violation ==> e is Conflict,
        !unique_violation ==> e == StoreError::Sqlx(error),
{
    if unique_violation {
        StoreError::Conflict
    } else {
        StoreError::Sqlx(error)
    }
}

/// Maps a failed write to a store error.
pub fn map_constraint(error: sqlx::Error) -> (e: StoreError)
    ensures
        unique_violation(error) ==> e is Conflict,
        !unique_violation(error) ==> e == StoreError::Sqlx(error),
{
    let unique = is_unique_violation(&error);
    constraint_error(error, unique)
}

/// Reads an identifier stored in a row; an unreadable one is corrupt data
/// named by `label`.
pub fn stored_id(raw: &str, label: &'static str) -> (r: Result<u128, StoreError>)
    ensures
        match uuid_value(raw@) {
            Some(v) => r == Ok::<u128, StoreError>(v),
            None => r == Err::<u128, StoreError>(StoreError::CorruptData(label)),
        },
{
    match parse_uuid(raw) {
        Some(v) => Ok(v),
        None => Err(StoreError::CorruptData(label)),
    }
}

/// Reads the identifier of a row that must exist: no row is not found, an
/// unreadable identifier is corrupt data named by `label`.
pub fn found_id(raw: Option<&str>, label: &'static str) -> (r: Result<u128, StoreError>)
    ensures
        match raw {
            None => r == Err::<u128, StoreError>(StoreError::NotFound),
            Some(text) => match uuid_value(text@) {
                Some(v) => r == Ok::<u128, StoreError>(v),
                None => r == Err::<u128, StoreError>(StoreError::CorruptData(label)),
            },
        },
{
    match raw {
        None => Err(StoreError::NotFound),
        Some(text) => stored_id(text, label),
    }
}

/// A new Issue names an existing issue type: the database counted
/// `type_count` types with its key.
pub fn check_issue_type(type_count: i64) -> (r: Result<(), StoreError>)
    ensures
        type_count == 1 ==> r is Ok,
        type_count != 1 ==> r == Err::<(), StoreError>(StoreError::InvalidReference("unknown issue type")),
{
    if type_count != 1 {
        return Err(StoreError::InvalidReference("unknown issue type"));
    }
    Ok(())
}

/// A reference must lead where the request says: the identifier that the
/// database stored for it must be the hyphenated text of `expected`.
/// Otherwise the reference is invalid, with the given message.
pub fn check_reference(stored: Option<&str>, expected: u128, message: &'static str) -> (r: Result<(), StoreError>)
    ensures
        (stored is Some && stored->0@ == uuid_text(expected)) ==> r is Ok,
        !(stored is Some && stored->0@ == uuid_text(expected)) ==> r == Err::<(), StoreError>(StoreError::InvalidReference(message)),
{
    match stored {
        Some(text) => {
            let want = id_text(expected);
            let found = chars_of(text);
            let wanted = chars_of(want.as_str());
            if chars_eq(&found, &wanted) {
                Ok(())
            } else {
                Err(StoreError::InvalidReference(message))
            }
        },
        None => Err(StoreError::InvalidReference(message)),
    }
}

/// Only the server's bootstrap Human administers it: `count` is how many
/// active bootstrap Humans have the actor's identifier.
pub fn require_server_admin(count: i64) -> (r: Result<(), StoreError>)
    ensures
        count == 1 ==> r is Ok,
        count != 1 ==> r == Err::<(), StoreError>(StoreError::PermissionDenied),
{
    if count == 1 {
        Ok(())
    } else {
        Err(StoreError::PermissionDenied)
    }
}

/// Reading a Topic's members and Teams needs a membership: `count` is how
/// many memberships the actor has in the Topic. Without one the Topic is not
/// found.
pub fn require_topic_reader(count: i64) -> (r: Result<(), StoreError>)
    ensures
        count == 1 ==> r is Ok,
        count != 1 ==> r == Err::<(), StoreError>(StoreError::NotFound),
{
    if count == 1 {
        Ok(())
    } else {
        Err(StoreError::NotFound)
    }
}

/// A referenced row must exist exactly once (an enabled Provider, an enabled
/// model); otherwise the reference is invalid, with the given message.
pub fn exactly_one(count: i64, message: &'static str) -> (r: Result<(), StoreError>)
    ensures
        count == 1 ==> r is Ok,
        count != 1 ==> r == Err::<(), StoreError>(StoreError::InvalidReference(message)),
{
    if count != 1 {
        return Err(StoreError::InvalidReference(message));
    }
    Ok(())
}

/// Principals and Teams share one namespace of handles: `count` is how many
/// of the other kind already use the handle, ignoring case.
pub fn no_handle_collision(count: i64) -> (r: Result<(), StoreError>)
    ensures
        count == 0 ==> r is Ok,
        count != 0 ==> r == Err::<(), StoreError>(StoreError::Conflict),
{
    if count != 0 {
        return Err(StoreError::Conflict);
    }
    Ok(())
}

/// A worker may finish a claimed Run only while it still holds the job's
/// lease: `count` is how many leased jobs carry its lease token.
pub fn require_lease(count: i64) -> (r: Result<(), StoreError>)
    ensures
        count == 1 ==> r is Ok,
        count != 1 ==> r == Err::<(), StoreError>(StoreError::Conflict),
{
    if count == 1 {
        Ok(())
    } else {
        Err(StoreError::Conflict)
    }
}

/// Bootstrapping creates the first Human once: refused when the server
/// already records a bootstrap principal.
pub fn bootstrap_available(already_bootstrapped: bool) -> (r: Result<(), StoreError>)
    ensures
        !already_bootstrapped ==> r is Ok,
        already_bootstrapped ==> r == Err::<(), StoreError>(StoreError::AlreadyBootstrapped),
{
    if already_bootstrapped {
        return Err(StoreError::AlreadyBootstrapped);
    }
    Ok(())
}

/// The bootstrap claim must have recorded exactly one principal; otherwise
/// another bootstrap won the race.
pub fn bootstrap_claimed(rows_affected: u64) -> (r: Result<(), StoreError>)
    ensures
        rows_affected == 1 ==> r is Ok,
        rows_affected != 1 ==> r == Err::<(), StoreError>(StoreError::AlreadyBootstrapped),
{
    if rows_affected != 1 {
        return Err(StoreError::AlreadyBootstrapped);
    }
    Ok(())
}

/// Local maintenance acts as the bootstrap Human: `row` is its stored
/// identifier, kind, handle and display name, if the server has one. Without
/// an active Human bootstrap principal maintenance is not permitted.
pub fn local_admin(row: Option<(String, String, String, String)>) -> (r: Result<Principal, StoreError>)
    ensures
        match row {
            None => r == Err::<Principal, StoreError>(StoreError::PermissionDenied),
            Some((id, kind, handle, display_name)) => if kind@ != "human"@ {
                r == Err::<Principal, StoreError>(StoreError::PermissionDenied)
            } else {
                match uuid_value(id@) {
                    None => r == Err::<Principal, StoreError>(StoreError::CorruptData("bootstrap principal id")),
                    Some(v) => (r matches Ok(p) && p.id == PrincipalId(v) && p.kind == PrincipalKind::Human
                        && p.handle == handle && p.display_name == display_name),
                }
            },
        },
{
    match row {
        None => Err(StoreError::PermissionDenied),
        Some((id, kind, handle, display_name)) => {
            if !chars_eq_str(&chars_of(kind.as_str()), "human") {
                return Err(StoreError::PermissionDenied);
            }
            match stored_id(id.as_str(), "bootstrap principal id") {
                Ok(v) => Ok(Principal { id: PrincipalId(v), kind: PrincipalKind::Human, handle, display_name }),
                Err(e) => Err(e),
            }
        },
    }
}

/// Local configuration may only update a principal of that handle that is an
/// AI Member; any other principal is a conflict.
pub fn reconfigurable_member(kind: &str) -> (r: Result<(), StoreError>)
    ensures
        kind@ == "ai"@ ==> r is Ok,
        kind@ != "ai"@ ==> r == Err::<(), StoreError>(StoreError::Conflict),
{
    if chars_eq_str(&chars_of(kind), "ai") {
        Ok(())
    } else {
        Err(StoreError::Conflict)
    }
}

/// The model that local configuration names, found by Provider and model
/// name among the enabled ones.
pub fn configured_model_id(raw: Option<&str>) -> (r: Result<u128, StoreError>)
    ensures
        match raw {
            None => r == Err::<u128, StoreError>(StoreError::InvalidReference("enabled Provider or Model was not found")),
            Some(t) => match uuid_value(t@) {
                Some(v) => r == Ok::<u128, StoreError>(v),
                None => r == Err::<u128, StoreError>(StoreError::CorruptData("model identifier is invalid")),
            },
        },
{
    match raw {
        None => Err(StoreError::InvalidReference("enabled Provider or Model was not found")),
        Some(t) => stored_id(t, "model identifier is invalid"),
    }
}

/// Access check for reading a Topic: the actor must hold a known role.
pub fn require_read(role: Option<&str>) -> (r: Result<MembershipRole, StoreError>)
    ensures
        match r {
            Ok(m) => role is Some && role_from_text(role->0@) == Some(m),
            Err(e) => e is NotFound && (role is None || role_from_text(role->0@) is None),
        },
{
    match role {
        Some(text) => match MembershipRole::from_stored(text) {
            Some(m) => Ok(m),
            None => Err(StoreError::NotFound),
        },
        None => Err(StoreError::NotFound),
    }
}

/// Access check for adding Issues and Comments: the actor must be a member
/// who may contribute.
pub fn require_contribution(role: Option<&str>) -> (r: Result<(), StoreError>)
    ensures
        match r {
            Ok(()) => role is Some && role_from_text(role->0@) is Some
                && role_rank(role_from_text(role->0@)->0) >= 1,
            Err(e) => if role is Some && role_from_text(role->0@) is Some {
                e is PermissionDenied
            } else {
                e is NotFound
            },
        },
{
    let role = require_read(role)?;
    if !role.can_contribute() {
        return Err(StoreError::PermissionDenied);
    }
    Ok(())
}

/// Access check for managing members and Teams: a Human with write access.
pub fn require_human_writer(actor_kind: PrincipalKind, role: Option<&str>) -> (r: Result<(), StoreError>)
    ensures
        match r {
            Ok(()) => actor_kind == PrincipalKind::Human && role is Some && role->0@ == "write"@,
            Err(e) => e is PermissionDenied && !(actor_kind == PrincipalKind::Human && role is Some && role->0@ == "write"@),
        },
{
    if !matches!(actor_kind, PrincipalKind::Human) {
        return Err(StoreError::PermissionDenied);
    }
    match role {
        Some(text) => {
            let v = chars_of(text);
            if chars_eq_str(&v, "write") {
                Ok(())
            } else {
                Err(StoreError::PermissionDenied)
            }
        },
        None => Err(StoreError::PermissionDenied),
    }
}

/// Only Humans and AI Members can join a Topic.
pub fn check_topic_member_kind(kind: PrincipalKind) -> (r: Result<(), StoreError>)
    ensures
        r is Ok <==> (kind == PrincipalKind::Human || kind == PrincipalKind::Ai),
        r matches Err(e) ==> e == StoreError::InvalidReference("only Human and AI principals can join a topic"),
{
    if matches!(kind, PrincipalKind::Human | PrincipalKind::Ai) {
        Ok(())
    } else {
        Err(StoreError::InvalidReference("only Human and AI principals can join a topic"))
    }
}

/// A Team member must be an active Human or AI member of the Team's Topic;
/// `member_kind` is the stored kind of that membership, if there is one.
pub fn check_team_member_kind(member_kind: Option<&str>) -> (r: Result<(), StoreError>)
    ensures
        r is Ok <==> (member_kind is Some && (member_kind->0@ == "human"@ || member_kind->0@ == "ai"@)),
        r matches Err(e) ==> e == StoreError::InvalidReference("team member must be an active Topic member"),
{
    let ok = match member_kind {
        Some(k) => {
            let v = chars_of(k);
            chars_eq_str(&v, "human") || chars_eq_str(&v, "ai")
        },
        None => false,
    };
    if ok {
        Ok(())
    } else {
        Err(StoreError::InvalidReference("team member must be an active Topic member"))
    }
}

/// The identity prompt version after configuring an AI Member: unchanged when
/// the prompt is unchanged, otherwise the next version.
pub open spec fn prompt_version(current_version: int, current_prompt: Seq<char>, new_prompt: Seq<char>) -> int {
    if current_prompt == new_prompt { current_version } else { current_version + 1 }
}

/// Configuring an AI Member again with the prompt it already has keeps its
/// version: configuration is idempotent.
pub proof fn law_configuration_is_idempotent(version: int, current_prompt: Seq<char>, new_prompt: Seq<char>)
    ensures
        prompt_version(prompt_version(version, current_prompt, new_prompt), new_prompt, new_prompt)
            == prompt_version(version, current_prompt, new_prompt),
{
}

/// Computes the identity prompt version after configuring an AI Member.
pub fn next_prompt_version(current_version: i64, current_prompt: &str, new_prompt: &str) -> (v: i64)
    requires
        current_version < i64::MAX,
    ensures
        v == prompt_version(current_version as int, current_prompt@, new_prompt@),
{
    let a = chars_of(current_prompt);
    let b = chars_of(new_prompt);
    if crate::text::chars_eq(&a, &b) {
        current_version
    } else {
        current_version + 1
    }
}

/// Whether a Provider has a credential configured.
pub fn credential_configured(credential_ref: &str) -> (b: bool)
    ensures
        b == (credential_ref@.len() > 0),
{
    let v = chars_of(credential_ref);
    v.len() != 0
}

} // verus!
