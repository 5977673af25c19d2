//! Reading stored rows back into values: identifiers and stored words are
//! checked, and a column that does not read back is corrupt data named by
//! what it holds.
use vstd::prelude::*;

use crate::api::uuid_value;
use crate::dispatch::{
    dispatch_status_from_stored, status_from_text, Dispatch, DispatchStatus,
    mention_source_kind_from_stored, outcome_from_text, source_kind_from_text, DispatchTarget,
    DispatchTargetOutcome, DispatchTargetSource, Notification,
};
use crate::ids::{
    CommentId, DispatchId, ModelId, NotificationId, PrincipalId, ProviderId, RunId, TopicId,
    TopicItemId,
};
use crate::execution::ContextComment;
use crate::issue::{comment_kind_from_text, Comment, CommentKind, Issue};
use crate::models::{adapter_from_text, AiMember, Provider, ProviderAdapter, TopicMember};
use crate::permissions::{kind_from_text, principal_kind_from_stored, role_from_text, MembershipRole};
use crate::states::{issue_state_from_text, IssueState, RunConclusion, RunStatus};
use crate::store::{stored_id, StoreError};
use crate::text::{chars_eq_str, chars_of};
use crate::topic::{Principal, Topic};

verus! {

/// An identifier column read back, or the corrupt data named by `label`.
pub open spec fn read_id(raw: Seq<char>, label: &'static str) -> Result<u128, StoreError> {
    match uuid_value(raw) {
        Some(v) => Ok(v),
        None => Err(StoreError::CorruptData(label)),
    }
}

pub open spec fn str_view(raw: Option<&str>) -> Option<Seq<char>> {
    match raw {
        Some(t) => Some(t@),
        None => None,
    }
}

/// An optional identifier column read back: absent stays absent.
pub open spec fn read_opt_id(raw: Option<Seq<char>>, label: &'static str) -> Result<Option<u128>, StoreError> {
    match raw {
        None => Ok(None),
        Some(t) => match read_id(t, label) {
            Ok(v) => Ok(Some(v)),
            Err(e) => Err(e),
        },
    }
}

/// Reads an optional identifier column.
pub fn optional_stored_id(raw: Option<&str>, label: &'static str) -> (r: Result<Option<u128>, StoreError>)
    ensures
        r == read_opt_id(str_view(raw), label),
{
    match raw {
        None => Ok(None),
        Some(text) => match stored_id(text, label) {
            Ok(v) => Ok(Some(v)),
            Err(e) => Err(e),
        },
    }
}

fn read_id_exec(raw: &str, label: &'static str) -> (r: Result<u128, StoreError>)
    ensures
        r == read_id(raw@, label),
{
    stored_id(raw, label)
}

/// A stored principal: identifier and kind checked, in that order.
pub open spec fn principal_parts(id: Seq<char>, kind: Seq<char>) -> Result<(u128, crate::permissions::PrincipalKind), StoreError> {
    match read_id(id, "principal id") {
        Err(e) => Err(e),
        Ok(i) => match kind_from_text(kind) {
            None => Err(StoreError::CorruptData("principal kind")),
            Some(k) => Ok((i, k)),
        },
    }
}

/// Reads a stored principal back.
pub fn principal_from_stored(id: &str, kind: &str, handle: String, display_name: String) -> (r: Result<Principal, StoreError>)
    ensures
        match r {
            Ok(p) => principal_parts(id@, kind@) == Ok::<_, StoreError>((p.id.0, p.kind))
                && p.handle == handle && p.display_name == display_name,
            Err(e) => principal_parts(id@, kind@) == Err::<(u128, crate::permissions::PrincipalKind), _>(e),
        },
{
    let i = match read_id_exec(id, "principal id") {
        Ok(i) => i,
        Err(e) => { return Err(e); },
    };
    let k = match principal_kind_from_stored(kind) {
        Ok(k) => k,
        Err(e) => { return Err(e); },
    };
    Ok(Principal { id: PrincipalId(i), kind: k, handle, display_name })
}

/// Reads a stored Topic back.
pub fn topic_from_stored(id: &str, key: String, title: String, description: String, revision: i64) -> (r: Result<Topic, StoreError>)
    ensures
        match r {
            Ok(t) => read_id(id@, "topic id") == Ok::<u128, StoreError>(t.id.0) && t.key == key && t.title == title
                && t.description == description && t.revision == revision,
            Err(e) => read_id(id@, "topic id") == Err::<u128, StoreError>(e),
        },
{
    match read_id_exec(id, "topic id") {
        Ok(i) => Ok(Topic { id: TopicId(i), key, title, description, revision }),
        Err(e) => Err(e),
    }
}

/// The checked columns of a stored Issue, in the order they are read.
pub open spec fn issue_parts(id: Seq<char>, topic_id: Seq<char>, state: Seq<char>, parent: Option<Seq<char>>, author: Seq<char>)
    -> Result<(u128, u128, IssueState, Option<u128>, u128), StoreError>
{
    match read_id(id, "issue id") {
        Err(e) => Err(e),
        Ok(a) => match read_id(topic_id, "topic id") {
            Err(e) => Err(e),
            Ok(b) => match issue_state_from_text(state) {
                None => Err(StoreError::CorruptData("issue state")),
                Some(s) => match read_opt_id(parent, "parent issue id") {
                    Err(e) => Err(e),
                    Ok(p) => match read_id(author, "author id") {
                        Err(e) => Err(e),
                        Ok(c) => Ok((a, b, s, p, c)),
                    },
                },
            },
        },
    }
}

pub open spec fn item_ids(o: Option<TopicItemId>) -> Option<u128> {
    match o {
        Some(i) => Some(i.0),
        None => None,
    }
}

/// Reads a stored Issue back.
pub fn issue_from_stored(
    id: &str,
    topic_id: &str,
    number: i64,
    issue_type: String,
    state: &str,
    title: String,
    body: String,
    parent_issue_id: Option<&str>,
    author_id: &str,
    revision: i64,
) -> (r: Result<Issue, StoreError>)
    ensures
        match r {
            Ok(i) => issue_parts(id@, topic_id@, state@, str_view(parent_issue_id), author_id@)
                    == Ok::<_, StoreError>((i.id.0, i.topic_id.0, i.state, item_ids(i.parent_issue_id), i.author_id.0))
                && i.number == number && i.issue_type == issue_type && i.title == title && i.body == body
                && i.revision == revision,
            Err(e) => issue_parts(id@, topic_id@, state@, str_view(parent_issue_id), author_id@)
                == Err::<(u128, u128, IssueState, Option<u128>, u128), _>(e),
        },
{
    let a = match read_id_exec(id, "issue id") {
        Ok(v) => v,
        Err(e) => { return Err(e); },
    };
    let b = match read_id_exec(topic_id, "topic id") {
        Ok(v) => v,
        Err(e) => { return Err(e); },
    };
    let s = match IssueState::from_stored(state) {
        Some(s) => s,
        None => { return Err(StoreError::CorruptData("issue state")); },
    };
    let p = match optional_stored_id(parent_issue_id, "parent issue id") {
        Ok(p) => p,
        Err(e) => { return Err(e); },
    };
    let c = match read_id_exec(author_id, "author id") {
        Ok(v) => v,
        Err(e) => { return Err(e); },
    };
    let parent = match p {
        Some(v) => Some(TopicItemId(v)),
        None => None,
    };
    Ok(Issue {
        id: TopicItemId(a),
        topic_id: TopicId(b),
        number,
        issue_type,
        state: s,
        title,
        body,
        parent_issue_id: parent,
        author_id: PrincipalId(c),
        revision,
    })
}

/// The checked columns of a stored Comment, in the order they are read.
pub open spec fn comment_parts(id: Seq<char>, item_id: Seq<char>, author: Seq<char>, kind: Seq<char>, reply: Option<Seq<char>>)
    -> Result<(u128, u128, u128, CommentKind, Option<u128>), StoreError>
{
    match read_id(id, "comment id") {
        Err(e) => Err(e),
        Ok(a) => match read_id(item_id, "item id") {
            Err(e) => Err(e),
            Ok(b) => match read_id(author, "author id") {
                Err(e) => Err(e),
                Ok(c) => match comment_kind_from_text(kind) {
                    None => Err(StoreError::CorruptData("comment kind")),
                    Some(k) => match read_opt_id(reply, "reply comment id") {
                        Err(e) => Err(e),
                        Ok(p) => Ok((a, b, c, k, p)),
                    },
                },
            },
        },
    }
}

pub open spec fn comment_ids(o: Option<CommentId>) -> Option<u128> {
    match o {
        Some(i) => Some(i.0),
        None => None,
    }
}

/// Reads a stored Comment back.
pub fn comment_from_stored(
    id: &str,
    item_id: &str,
    author_id: &str,
    kind: &str,
    body: String,
    revision: i64,
    reply_to_comment_id: Option<&str>,
) -> (r: Result<Comment, StoreError>)
    ensures
        match r {
            Ok(c) => comment_parts(id@, item_id@, author_id@, kind@, str_view(reply_to_comment_id))
                    == Ok::<_, StoreError>((c.id.0, c.item_id.0, c.author_id.0, c.kind, comment_ids(c.reply_to_comment_id)))
                && c.body == body && c.revision == revision,
            Err(e) => comment_parts(id@, item_id@, author_id@, kind@, str_view(reply_to_comment_id))
                == Err::<(u128, u128, u128, CommentKind, Option<u128>), _>(e),
        },
{
    let a = match read_id_exec(id, "comment id") {
        Ok(v) => v,
        Err(e) => { return Err(e); },
    };
    let b = match read_id_exec(item_id, "item id") {
        Ok(v) => v,
        Err(e) => { return Err(e); },
    };
    let c = match read_id_exec(author_id, "author id") {
        Ok(v) => v,
        Err(e) => { return Err(e); },
    };
    let k = match CommentKind::from_stored(kind) {
        Some(k) => k,
        None => { return Err(StoreError::CorruptData("comment kind")); },
    };
    let p = match optional_stored_id(reply_to_comment_id, "reply comment id") {
        Ok(p) => p,
        Err(e) => { return Err(e); },
    };
    let reply = match p {
        Some(v) => Some(CommentId(v)),
        None => None,
    };
    Ok(Comment { id: CommentId(a), item_id: TopicItemId(b), author_id: PrincipalId(c), kind: k, body, revision, reply_to_comment_id: reply })
}

/// The checked columns of a stored Notification.
pub open spec fn notification_parts(id: Seq<char>, dispatch_id: Seq<char>, recipient: Seq<char>) -> Result<(u128, u128, u128), StoreError> {
    match read_id(id, "notification id") {
        Err(e) => Err(e),
        Ok(a) => match read_id(dispatch_id, "dispatch id") {
            Err(e) => Err(e),
            Ok(b) => match read_id(recipient, "recipient id") {
                Err(e) => Err(e),
                Ok(c) => Ok((a, b, c)),
            },
        },
    }
}

/// Reads a stored Notification back; it is read once it has a read time.
pub fn notification_from_stored(id: &str, dispatch_id: &str, recipient_id: &str, kind: String, read_at: Option<&str>) -> (r: Result<
    Notification,
    StoreError,
>)
    ensures
        match r {
            Ok(n) => notification_parts(id@, dispatch_id@, recipient_id@) == Ok::<_, StoreError>((n.id.0, n.dispatch_id.0, n.recipient_id.0))
                && n.kind == kind && n.read == (read_at is Some),
            Err(e) => notification_parts(id@, dispatch_id@, recipient_id@) == Err::<(u128, u128, u128), _>(e),
        },
{
    let a = match read_id_exec(id, "notification id") {
        Ok(v) => v,
        Err(e) => { return Err(e); },
    };
    let b = match read_id_exec(dispatch_id, "dispatch id") {
        Ok(v) => v,
        Err(e) => { return Err(e); },
    };
    let c = match read_id_exec(recipient_id, "recipient id") {
        Ok(v) => v,
        Err(e) => { return Err(e); },
    };
    Ok(Notification { id: NotificationId(a), dispatch_id: DispatchId(b), recipient_id: PrincipalId(c), kind, read: read_at.is_some() })
}

/// Reads a stored mention source of a Dispatch target back.
pub fn target_source_from_stored(mention_handle: String, source_kind: &str) -> (r: Result<DispatchTargetSource, StoreError>)
    ensures
        match r {
            Ok(s) => source_kind_from_text(source_kind@) == Some(s.source_kind) && s.mention_handle == mention_handle,
            Err(e) => source_kind_from_text(source_kind@) is None && e == StoreError::CorruptData("mention source kind"),
        },
{
    match mention_source_kind_from_stored(source_kind) {
        Some(k) => Ok(DispatchTargetSource { mention_handle, source_kind: k }),
        None => Err(StoreError::CorruptData("mention source kind")),
    }
}

pub open spec fn read_opt_kind(raw: Option<Seq<char>>) -> Result<Option<crate::permissions::PrincipalKind>, StoreError> {
    match raw {
        None => Ok(None),
        Some(t) => match kind_from_text(t) {
            Some(k) => Ok(Some(k)),
            None => Err(StoreError::CorruptData("principal kind")),
        },
    }
}

/// The checked columns of a stored Dispatch target, in the order they are read.
pub open spec fn target_parts(principal_id: Option<Seq<char>>, principal_kind: Option<Seq<char>>, outcome: Seq<char>, notification_id: Option<Seq<char>>, run_id: Option<Seq<char>>)
    -> Result<(Option<u128>, Option<crate::permissions::PrincipalKind>, DispatchTargetOutcome, Option<u128>, Option<u128>), StoreError>
{
    match read_opt_id(principal_id, "principal id") {
        Err(e) => Err(e),
        Ok(p) => match read_opt_kind(principal_kind) {
            Err(e) => Err(e),
            Ok(k) => match outcome_from_text(outcome) {
                None => Err(StoreError::CorruptData("dispatch target outcome")),
                Some(o) => match read_opt_id(notification_id, "notification id") {
                    Err(e) => Err(e),
                    Ok(n) => match read_opt_id(run_id, "run id") {
                        Err(e) => Err(e),
                        Ok(r) => Ok((p, k, o, n, r)),
                    },
                },
            },
        },
    }
}

pub open spec fn principal_ids(o: Option<PrincipalId>) -> Option<u128> {
    match o {
        Some(i) => Some(i.0),
        None => None,
    }
}

pub open spec fn notification_ids(o: Option<NotificationId>) -> Option<u128> {
    match o {
        Some(i) => Some(i.0),
        None => None,
    }
}

pub open spec fn run_ids(o: Option<RunId>) -> Option<u128> {
    match o {
        Some(i) => Some(i.0),
        None => None,
    }
}

/// Reads a stored Dispatch target back, with its mention sources.
pub fn target_from_stored(
    principal_id: Option<&str>,
    handle: String,
    principal_kind: Option<&str>,
    outcome: &str,
    notification_id: Option<&str>,
    run_id: Option<&str>,
    skip_reason: Option<String>,
    sources: Vec<DispatchTargetSource>,
) -> (r: Result<DispatchTarget, StoreError>)
    ensures
        match r {
            Ok(t) => target_parts(str_view(principal_id), str_view(principal_kind), outcome@, str_view(notification_id), str_view(run_id))
                    == Ok::<_, StoreError>((principal_ids(t.principal_id), t.principal_kind, t.outcome, notification_ids(t.notification_id), run_ids(t.run_id)))
                && t.handle == handle && t.skip_reason == skip_reason && t.sources == sources,
            Err(e) => target_parts(str_view(principal_id), str_view(principal_kind), outcome@, str_view(notification_id), str_view(run_id))
                == Err::<(Option<u128>, Option<crate::permissions::PrincipalKind>, DispatchTargetOutcome, Option<u128>, Option<u128>), _>(e),
        },
{
    let p = match optional_stored_id(principal_id, "principal id") {
        Ok(p) => p,
        Err(e) => { return Err(e); },
    };
    let k = match principal_kind {
        None => None,
        Some(text) => match principal_kind_from_stored(text) {
            Ok(k) => Some(k),
            Err(e) => { return Err(e); },
        },
    };
    let o = match DispatchTargetOutcome::from_stored(outcome) {
        Some(o) => o,
        None => { return Err(StoreError::CorruptData("dispatch target outcome")); },
    };
    let n = match optional_stored_id(notification_id, "notification id") {
        Ok(n) => n,
        Err(e) => { return Err(e); },
    };
    let q = match optional_stored_id(run_id, "run id") {
        Ok(q) => q,
        Err(e) => { return Err(e); },
    };
    Ok(DispatchTarget {
        principal_id: match p { Some(v) => Some(PrincipalId(v)), None => None },
        handle,
        principal_kind: k,
        outcome: o,
        notification_id: match n { Some(v) => Some(NotificationId(v)), None => None },
        run_id: match q { Some(v) => Some(RunId(v)), None => None },
        skip_reason,
        sources,
    })
}

pub open spec fn run_status_from_text(t: Seq<char>) -> Option<RunStatus> {
    if t == "queued"@ {
        Some(RunStatus::Queued)
    } else if t == "in_progress"@ {
        Some(RunStatus::InProgress)
    } else if t == "completed"@ {
        Some(RunStatus::Completed)
    } else {
        None
    }
}

/// Reads a stored Run status back; any other word is corrupt data.
pub fn run_status_from_stored(value: &str) -> (r: Result<RunStatus, StoreError>)
    ensures
        match run_status_from_text(value@) {
            Some(s) => r == Ok::<RunStatus, StoreError>(s),
            None => r == Err::<RunStatus, StoreError>(StoreError::CorruptData("run status")),
        },
{
    let v = chars_of(value);
    if chars_eq_str(&v, "queued") {
        Ok(RunStatus::Queued)
    } else if chars_eq_str(&v, "in_progress") {
        Ok(RunStatus::InProgress)
    } else if chars_eq_str(&v, "completed") {
        Ok(RunStatus::Completed)
    } else {
        Err(StoreError::CorruptData("run status"))
    }
}

pub open spec fn conclusion_from_text(t: Seq<char>) -> Option<RunConclusion> {
    if t == "success"@ {
        Some(RunConclusion::Success)
    } else if t == "failure"@ {
        Some(RunConclusion::Failure)
    } else if t == "cancelled"@ {
        Some(RunConclusion::Cancelled)
    } else if t == "timed_out"@ {
        Some(RunConclusion::TimedOut)
    } else if t == "skipped"@ {
        Some(RunConclusion::Skipped)
    } else if t == "neutral"@ {
        Some(RunConclusion::Neutral)
    } else {
        None
    }
}

/// Reads a stored Run conclusion back; any other word is corrupt data.
pub fn run_conclusion_from_stored(value: &str) -> (r: Result<RunConclusion, StoreError>)
    ensures
        match conclusion_from_text(value@) {
            Some(c) => r == Ok::<RunConclusion, StoreError>(c),
            None => r == Err::<RunConclusion, StoreError>(StoreError::CorruptData("run conclusion")),
        },
{
    let v = chars_of(value);
    if chars_eq_str(&v, "success") {
        Ok(RunConclusion::Success)
    } else if chars_eq_str(&v, "failure") {
        Ok(RunConclusion::Failure)
    } else if chars_eq_str(&v, "cancelled") {
        Ok(RunConclusion::Cancelled)
    } else if chars_eq_str(&v, "timed_out") {
        Ok(RunConclusion::TimedOut)
    } else if chars_eq_str(&v, "skipped") {
        Ok(RunConclusion::Skipped)
    } else if chars_eq_str(&v, "neutral") {
        Ok(RunConclusion::Neutral)
    } else {
        Err(StoreError::CorruptData("run conclusion"))
    }
}

/// The checked columns of a stored Provider.
pub open spec fn provider_parts(id: Seq<char>, adapter: Seq<char>) -> Result<(u128, ProviderAdapter), StoreError> {
    match read_id(id, "provider id") {
        Err(e) => Err(e),
        Ok(i) => match adapter_from_text(adapter) {
            None => Err(StoreError::CorruptData("provider adapter")),
            Some(a) => Ok((i, a)),
        },
    }
}

/// Reads a stored Provider back; its credential is configured when its
/// reference is not empty, and it is enabled unless the flag is 0.
pub fn provider_from_stored(id: &str, name: String, adapter: &str, base_url: String, credential_ref: &str, enabled: i64) -> (r: Result<
    Provider,
    StoreError,
>)
    ensures
        match r {
            Ok(p) => provider_parts(id@, adapter@) == Ok::<_, StoreError>((p.id.0, p.adapter)) && p.name == name
                && p.base_url == base_url && p.credential_configured == (credential_ref@.len() > 0)
                && p.enabled == (enabled != 0),
            Err(e) => provider_parts(id@, adapter@) == Err::<(u128, ProviderAdapter), _>(e),
        },
{
    let i = match read_id_exec(id, "provider id") {
        Ok(v) => v,
        Err(e) => { return Err(e); },
    };
    let a = match ProviderAdapter::from_stored(adapter) {
        Some(a) => a,
        None => { return Err(StoreError::CorruptData("provider adapter")); },
    };
    let configured = crate::store::credential_configured(credential_ref);
    Ok(Provider { id: ProviderId(i), name, adapter: a, base_url, credential_configured: configured, enabled: enabled != 0 })
}

/// Reads a stored Topic membership back.
pub fn topic_member_from_stored(principal: Principal, role: &str) -> (r: Result<TopicMember, StoreError>)
    ensures
        match r {
            Ok(m) => role_from_text(role@) == Some(m.role) && m.principal == principal,
            Err(e) => role_from_text(role@) is None && e == StoreError::CorruptData("membership role"),
        },
{
    match MembershipRole::from_stored(role) {
        Some(r) => Ok(TopicMember { principal, role: r }),
        None => Err(StoreError::CorruptData("membership role")),
    }
}

/// The checked columns of a stored Dispatch, in the order they are read.
pub open spec fn dispatch_parts(id: Seq<char>, topic_id: Seq<char>, author: Seq<char>, status: Seq<char>)
    -> Result<(u128, u128, u128, DispatchStatus), StoreError>
{
    match read_id(id, "dispatch id") {
        Err(e) => Err(e),
        Ok(a) => match read_id(topic_id, "topic id") {
            Err(e) => Err(e),
            Ok(b) => match read_id(author, "author id") {
                Err(e) => Err(e),
                Ok(c) => match status_from_text(status) {
                    None => Err(StoreError::CorruptData("dispatch status")),
                    Some(s) => Ok((a, b, c, s)),
                },
            },
        },
    }
}

/// Reads a stored Dispatch back, with its mentions and targets.
pub fn dispatch_from_stored(
    id: &str,
    topic_id: &str,
    source_type: String,
    source_id: String,
    source_revision: i64,
    author_id: &str,
    status: &str,
    mentions: Vec<String>,
    targets: Vec<DispatchTarget>,
) -> (r: Result<Dispatch, StoreError>)
    ensures
        match r {
            Ok(d) => dispatch_parts(id@, topic_id@, author_id@, status@) == Ok::<_, StoreError>((d.id.0, d.topic_id.0, d.author_id.0, d.status))
                && d.source_type == source_type && d.source_id == source_id && d.source_revision == source_revision
                && d.mentions == mentions && d.targets == targets,
            Err(e) => dispatch_parts(id@, topic_id@, author_id@, status@) == Err::<(u128, u128, u128, DispatchStatus), _>(e),
        },
{
    let a = match read_id_exec(id, "dispatch id") {
        Ok(v) => v,
        Err(e) => { return Err(e); },
    };
    let b = match read_id_exec(topic_id, "topic id") {
        Ok(v) => v,
        Err(e) => { return Err(e); },
    };
    let c = match read_id_exec(author_id, "author id") {
        Ok(v) => v,
        Err(e) => { return Err(e); },
    };
    let st = match dispatch_status_from_stored(status) {
        Ok(st) => st,
        Err(e) => { return Err(e); },
    };
    Ok(Dispatch {
        id: DispatchId(a),
        topic_id: TopicId(b),
        source_type,
        source_id,
        source_revision,
        author_id: PrincipalId(c),
        status: st,
        mentions,
        targets,
    })
}

/// Reads a stored AI Member back.
pub fn ai_member_from_stored(principal: Principal, identity_prompt: String, identity_prompt_version: i64, default_model_id: &str) -> (r: Result<
    AiMember,
    StoreError,
>)
    ensures
        match r {
            Ok(m) => read_id(default_model_id@, "model id") == Ok::<u128, StoreError>(m.default_model_id.0)
                && m.principal == principal && m.identity_prompt == identity_prompt
                && m.identity_prompt_version == identity_prompt_version,
            Err(e) => read_id(default_model_id@, "model id") == Err::<u128, StoreError>(e),
        },
{
    match read_id_exec(default_model_id, "model id") {
        Ok(v) => Ok(AiMember { principal, identity_prompt, identity_prompt_version, default_model_id: ModelId(v) }),
        Err(e) => Err(e),
    }
}

/// The Issue a pending Dispatch belongs to, as stored for its source: a
/// missing source is corrupt data, and so is an unreadable identifier.
pub fn dispatch_item_id(raw: Option<&str>) -> (r: Result<u128, StoreError>)
    ensures
        match raw {
            None => r == Err::<u128, StoreError>(StoreError::CorruptData("dispatch source")),
            Some(t) => r == read_id(t@, "item id"),
        },
{
    match raw {
        None => Err(StoreError::CorruptData("dispatch source")),
        Some(t) => read_id_exec(t, "item id"),
    }
}

/// The checked columns of an earlier Comment in a Run's context.
pub open spec fn context_comment_parts(id: Seq<char>, author: Seq<char>) -> Result<(u128, u128), StoreError> {
    match read_id(id, "comment id") {
        Err(e) => Err(e),
        Ok(a) => match read_id(author, "author id") {
            Err(e) => Err(e),
            Ok(b) => Ok((a, b)),
        },
    }
}

/// Reads an earlier Comment of an Issue back for a Run's context.
pub fn context_comment_from_stored(
    id: &str,
    author_id: &str,
    author_handle: String,
    author_kind: String,
    kind: String,
    body: String,
    revision: i64,
) -> (r: Result<ContextComment, StoreError>)
    ensures
        match r {
            Ok(c) => context_comment_parts(id@, author_id@) == Ok::<_, StoreError>((c.id.0, c.author_id.0))
                && c.author_handle == author_handle && c.author_kind == author_kind && c.kind == kind
                && c.body == body && c.revision == revision,
            Err(e) => context_comment_parts(id@, author_id@) == Err::<(u128, u128), _>(e),
        },
{
    let a = match read_id_exec(id, "comment id") {
        Ok(v) => v,
        Err(e) => { return Err(e); },
    };
    let b = match read_id_exec(author_id, "author id") {
        Ok(v) => v,
        Err(e) => { return Err(e); },
    };
    Ok(ContextComment { id: CommentId(a), author_id: PrincipalId(b), author_handle, author_kind, kind, body, revision })
}

} // verus!
