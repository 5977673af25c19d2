//! Dispatches: turning the mentions of a new Issue or Comment into
//! notifications for Humans and queued Runs for AI Members.
use vstd::prelude::*;

use crate::ids::{DispatchId, NotificationId, PrincipalId, RunId, TopicId};
use crate::permissions::PrincipalKind;
use crate::text::{chars_eq_str, chars_of};
use crate::store::StoreError;

verus! {

/// Where a Dispatch stands.
#[derive(Debug, Clone, Copy, PartialEq, Eq, Structural)]
pub enum DispatchStatus {
    Pending,
    Dispatched,
    PartiallyDispatched,
    Rejected,
}

/// What happened to one target of a Dispatch.
#[derive(Debug, Clone, Copy, PartialEq, Eq, Structural)]
pub enum DispatchTargetOutcome {
    Notified,
    Queued,
    Skipped,
}

/// Whether a target was mentioned by its own handle or through a Team.
#[derive(Debug, Clone, Copy, PartialEq, Eq, Structural)]
pub enum MentionSourceKind {
    Direct,
    Team,
}

/// One mention that led to a target.
#[derive(Debug, Clone, PartialEq, Eq)]
pub struct DispatchTargetSource {
    pub mention_handle: String,
    pub source_kind: MentionSourceKind,
}

/// A resolved target of a Dispatch.
#[derive(Debug, Clone, PartialEq, Eq)]
pub struct DispatchTarget {
    pub principal_id: Option<PrincipalId>,
    pub handle: String,
    pub principal_kind: Option<PrincipalKind>,
    pub outcome: DispatchTargetOutcome,
    pub notification_id: Option<NotificationId>,
    pub run_id: Option<RunId>,
    pub skip_reason: Option<String>,
    pub sources: Vec<DispatchTargetSource>,
}

/// The mentions of one Issue or Comment revision and what became of them.
#[derive(Debug, Clone, PartialEq, Eq)]
pub struct Dispatch {
    pub id: DispatchId,
    pub topic_id: TopicId,
    pub source_type: String,
    pub source_id: String,
    pub source_revision: i64,
    pub author_id: PrincipalId,
    pub status: DispatchStatus,
    pub mentions: Vec<String>,
    pub targets: Vec<DispatchTarget>,
}

/// A mention notification for a Human.
#[derive(Debug, Clone, PartialEq, Eq)]
pub struct Notification {
    pub id: NotificationId,
    pub dispatch_id: DispatchId,
    pub recipient_id: PrincipalId,
    pub kind: String,
    pub read: bool,
}

pub open spec fn status_text(s: DispatchStatus) -> Seq<char> {
    match s {
        DispatchStatus::Pending => "pending"@,
        DispatchStatus::Dispatched => "dispatched"@,
        DispatchStatus::PartiallyDispatched => "partially_dispatched"@,
        DispatchStatus::Rejected => "rejected"@,
    }
}

pub open spec fn status_from_text(t: Seq<char>) -> Option<DispatchStatus> {
    if t == "pending"@ {
        Some(DispatchStatus::Pending)
    } else if t == "dispatched"@ {
        Some(DispatchStatus::Dispatched)
    } else if t == "partially_dispatched"@ {
        Some(DispatchStatus::PartiallyDispatched)
    } else if t == "rejected"@ {
        Some(DispatchStatus::Rejected)
    } else {
        None
    }
}

impl DispatchStatus {
    /// The word under which the status is stored and shown.
    pub fn as_str(self) -> (text: &'static str)
        ensures
            text@ == status_text(self),
    {
        match self {
            DispatchStatus::Pending => "pending",
            DispatchStatus::Dispatched => "dispatched",
            DispatchStatus::PartiallyDispatched => "partially_dispatched",
            DispatchStatus::Rejected => "rejected",
        }
    }
}

/// Reads a stored Dispatch status back; any other word is corrupt data.
pub fn dispatch_status_from_stored(value: &str) -> (r: Result<DispatchStatus, StoreError>)
    ensures
        match status_from_text(value@) {
            Some(s) => r == Ok::<DispatchStatus, StoreError>(s),
            None => r == Err::<DispatchStatus, StoreError>(StoreError::CorruptData("dispatch status")),
        },
{
    let v = chars_of(value);
    if chars_eq_str(&v, "pending") {
        Ok(DispatchStatus::Pending)
    } else if chars_eq_str(&v, "dispatched") {
        Ok(DispatchStatus::Dispatched)
    } else if chars_eq_str(&v, "partially_dispatched") {
        Ok(DispatchStatus::PartiallyDispatched)
    } else if chars_eq_str(&v, "rejected") {
        Ok(DispatchStatus::Rejected)
    } else {
        Err(StoreError::CorruptData("dispatch status"))
    }
}

pub open spec fn outcome_text(o: DispatchTargetOutcome) -> Seq<char> {
    match o {
        DispatchTargetOutcome::Notified => "notified"@,
        DispatchTargetOutcome::Queued => "queued"@,
        DispatchTargetOutcome::Skipped => "skipped"@,
    }
}

pub open spec fn outcome_from_text(t: Seq<char>) -> Option<DispatchTargetOutcome> {
    if t == "notified"@ {
        Some(DispatchTargetOutcome::Notified)
    } else if t == "queued"@ {
        Some(DispatchTargetOutcome::Queued)
    } else if t == "skipped"@ {
        Some(DispatchTargetOutcome::Skipped)
    } else {
        None
    }
}

impl DispatchTargetOutcome {
    /// The word under which the outcome is stored.
    pub fn as_str(self) -> (text: &'static str)
        ensures
            text@ == outcome_text(self),
    {
        match self {
            DispatchTargetOutcome::Notified => "notified",
            DispatchTargetOutcome::Queued => "queued",
            DispatchTargetOutcome::Skipped => "skipped",
        }
    }

    /// Reads a stored outcome back.
    pub fn from_stored(value: &str) -> (outcome: Option<DispatchTargetOutcome>)
        ensures
            outcome == outcome_from_text(value@),
    {
        let v = chars_of(value);
        if chars_eq_str(&v, "notified") {
            Some(DispatchTargetOutcome::Notified)
        } else if chars_eq_str(&v, "queued") {
            Some(DispatchTargetOutcome::Queued)
        } else if chars_eq_str(&v, "skipped") {
            Some(DispatchTargetOutcome::Skipped)
        } else {
            None
        }
    }
}

pub open spec fn source_kind_text(k: MentionSourceKind) -> Seq<char> {
    match k {
        MentionSourceKind::Direct => "direct"@,
        MentionSourceKind::Team => "team"@,
    }
}

pub open spec fn source_kind_from_text(t: Seq<char>) -> Option<MentionSourceKind> {
    if t == "direct"@ {
        Some(MentionSourceKind::Direct)
    } else if t == "team"@ {
        Some(MentionSourceKind::Team)
    } else {
        None
    }
}

/// The word under which a mention source kind is stored.
pub fn mention_source_kind_as_str(value: MentionSourceKind) -> (text: &'static str)
    ensures
        text@ == source_kind_text(value),
{
    match value {
        MentionSourceKind::Direct => "direct",
        MentionSourceKind::Team => "team",
    }
}

/// Reads a stored mention source kind back.
pub fn mention_source_kind_from_stored(value: &str) -> (kind: Option<MentionSourceKind>)
    ensures
        kind == source_kind_from_text(value@),
{
    let v = chars_of(value);
    if chars_eq_str(&v, "direct") {
        Some(MentionSourceKind::Direct)
    } else if chars_eq_str(&v, "team") {
        Some(MentionSourceKind::Team)
    } else {
        None
    }
}

/// Why a mentioned handle produced no notification or Run.
#[derive(Debug, Clone, Copy, PartialEq, Eq, Structural)]
pub enum SkipReason {
    PrincipalInactive,
    NotTopicMember,
    TeamHasNoMembers,
    UnknownHandle,
    AiConfigurationUnavailable,
    UnsupportedPrincipalKind,
}

pub open spec fn skip_reason_text(r: SkipReason) -> Seq<char> {
    match r {
        SkipReason::PrincipalInactive => "principal_inactive"@,
        SkipReason::NotTopicMember => "not_topic_member"@,
        SkipReason::TeamHasNoMembers => "team_has_no_members"@,
        SkipReason::UnknownHandle => "unknown_handle"@,
        SkipReason::AiConfigurationUnavailable => "ai_configuration_unavailable"@,
        SkipReason::UnsupportedPrincipalKind => "unsupported_principal_kind"@,
    }
}

impl SkipReason {
    /// The word under which the reason is stored and shown.
    pub fn as_str(self) -> (text: &'static str)
        ensures
            text@ == skip_reason_text(self),
    {
        match self {
            SkipReason::PrincipalInactive => "principal_inactive",
            SkipReason::NotTopicMember => "not_topic_member",
            SkipReason::TeamHasNoMembers => "team_has_no_members",
            SkipReason::UnknownHandle => "unknown_handle",
            SkipReason::AiConfigurationUnavailable => "ai_configuration_unavailable",
            SkipReason::UnsupportedPrincipalKind => "unsupported_principal_kind",
        }
    }
}

/// Whether a new Issue or Comment opens a Dispatch: it must mention someone,
/// and content written by an AI Member never dispatches.
pub fn should_dispatch(mention_count: usize, author_kind: PrincipalKind) -> (open: bool)
    ensures
        open == (mention_count > 0 && author_kind != PrincipalKind::Ai),
{
    !(mention_count == 0 || matches!(author_kind, PrincipalKind::Ai))
}

} // verus!
