//! Identifiers. Each is a UUID, held as its 128-bit value.
use vstd::prelude::*;

verus! {

#[derive(Debug, Clone, Copy, PartialEq, Eq, Hash, Structural)]
pub struct CommentId(pub u128);

#[derive(Debug, Clone, Copy, PartialEq, Eq, Hash, Structural)]
pub struct ContextSnapshotId(pub u128);

#[derive(Debug, Clone, Copy, PartialEq, Eq, Hash, Structural)]
pub struct ConversationId(pub u128);

#[derive(Debug, Clone, Copy, PartialEq, Eq, Hash, Structural)]
pub struct ConversationItemId(pub u128);

#[derive(Debug, Clone, Copy, PartialEq, Eq, Hash, Structural)]
pub struct DispatchId(pub u128);

#[derive(Debug, Clone, Copy, PartialEq, Eq, Hash, Structural)]
pub struct JobId(pub u128);

#[derive(Debug, Clone, Copy, PartialEq, Eq, Hash, Structural)]
pub struct ModelId(pub u128);

#[derive(Debug, Clone, Copy, PartialEq, Eq, Hash, Structural)]
pub struct NotificationId(pub u128);

#[derive(Debug, Clone, Copy, PartialEq, Eq, Hash, Structural)]
pub struct PrincipalId(pub u128);

#[derive(Debug, Clone, Copy, PartialEq, Eq, Hash, Structural)]
pub struct ProviderAttemptId(pub u128);

#[derive(Debug, Clone, Copy, PartialEq, Eq, Hash, Structural)]
pub struct ProviderId(pub u128);

#[derive(Debug, Clone, Copy, PartialEq, Eq, Hash, Structural)]
pub struct RunId(pub u128);

#[derive(Debug, Clone, Copy, PartialEq, Eq, Hash, Structural)]
pub struct TeamId(pub u128);

#[derive(Debug, Clone, Copy, PartialEq, Eq, Hash, Structural)]
pub struct TopicId(pub u128);

#[derive(Debug, Clone, Copy, PartialEq, Eq, Hash, Structural)]
pub struct TopicItemId(pub u128);

} // verus!
