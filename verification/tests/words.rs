use synod::dispatch::mention_source_kind_from_stored;
use synod::{
    dispatch_status_from_stored, mention_source_kind_as_str, principal_kind_as_str,
    principal_kind_from_stored, CommentKind, DispatchStatus, DispatchTargetOutcome, IssueState,
    MembershipRole, MentionSourceKind, PrincipalKind, ProviderAdapter, SkipReason,
    StateTransitionError, ValidationError,
};

#[test]
fn stored_words_read_back_as_the_same_value() {
    for state in [IssueState::Open, IssueState::Closed] {
        assert_eq!(IssueState::from_stored(state.as_str()), Some(state));
    }
    for role in [MembershipRole::Read, MembershipRole::Contribute, MembershipRole::Write] {
        assert_eq!(MembershipRole::from_stored(role.as_str()), Some(role));
    }
    for kind in [PrincipalKind::Human, PrincipalKind::Ai, PrincipalKind::Caller, PrincipalKind::System] {
        assert_eq!(principal_kind_from_stored(principal_kind_as_str(kind)).unwrap(), kind);
    }
    for adapter in [
        ProviderAdapter::OpenaiResponses,
        ProviderAdapter::OpenaiCompatible,
        ProviderAdapter::AnthropicMessages,
        ProviderAdapter::GoogleGemini,
    ] {
        assert_eq!(ProviderAdapter::from_stored(adapter.as_str()), Some(adapter));
    }
    for kind in [
        CommentKind::Discussion,
        CommentKind::Direction,
        CommentKind::Evidence,
        CommentKind::Progress,
        CommentKind::Result,
    ] {
        assert_eq!(CommentKind::from_stored(kind.as_str()), Some(kind));
    }
    for status in [
        DispatchStatus::Pending,
        DispatchStatus::Dispatched,
        DispatchStatus::PartiallyDispatched,
        DispatchStatus::Rejected,
    ] {
        assert_eq!(dispatch_status_from_stored(status.as_str()).unwrap(), status);
    }
    for outcome in [DispatchTargetOutcome::Notified, DispatchTargetOutcome::Queued, DispatchTargetOutcome::Skipped] {
        assert_eq!(DispatchTargetOutcome::from_stored(outcome.as_str()), Some(outcome));
    }
    for kind in [MentionSourceKind::Direct, MentionSourceKind::Team] {
        assert_eq!(mention_source_kind_from_stored(mention_source_kind_as_str(kind)), Some(kind));
    }
}

#[test]
fn stored_words_are_the_documented_ones() {
    assert_eq!(IssueState::Closed.as_str(), "closed");
    assert_eq!(MembershipRole::Contribute.as_str(), "contribute");
    assert_eq!(principal_kind_as_str(PrincipalKind::Ai), "ai");
    assert_eq!(ProviderAdapter::OpenaiCompatible.as_str(), "openai_compatible");
    assert_eq!(DispatchStatus::PartiallyDispatched.as_str(), "partially_dispatched");
    assert_eq!(SkipReason::AiConfigurationUnavailable.as_str(), "ai_configuration_unavailable");
    assert_eq!(SkipReason::UnknownHandle.as_str(), "unknown_handle");
    assert_eq!(IssueState::from_stored("Open"), None);
    assert_eq!(MembershipRole::from_stored("admin"), None);
    assert!(matches!(principal_kind_from_stored(""), Err(synod::StoreError::CorruptData("principal kind"))));
}

#[test]
fn errors_describe_themselves() {
    assert_eq!(StateTransitionError::MustBeOpen.message(), "proposal must be open");
    assert_eq!(StateTransitionError::TerminalState.message(), "resource is in a terminal state");
    assert_eq!(
        ValidationError::InvalidHandle.message(),
        "handle must be 2-39 lowercase letters, digits, hyphens, or underscores"
    );
    assert_eq!(ValidationError::EmptyBody.message(), "body must not be empty");
}
