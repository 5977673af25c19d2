use synod::{
    can_merge_proposal, parse_mentions, validate_handle, CommentKind, CreateComment, CreateIssue,
    CreateTopic, IssueState, MembershipRole, PrincipalKind, ProposalState, ReviewVerdict,
    StateTransitionError, ValidationError,
};

#[test]
fn issue_and_comment_inputs_are_bounded() {
    assert!(CreateIssue::new("research".to_owned(), "Question".to_owned(), "".to_owned(), None).is_ok());
    assert!(CreateIssue::new("Research".to_owned(), "Question".to_owned(), "".to_owned(), None).is_err());
    assert!(CreateComment::new(CommentKind::Discussion, "  ".to_owned(), None).is_err());
}

#[test]
fn mentions_are_ordered_deduplicated_and_lowercase() {
    assert_eq!(
        parse_mentions("@Architect ask @security-team, then @architect again"),
        ["architect", "security-team"]
    );
}

#[test]
fn code_email_and_escaped_mentions_are_inert() {
    let text = "mail a@b.com `@inline` \\@escaped\n```rust\n@fenced\n```\n@active";
    assert_eq!(parse_mentions(text), ["active"]);
}

#[test]
fn only_human_writers_can_merge() {
    assert!(can_merge_proposal(PrincipalKind::Human, MembershipRole::Write));
    for kind in [PrincipalKind::Ai, PrincipalKind::Caller, PrincipalKind::System] {
        assert!(!can_merge_proposal(kind, MembershipRole::Write));
    }
    assert!(!can_merge_proposal(PrincipalKind::Human, MembershipRole::Contribute));
}

#[test]
fn proposal_can_only_merge_while_open() {
    let mut draft = ProposalState::Draft;
    assert_eq!(draft.merge(), Err(StateTransitionError::MustBeOpen));
    draft.open().unwrap();
    draft.merge().unwrap();
    assert_eq!(draft, ProposalState::Merged);
    assert_eq!(draft.open(), Err(StateTransitionError::TerminalState));
}

#[test]
fn only_human_change_requests_block_merge() {
    assert!(ReviewVerdict::RequestChanges.blocks_merge(PrincipalKind::Human));
    assert!(!ReviewVerdict::RequestChanges.blocks_merge(PrincipalKind::Ai));
    assert!(!ReviewVerdict::Approve.blocks_merge(PrincipalKind::Human));
}

#[test]
fn topic_input_is_normalized_and_validated() {
    let topic = CreateTopic::new("factor-lab".to_owned(), "  Factor Lab  ".to_owned(), "Research".to_owned()).unwrap();
    assert_eq!(topic.title, "Factor Lab");
    assert_eq!(
        CreateTopic::new("Factor Lab".to_owned(), "Title".to_owned(), "".to_owned()).unwrap_err(),
        ValidationError::InvalidTopicKey
    );
    assert_eq!(
        CreateTopic::new("ok".to_owned(), "   ".to_owned(), "".to_owned()).unwrap_err(),
        ValidationError::InvalidTitle
    );
}

#[test]
fn handles_are_deliberately_simple() {
    assert!(validate_handle("alice-1").is_ok());
    assert!(validate_handle("Alice").is_err());
    assert!(validate_handle("-alice").is_err());
}

#[test]
fn issue_state_closes_and_reopens() {
    let mut state = IssueState::Open;
    assert_eq!(state.close(), Ok(()));
    assert_eq!(state, IssueState::Closed);
    assert_eq!(state.close(), Err(StateTransitionError::AlreadyInState));
    assert_eq!(state.reopen(), Ok(()));
    assert_eq!(state, IssueState::Open);
    assert_eq!(state.reopen(), Err(StateTransitionError::AlreadyInState));
}
