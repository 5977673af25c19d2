use synod::rows::{
    ai_member_from_stored, context_comment_from_stored, dispatch_from_stored, dispatch_item_id,
    comment_from_stored, issue_from_stored, notification_from_stored, optional_stored_id,
    principal_from_stored, provider_from_stored, run_conclusion_from_stored, run_status_from_stored,
    target_from_stored, target_source_from_stored, topic_from_stored, topic_member_from_stored,
};
use synod::{
    CommentKind, DispatchStatus, DispatchTargetOutcome, IssueState, MembershipRole, MentionSourceKind,
    PrincipalKind, ProviderAdapter, RunConclusion, RunStatus, StoreError,
};

const A: &str = "00000000-0000-0000-0000-00000000000a";
const B: &str = "00000000-0000-0000-0000-00000000000b";
const C: &str = "00000000-0000-0000-0000-00000000000c";

#[test]
fn stored_principals_and_topics_read_back() {
    let principal = principal_from_stored(A, "ai", "architect".to_owned(), "Architect".to_owned()).unwrap();
    assert_eq!(principal.id.0, 10);
    assert_eq!(principal.kind, PrincipalKind::Ai);
    assert_eq!(principal.handle, "architect");
    assert!(matches!(
        principal_from_stored("x", "ai", String::new(), String::new()),
        Err(StoreError::CorruptData("principal id"))
    ));
    assert!(matches!(
        principal_from_stored(A, "robot", String::new(), String::new()),
        Err(StoreError::CorruptData("principal kind"))
    ));
    let member = topic_member_from_stored(principal.clone(), "write").unwrap();
    assert_eq!(member.role, MembershipRole::Write);
    assert!(matches!(
        topic_member_from_stored(principal, "owner"),
        Err(StoreError::CorruptData("membership role"))
    ));
    let topic = topic_from_stored(B, "synod".to_owned(), "Synod".to_owned(), String::new(), 2).unwrap();
    assert_eq!((topic.id.0, topic.revision), (11, 2));
    assert!(matches!(
        topic_from_stored("", String::new(), String::new(), String::new(), 1),
        Err(StoreError::CorruptData("topic id"))
    ));
}

#[test]
fn stored_issues_and_comments_read_back_in_column_order() {
    let issue = issue_from_stored(
        A, B, 7, "research".to_owned(), "closed", "T".to_owned(), "Body".to_owned(), Some(C), A, 1,
    )
    .unwrap();
    assert_eq!(issue.state, IssueState::Closed);
    assert_eq!(issue.parent_issue_id.map(|id| id.0), Some(12));
    assert_eq!(issue.number, 7);
    assert!(matches!(
        issue_from_stored(A, B, 1, String::new(), "archived", String::new(), String::new(), Some("bad"), A, 1),
        Err(StoreError::CorruptData("issue state"))
    ));
    assert!(matches!(
        issue_from_stored(A, B, 1, String::new(), "open", String::new(), String::new(), Some("bad"), A, 1),
        Err(StoreError::CorruptData("parent issue id"))
    ));
    assert!(matches!(
        issue_from_stored(A, "bad", 1, String::new(), "bad", String::new(), String::new(), None, A, 1),
        Err(StoreError::CorruptData("topic id"))
    ));
    let comment = comment_from_stored(A, B, C, "evidence", "Data".to_owned(), 1, None).unwrap();
    assert_eq!(comment.kind, CommentKind::Evidence);
    assert_eq!(comment.reply_to_comment_id, None);
    assert!(matches!(
        comment_from_stored(A, B, C, "chat", String::new(), 1, None),
        Err(StoreError::CorruptData("comment kind"))
    ));
    assert!(matches!(
        comment_from_stored(A, B, C, "result", String::new(), 1, Some("?")),
        Err(StoreError::CorruptData("reply comment id"))
    ));
}

#[test]
fn stored_dispatch_parts_read_back() {
    let notification = notification_from_stored(A, B, C, "mention".to_owned(), Some("2024-01-01")).unwrap();
    assert!(notification.read);
    assert!(!notification_from_stored(A, B, C, "mention".to_owned(), None).unwrap().read);
    assert!(matches!(
        notification_from_stored(A, B, "?", String::new(), None),
        Err(StoreError::CorruptData("recipient id"))
    ));
    let source = target_source_from_stored("auditors".to_owned(), "team").unwrap();
    assert_eq!(source.source_kind, MentionSourceKind::Team);
    assert!(matches!(
        target_source_from_stored(String::new(), "group"),
        Err(StoreError::CorruptData("mention source kind"))
    ));
    let target = target_from_stored(
        Some(A), "architect".to_owned(), Some("ai"), "queued", None, Some(C), None, vec![source],
    )
    .unwrap();
    assert_eq!(target.outcome, DispatchTargetOutcome::Queued);
    assert_eq!(target.principal_kind, Some(PrincipalKind::Ai));
    assert_eq!(target.run_id.map(|id| id.0), Some(12));
    assert!(matches!(
        target_from_stored(None, String::new(), Some("robot"), "queued", None, None, None, Vec::new()),
        Err(StoreError::CorruptData("principal kind"))
    ));
    assert!(matches!(
        target_from_stored(None, String::new(), None, "lost", None, None, None, Vec::new()),
        Err(StoreError::CorruptData("dispatch target outcome"))
    ));
    assert_eq!(optional_stored_id(None, "x").unwrap(), None);
    assert_eq!(optional_stored_id(Some(B), "x").unwrap(), Some(11));
}

#[test]
fn stored_runs_and_providers_read_back() {
    assert_eq!(run_status_from_stored("in_progress").unwrap(), RunStatus::InProgress);
    assert!(matches!(run_status_from_stored("paused"), Err(StoreError::CorruptData("run status"))));
    assert_eq!(run_conclusion_from_stored("timed_out").unwrap(), RunConclusion::TimedOut);
    assert!(matches!(run_conclusion_from_stored("ok"), Err(StoreError::CorruptData("run conclusion"))));
    let provider = provider_from_stored(
        A, "DeepSeek".to_owned(), "openai_compatible", "https://api.deepseek.com".to_owned(), "env://K", 1,
    )
    .unwrap();
    assert_eq!(provider.adapter, ProviderAdapter::OpenaiCompatible);
    assert!(provider.credential_configured);
    assert!(provider.enabled);
    let disabled = provider_from_stored(A, String::new(), "google_gemini", String::new(), "", 0).unwrap();
    assert!(!disabled.credential_configured);
    assert!(!disabled.enabled);
    assert!(matches!(
        provider_from_stored(A, String::new(), "grpc", String::new(), "", 0),
        Err(StoreError::CorruptData("provider adapter"))
    ));
}

#[test]
fn stored_dispatches_and_ai_members_read_back() {
    let dispatch = dispatch_from_stored(
        A, B, "issue".to_owned(), C.to_owned(), 1, A, "rejected", vec!["nobody".to_owned()], Vec::new(),
    )
    .unwrap();
    assert_eq!(dispatch.status, DispatchStatus::Rejected);
    assert_eq!(dispatch.mentions, ["nobody"]);
    assert!(matches!(
        dispatch_from_stored(A, B, String::new(), String::new(), 1, A, "waiting", Vec::new(), Vec::new()),
        Err(StoreError::CorruptData("dispatch status"))
    ));
    assert!(matches!(
        dispatch_from_stored(A, B, String::new(), String::new(), 1, "?", "waiting", Vec::new(), Vec::new()),
        Err(StoreError::CorruptData("author id"))
    ));
    let principal = principal_from_stored(A, "ai", "architect".to_owned(), "Architect".to_owned()).unwrap();
    let member = ai_member_from_stored(principal.clone(), "Review.".to_owned(), 3, C).unwrap();
    assert_eq!(member.default_model_id.0, 12);
    assert_eq!(member.identity_prompt_version, 3);
    assert!(matches!(ai_member_from_stored(principal, String::new(), 1, "m"), Err(StoreError::CorruptData("model id"))));
}

#[test]
fn a_dispatch_source_leads_to_its_issue() {
    assert_eq!(dispatch_item_id(Some(C)).unwrap(), 12);
    assert!(matches!(dispatch_item_id(None), Err(StoreError::CorruptData("dispatch source"))));
    assert!(matches!(dispatch_item_id(Some("?")), Err(StoreError::CorruptData("item id"))));
}

#[test]
fn earlier_comments_read_back_for_a_context() {
    let comment = context_comment_from_stored(
        A, B, "alice".to_owned(), "human".to_owned(), "direction".to_owned(), "Keep it small.".to_owned(), 2,
    )
    .unwrap();
    assert_eq!((comment.id.0, comment.author_id.0, comment.revision), (10, 11, 2));
    assert!(matches!(
        context_comment_from_stored(A, "?", String::new(), String::new(), String::new(), String::new(), 1),
        Err(StoreError::CorruptData("author id"))
    ));
}
