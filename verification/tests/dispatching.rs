use synod::{
    add_principal_candidate, dispatch_status_from_stored, find_team, expand_mentions, mention_source_kind_as_str,
    parse_mentions, principal_candidate, queued_outcome, resolved_status, should_dispatch,
    target_action, teams_from_rows, unresolved_candidate, Candidate, DispatchStatus,
    DispatchTargetOutcome, DispatchTargetSource, MentionResolution, MentionSourceKind,
    MentionedPrincipal, PrincipalId, PrincipalKind, SkipReason, TargetAction, TeamId, TeamRow,
    TopicId,
};

fn principal(id: u128, handle: &str, kind: PrincipalKind) -> MentionedPrincipal {
    MentionedPrincipal {
        id: PrincipalId(id),
        handle: handle.to_owned(),
        kind,
        active: true,
        topic_member: true,
    }
}

fn source(handle: &str, kind: MentionSourceKind) -> DispatchTargetSource {
    DispatchTargetSource { mention_handle: handle.to_owned(), source_kind: kind }
}

fn row(id: u128, handle: &str, member: Option<u128>) -> TeamRow {
    TeamRow {
        id: TeamId(id),
        topic_id: TopicId(9),
        handle: handle.to_owned(),
        display_name: handle.to_uppercase(),
        member: member.map(PrincipalId),
    }
}

#[test]
fn team_and_direct_mentions_target_each_principal_once() {
    let architect = principal(1, "architect", PrincipalKind::Ai);
    let bob = principal(2, "bob", PrincipalKind::Human);
    let found = vec![
        ("auditors".to_owned(), MentionResolution::Team(vec![architect.clone(), bob.clone()])),
        ("architect".to_owned(), MentionResolution::Principal(architect.clone())),
        ("nobody".to_owned(), MentionResolution::Unknown),
    ];
    let candidates = expand_mentions(&found);
    assert_eq!(candidates.len(), 3);
    assert_eq!(candidates[0].principal_id, Some(PrincipalId(1)));
    assert_eq!(
        candidates[0].sources,
        [source("auditors", MentionSourceKind::Team), source("architect", MentionSourceKind::Direct)]
    );
    assert_eq!(candidates[1].principal_id, Some(PrincipalId(2)));
    assert_eq!(candidates[1].sources, [source("auditors", MentionSourceKind::Team)]);
    assert_eq!(candidates[2].principal_id, None);
    assert_eq!(candidates[2].handle, "nobody");
    assert_eq!(candidates[2].skip_reason, Some(SkipReason::UnknownHandle));

    assert_eq!(target_action(&candidates[0]), TargetAction::QueueRun(PrincipalId(1)));
    assert_eq!(target_action(&candidates[1]), TargetAction::Notify(PrincipalId(2)));
    assert_eq!(target_action(&candidates[2]), TargetAction::Skip(SkipReason::UnknownHandle));
}

#[test]
fn empty_teams_inactive_and_outside_principals_are_skipped() {
    let mut inactive = principal(3, "carol", PrincipalKind::Human);
    inactive.active = false;
    let mut outsider = principal(4, "dave", PrincipalKind::Human);
    outsider.topic_member = false;
    let found = vec![
        ("ghosts".to_owned(), MentionResolution::Team(Vec::new())),
        ("carol".to_owned(), MentionResolution::Principal(inactive)),
        ("dave".to_owned(), MentionResolution::Principal(outsider)),
    ];
    let candidates = expand_mentions(&found);
    assert_eq!(candidates.len(), 3);
    assert_eq!(candidates[0].skip_reason, Some(SkipReason::TeamHasNoMembers));
    assert_eq!(candidates[0].sources, [source("ghosts", MentionSourceKind::Team)]);
    assert_eq!(candidates[1].skip_reason, Some(SkipReason::PrincipalInactive));
    assert_eq!(candidates[2].skip_reason, Some(SkipReason::NotTopicMember));
    assert_eq!(target_action(&candidates[1]), TargetAction::Skip(SkipReason::PrincipalInactive));
}

#[test]
fn merging_a_candidate_appends_its_mentions() {
    let alice = principal(5, "alice", PrincipalKind::Human);
    let mut candidates: Vec<Candidate> = Vec::new();
    add_principal_candidate(
        &mut candidates,
        principal_candidate(&alice, &"alice".to_owned(), MentionSourceKind::Direct),
    );
    add_principal_candidate(
        &mut candidates,
        principal_candidate(&alice, &"humans".to_owned(), MentionSourceKind::Team),
    );
    assert_eq!(candidates.len(), 1);
    assert_eq!(
        candidates[0].sources,
        [source("alice", MentionSourceKind::Direct), source("humans", MentionSourceKind::Team)]
    );
    let unknown = unresolved_candidate(&"zed".to_owned(), MentionSourceKind::Direct, SkipReason::UnknownHandle);
    assert_eq!(unknown.kind, None);
    assert_eq!(unknown.sources, [source("zed", MentionSourceKind::Direct)]);
    assert_eq!(mention_source_kind_as_str(MentionSourceKind::Team), "team");
}

#[test]
fn dispatch_status_follows_target_outcomes() {
    let (notified, queued, skipped) =
        (DispatchTargetOutcome::Notified, DispatchTargetOutcome::Queued, DispatchTargetOutcome::Skipped);
    assert_eq!(resolved_status(&vec![notified, queued]), DispatchStatus::Dispatched);
    assert_eq!(resolved_status(&vec![notified, skipped]), DispatchStatus::PartiallyDispatched);
    assert_eq!(resolved_status(&vec![skipped, skipped]), DispatchStatus::Rejected);
    assert_eq!(resolved_status(&Vec::new()), DispatchStatus::Rejected);
    assert_eq!(queued_outcome(true), (queued, None));
    assert_eq!(queued_outcome(false), (skipped, Some(SkipReason::AiConfigurationUnavailable)));
    assert_eq!(dispatch_status_from_stored("partially_dispatched").unwrap(), DispatchStatus::PartiallyDispatched);
    assert!(matches!(dispatch_status_from_stored("done"), Err(synod::StoreError::CorruptData("dispatch status"))));
}

#[test]
fn only_human_mentions_open_a_dispatch() {
    assert!(should_dispatch(2, PrincipalKind::Human));
    assert!(!should_dispatch(0, PrincipalKind::Human));
    assert!(!should_dispatch(1, PrincipalKind::Ai));
    let mentions = parse_mentions("@alice should decide this.");
    assert_eq!(mentions, ["alice"]);
    assert!(should_dispatch(mentions.len(), PrincipalKind::Human));
}

#[test]
fn mentions_need_a_boundary_and_a_valid_handle() {
    assert_eq!(parse_mentions("@a @-x @ok_1 x@y (@Paren) @end."), ["a", "ok_1", "paren", "end"]);
    assert!(parse_mentions("").is_empty());
    assert_eq!(parse_mentions("~~~\n@fenced\n~~~\n@after"), ["after"]);
}

#[test]
fn team_rows_group_into_teams_in_identifier_order() {
    let rows = vec![
        row(20, "auditors", Some(1)),
        row(10, "builders", None),
        row(20, "auditors", Some(2)),
        row(30, "empty", None),
    ];
    let teams = teams_from_rows(&rows);
    assert_eq!(teams.len(), 3);
    assert_eq!(teams[0].id, TeamId(10));
    assert!(teams[0].members.is_empty());
    assert_eq!(teams[1].id, TeamId(20));
    assert_eq!(teams[1].handle, "auditors");
    assert_eq!(teams[1].display_name, "AUDITORS");
    assert_eq!(teams[1].members, [PrincipalId(1), PrincipalId(2)]);
    assert_eq!(teams[2].id, TeamId(30));
    assert_eq!(teams[2].topic_id, TopicId(9));
    assert!(teams_from_rows(&Vec::new()).is_empty());
}

#[test]
fn a_team_is_found_among_its_topic_teams() {
    let teams = teams_from_rows(&vec![row(20, "auditors", Some(1)), row(10, "builders", None)]);
    let found = find_team(teams.clone(), TeamId(20)).unwrap();
    assert_eq!(found.handle, "auditors");
    assert!(matches!(find_team(teams, TeamId(99)), Err(synod::StoreError::NotFound)));
}
