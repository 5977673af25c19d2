use synod::{
    api_error, bearer_token, check_configuration, check_issue_type, check_reference,
    check_team_member_kind, check_topic_creator, check_topic_member_kind, constraint_error,
    creation_response, credential_configured, default_comment_kind, fallback_answer, found_id,
    health_report, member_model, new_token_credentials, next_prompt_version, parse_id,
    prepare_external_provider, prepare_local_provider, provider_credential, request_token_digest,
    exactly_one, no_handle_collision, require_contribution, require_lease, require_human_writer, require_read,
    require_server_admin, require_topic_reader, stored_id, validate_ai_member,
    validate_bootstrap, validate_local_ai_member, validate_model, validate_provider, validate_team, validate_text, ApiError, CommentKind,
    DispatchId, FallbackAnswer, IdentityError, MemberModel, MembershipRole, PrincipalKind,
    ProviderAdapter, ProviderCredential, ServiceError, StoreError, StoredCreation, ValidationError,
};
use synod::tokens::generate_token;
use synod::{
    bootstrap_available, bootstrap_claimed, configured_model_id, local_admin, map_constraint,
    reconfigurable_member,
};

const ALICE: &str = "0190f5a8-7b2c-7d3e-8f40-123456789abc";

#[test]
fn storage_errors_become_service_errors() {
    assert!(matches!(ServiceError::from(StoreError::Conflict), ServiceError::Conflict));
    assert!(matches!(ServiceError::from(StoreError::NotFound), ServiceError::NotFound));
    assert!(matches!(ServiceError::from(StoreError::PermissionDenied), ServiceError::Forbidden));
    assert!(matches!(
        ServiceError::from(StoreError::InvalidReference("x")),
        ServiceError::InvalidReference("x")
    ));
    assert!(matches!(ServiceError::from(StoreError::CorruptData("y")), ServiceError::CorruptData));
    assert!(matches!(ServiceError::from(StoreError::AlreadyBootstrapped), ServiceError::CorruptData));
}

#[test]
fn service_errors_are_answered_with_status_code_and_message() {
    assert_eq!(
        api_error(ServiceError::Validation(ValidationError::InvalidTitle)).response_parts(),
        (400, "bad_request", "request content is invalid")
    );
    assert_eq!(
        api_error(ServiceError::InvalidReference("unknown issue type")).response_parts(),
        (400, "bad_request", "unknown issue type")
    );
    assert_eq!(api_error(ServiceError::Forbidden).response_parts().0, 403);
    assert_eq!(api_error(ServiceError::NotFound).response_parts().1, "not_found");
    assert_eq!(api_error(ServiceError::Conflict).response_parts().0, 409);
    assert_eq!(api_error(ServiceError::CorruptData).response_parts(), (500, "internal_error", "an internal error occurred"));
    assert_eq!(
        ApiError::Unauthorized.response_parts(),
        (401, "unauthorized", "valid bearer authentication is required")
    );
    assert_eq!(ApiError::ProviderUnavailable.response_parts().0, 502);
    assert_eq!(ApiError::from(ServiceError::Forbidden).response_parts().0, 403);
    assert_eq!(ApiError::from(ServiceError::InvalidReference("x")).response_parts(), (400, "bad_request", "x"));
}

#[test]
fn identifiers_are_read_as_uuids() {
    assert_eq!(parse_id(ALICE, "invalid id").unwrap(), 0x0190f5a8_7b2c_7d3e_8f40_123456789abc);
    assert_eq!(
        parse_id("0190F5A87B2C7D3E8F40123456789ABC", "invalid id").unwrap(),
        0x0190f5a8_7b2c_7d3e_8f40_123456789abc
    );
    assert!(matches!(parse_id("not-an-id", "invalid provider id"), Err(ApiError::BadRequest("invalid provider id"))));
    assert_eq!(stored_id(ALICE, "topic id").unwrap(), 0x0190f5a8_7b2c_7d3e_8f40_123456789abc);
    assert!(matches!(stored_id("garbage", "topic id"), Err(StoreError::CorruptData("topic id"))));
    assert!(matches!(found_id(None, "topic id"), Err(StoreError::NotFound)));
    assert!(matches!(found_id(Some("zz"), "topic id"), Err(StoreError::CorruptData("topic id"))));
    assert_eq!(found_id(Some(ALICE), "topic id").unwrap(), 0x0190f5a8_7b2c_7d3e_8f40_123456789abc);
}

#[test]
fn references_must_point_into_the_same_topic_or_issue() {
    let id: u128 = 0x0190f5a8_7b2c_7d3e_8f40_123456789abc;
    assert!(check_reference(Some(ALICE), id, "parent issue must belong to the same topic").is_ok());
    assert!(matches!(
        check_reference(Some(ALICE), id + 1, "parent issue must belong to the same topic"),
        Err(StoreError::InvalidReference("parent issue must belong to the same topic"))
    ));
    assert!(matches!(
        check_reference(None, id, "reply must reference a comment on the same issue"),
        Err(StoreError::InvalidReference("reply must reference a comment on the same issue"))
    ));
    assert!(check_reference(Some("0190F5A8-7B2C-7D3E-8F40-123456789ABC"), id, "m").is_err());
    assert!(check_issue_type(1).is_ok());
    assert!(matches!(check_issue_type(0), Err(StoreError::InvalidReference("unknown issue type"))));
}

#[test]
fn bearer_tokens_are_read_from_the_authorization_header() {
    assert_eq!(bearer_token("Bearer abc").as_deref(), Some("abc"));
    assert_eq!(bearer_token("bEaReR a b").as_deref(), Some("a b"));
    assert_eq!(bearer_token("Bearer "), None);
    assert_eq!(bearer_token("Basic abc"), None);
    assert_eq!(bearer_token("Bearer"), None);
}

#[test]
fn tokens_are_stored_only_as_their_digest() {
    let token = generate_token();
    assert_eq!(token.len(), 70);
    assert!(token.starts_with("synod_"));
    assert!(token[6..].chars().all(|c| c.is_ascii_digit() || ('a'..='f').contains(&c)));
    assert_ne!(generate_token(), token);

    let (token, digest) = new_token_credentials();
    assert_eq!(digest.len(), 32);
    let header = format!("Bearer {token}");
    assert_eq!(request_token_digest(&header), Some(digest.clone()));
    assert_ne!(request_token_digest("Bearer other"), Some(digest));
    assert_eq!(request_token_digest("Token abc"), None);
    let empty = request_token_digest("Bearer x").unwrap();
    assert_eq!(
        empty.iter().map(|b| format!("{b:02x}")).collect::<String>(),
        "2d711642b726b04401627ca9fbac32f5c8530fb1903cc4db02258717921a4881"
    );
}

#[test]
fn topic_access_follows_the_stored_role() {
    assert_eq!(require_read(Some("read")).unwrap(), MembershipRole::Read);
    assert!(matches!(require_read(Some("owner")), Err(StoreError::NotFound)));
    assert!(matches!(require_read(None), Err(StoreError::NotFound)));
    assert!(require_contribution(Some("contribute")).is_ok());
    assert!(require_contribution(Some("write")).is_ok());
    assert!(matches!(require_contribution(Some("read")), Err(StoreError::PermissionDenied)));
    assert!(matches!(require_contribution(None), Err(StoreError::NotFound)));
    assert!(require_human_writer(PrincipalKind::Human, Some("write")).is_ok());
    assert!(matches!(require_human_writer(PrincipalKind::Ai, Some("write")), Err(StoreError::PermissionDenied)));
    assert!(matches!(require_human_writer(PrincipalKind::Human, Some("contribute")), Err(StoreError::PermissionDenied)));
    assert!(check_topic_member_kind(PrincipalKind::Ai).is_ok());
    assert!(check_topic_member_kind(PrincipalKind::System).is_err());
    assert!(check_team_member_kind(Some("human")).is_ok());
    assert!(matches!(
        check_team_member_kind(Some("system")),
        Err(StoreError::InvalidReference("team member must be an active Topic member"))
    ));
    assert!(check_team_member_kind(None).is_err());
}

#[test]
fn writes_refused_by_a_unique_constraint_are_conflicts() {
    assert!(matches!(constraint_error(sqlx::Error::RowNotFound, true), StoreError::Conflict));
    assert!(matches!(
        constraint_error(sqlx::Error::RowNotFound, false),
        StoreError::Sqlx(sqlx::Error::RowNotFound)
    ));
    assert!(matches!(map_constraint(sqlx::Error::RowNotFound), StoreError::Sqlx(sqlx::Error::RowNotFound)));
    assert!(matches!(map_constraint(sqlx::Error::PoolTimedOut), StoreError::Sqlx(sqlx::Error::PoolTimedOut)));
}

#[test]
fn provider_requests_are_checked_before_storage() {
    assert!(validate_provider("DeepSeek", ProviderAdapter::OpenaiCompatible, "https://api.deepseek.com").is_ok());
    assert!(matches!(
        validate_provider("  ", ProviderAdapter::OpenaiCompatible, "https://api.deepseek.com"),
        Err(ServiceError::InvalidReference("provider name is invalid"))
    ));
    assert!(matches!(
        validate_provider("Unsafe", ProviderAdapter::OpenaiCompatible, "https://example.com"),
        Err(ServiceError::InvalidReference("only official DeepSeek and MiniMax endpoints are supported"))
    ));
    let input = prepare_external_provider(
        "  DeepSeek ".to_owned(),
        ProviderAdapter::OpenaiCompatible,
        "https://api.deepseek.com".to_owned(),
        "env://DEEPSEEK_API_KEY".to_owned(),
    )
    .unwrap();
    assert_eq!(input.name, "DeepSeek");
    assert_eq!(input.credential, "env://DEEPSEEK_API_KEY");
    assert!(matches!(
        prepare_external_provider(
            "Ambiguous".to_owned(),
            ProviderAdapter::OpenaiCompatible,
            "https://api.deepseek.com".to_owned(),
            "raw-secret".to_owned(),
        ),
        Err(ServiceError::InvalidReference("external credential reference must use env://"))
    ));
    let local = prepare_local_provider(
        "MiniMax Local".to_owned(),
        ProviderAdapter::OpenaiCompatible,
        "https://api.minimaxi.com/v1".to_owned(),
        " local-test-secret ".to_owned(),
    )
    .unwrap();
    assert_eq!(local.credential, "local-test-secret");
    assert!(matches!(
        prepare_local_provider(
            "MiniMax Local".to_owned(),
            ProviderAdapter::OpenaiCompatible,
            "https://api.minimaxi.com/v1".to_owned(),
            "   ".to_owned(),
        ),
        Err(ServiceError::InvalidReference("provider API key is invalid"))
    ));
    assert!(credential_configured("env://X"));
    assert!(!credential_configured(""));
}

#[test]
fn request_shapes_need_exactly_one_credential_and_one_model() {
    assert!(matches!(
        provider_credential(Some("env://A".to_owned()), None),
        Ok(ProviderCredential::Reference(reference)) if reference == "env://A"
    ));
    assert!(matches!(
        provider_credential(None, Some("k".to_owned())),
        Ok(ProviderCredential::ApiKey(key)) if key == "k"
    ));
    assert!(matches!(
        provider_credential(Some("env://A".to_owned()), Some("k".to_owned())),
        Err(ApiError::BadRequest("provide exactly one of credential_ref or api_key"))
    ));
    assert!(provider_credential(None, None).is_err());
    assert!(matches!(member_model(Some("m".to_owned()), None, None), Ok(MemberModel::Existing(m)) if m == "m"));
    assert!(matches!(
        member_model(None, Some("p".to_owned()), Some("n".to_owned())),
        Ok(MemberModel::ByName(p, n)) if p == "p" && n == "n"
    ));
    assert!(member_model(Some("m".to_owned()), Some("p".to_owned()), None).is_err());
    assert!(member_model(None, Some("p".to_owned()), None).is_err());
}

#[test]
fn members_teams_and_bootstrap_inputs_are_validated() {
    assert!(validate_ai_member("architect", "Architect", "Review architecture.").is_ok());
    assert!(matches!(
        validate_ai_member("Architect", "Architect", "x"),
        Err(ServiceError::Validation(ValidationError::InvalidHandle))
    ));
    assert!(matches!(
        validate_ai_member("architect", " ", "x"),
        Err(ServiceError::InvalidReference("AI Member display name is invalid"))
    ));
    assert!(matches!(
        validate_ai_member("architect", "Architect", ""),
        Err(ServiceError::InvalidReference("identity Prompt is invalid"))
    ));
    assert!(validate_team("auditors", "Auditors").is_ok());
    assert!(matches!(
        validate_team("auditors", &"r".repeat(101)),
        Err(ServiceError::InvalidReference("team display name is invalid"))
    ));
    assert!(check_topic_creator(PrincipalKind::Human).is_ok());
    assert!(matches!(check_topic_creator(PrincipalKind::Ai), Err(ServiceError::Forbidden)));
    assert_eq!(validate_bootstrap("alice", "  Alice ").unwrap(), "Alice");
    assert!(matches!(validate_bootstrap("alice", "   "), Err(IdentityError::InvalidDisplayName)));
    assert!(matches!(
        validate_bootstrap("-alice", "Alice"),
        Err(IdentityError::Validation(ValidationError::InvalidHandle))
    ));
    assert!(validate_text("hello", 5, "too long").is_ok());
    assert!(matches!(validate_text("hello!", 5, "too long"), Err(ServiceError::InvalidReference("too long"))));
    assert!(check_configuration(true, 20_000, "defaults").is_ok());
    assert!(check_configuration(true, 20_001, "defaults").is_err());
    assert!(check_configuration(false, 2, "defaults").is_err());
}

#[test]
fn prompt_versions_advance_only_when_the_prompt_changes() {
    assert_eq!(next_prompt_version(3, "Review code.", "Review code."), 3);
    assert_eq!(next_prompt_version(3, "Review code.", "Review code and alternatives."), 4);
}

#[test]
fn creations_report_their_pending_dispatch() {
    let with = creation_response(StoredCreation { value: 7u8, dispatch_id: Some(DispatchId(5)) });
    assert_eq!(with.data, 7);
    let dispatch = with.dispatch.unwrap();
    assert_eq!(dispatch.id, DispatchId(5));
    assert_eq!(dispatch.status, "pending");
    assert!(creation_response(StoredCreation { value: (), dispatch_id: None }).dispatch.is_none());
    assert_eq!(default_comment_kind(), CommentKind::Discussion);
}

#[test]
fn unmatched_requests_get_the_web_application_or_not_found() {
    assert_eq!(fallback_answer(true, "/topics/local-room"), FallbackAnswer::WebApplication);
    assert_eq!(fallback_answer(true, "/api/v1/missing"), FallbackAnswer::NotFound);
    assert_eq!(fallback_answer(false, "/topics"), FallbackAnswer::MethodNotAllowed);
    assert_eq!(health_report(true), (200, "ok", "ok"));
    assert_eq!(health_report(false), (503, "degraded", "unavailable"));
}

#[test]
fn model_and_local_member_requests_are_checked_in_order() {
    assert!(validate_model("deepseek-v4-pro", "DeepSeek V4", &vec![(true, 2), (true, 2), (true, 20_000)]).is_ok());
    assert!(matches!(
        validate_model("", "DeepSeek V4", &vec![(false, 2)]),
        Err(ServiceError::InvalidReference("model name is invalid"))
    ));
    assert!(matches!(
        validate_model("m", " ", &Vec::new()),
        Err(ServiceError::InvalidReference("model display name is invalid"))
    ));
    assert!(matches!(
        validate_model("m", "M", &vec![(true, 2), (false, 2), (true, 2)]),
        Err(ServiceError::InvalidReference("model configuration must be an object no larger than 20000 bytes"))
    ));
    assert!(validate_model("m", "M", &vec![(true, 20_001)]).is_err());

    assert!(validate_local_ai_member("developer", "Developer", "Review code.", "MiniMax", "MiniMax-M3", true, 20).is_ok());
    assert!(matches!(
        validate_local_ai_member("developer", "Developer", "Review code.", " ", "MiniMax-M3", true, 20),
        Err(ServiceError::InvalidReference("Provider name is invalid"))
    ));
    assert!(matches!(
        validate_local_ai_member("developer", "Developer", "Review code.", "MiniMax", "", true, 20),
        Err(ServiceError::InvalidReference("model name is invalid"))
    ));
    assert!(matches!(
        validate_local_ai_member("developer", "Developer", "Review code.", "MiniMax", "MiniMax-M3", false, 20),
        Err(ServiceError::InvalidReference("AI Member execution defaults must be an object no larger than 20000 bytes"))
    ));
    assert!(matches!(
        validate_local_ai_member("Developer", "", "", "", "", false, 0),
        Err(ServiceError::Validation(ValidationError::InvalidHandle))
    ));
}

#[test]
fn configuring_twice_with_the_same_prompt_keeps_the_version() {
    let first = next_prompt_version(1, "Review code.", "Review code and alternatives.");
    assert_eq!(first, 2);
    assert_eq!(next_prompt_version(first, "Review code and alternatives.", "Review code and alternatives."), first);
}

#[test]
fn an_issued_token_authenticates_as_itself() {
    let (token, digest) = new_token_credentials();
    assert_eq!(bearer_token(&format!("Bearer {token}")).as_deref(), Some(token.as_str()));
    assert_eq!(request_token_digest(&format!("Bearer {token}")), Some(digest));
}

#[test]
fn counted_rows_decide_access_and_references() {
    assert!(require_server_admin(1).is_ok());
    assert!(matches!(require_server_admin(0), Err(StoreError::PermissionDenied)));
    assert!(require_topic_reader(1).is_ok());
    assert!(matches!(require_topic_reader(0), Err(StoreError::NotFound)));
    assert!(exactly_one(1, "model is missing or disabled").is_ok());
    assert!(matches!(
        exactly_one(0, "provider is missing or disabled"),
        Err(StoreError::InvalidReference("provider is missing or disabled"))
    ));
    assert!(require_lease(1).is_ok());
    assert!(matches!(require_lease(0), Err(StoreError::Conflict)));
    assert!(no_handle_collision(0).is_ok());
    assert!(matches!(no_handle_collision(1), Err(StoreError::Conflict)));
}

#[test]
fn bootstrap_happens_once_and_maintenance_acts_as_its_human() {
    assert!(bootstrap_available(false).is_ok());
    assert!(matches!(bootstrap_available(true), Err(StoreError::AlreadyBootstrapped)));
    assert!(bootstrap_claimed(1).is_ok());
    assert!(matches!(bootstrap_claimed(0), Err(StoreError::AlreadyBootstrapped)));
    let admin = local_admin(Some((ALICE.to_owned(), "human".to_owned(), "admin".to_owned(), "Administrator".to_owned())))
        .unwrap();
    assert_eq!(admin.kind, PrincipalKind::Human);
    assert_eq!(admin.handle, "admin");
    assert!(matches!(local_admin(None), Err(StoreError::PermissionDenied)));
    assert!(matches!(
        local_admin(Some((ALICE.to_owned(), "ai".to_owned(), String::new(), String::new()))),
        Err(StoreError::PermissionDenied)
    ));
    assert!(matches!(
        local_admin(Some(("x".to_owned(), "human".to_owned(), String::new(), String::new()))),
        Err(StoreError::CorruptData("bootstrap principal id"))
    ));
    assert!(reconfigurable_member("ai").is_ok());
    assert!(matches!(reconfigurable_member("human"), Err(StoreError::Conflict)));
    assert_eq!(configured_model_id(Some(ALICE)).unwrap(), 0x0190f5a8_7b2c_7d3e_8f40_123456789abc);
    assert!(matches!(
        configured_model_id(None),
        Err(StoreError::InvalidReference("enabled Provider or Model was not found"))
    ));
    assert!(matches!(
        configured_model_id(Some("m")),
        Err(StoreError::CorruptData("model identifier is invalid"))
    ));
}
