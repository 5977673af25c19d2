//! Synod: a collaboration server where Humans and AI Members work on Topics,
//! Issues and Proposals. This crate holds its verified core: the state
//! machines, permission rules, input validation, mention parsing, dispatch
//! planning and the provider-facing request and response rules.
pub mod states;

pub use states::{
    IssueState, ProposalState, ReviewVerdict, RunConclusion, RunStatus, StateTransitionError,
    TopicItemKind,
};
pub mod permissions;
pub mod text;

pub use permissions::{
    can_merge_proposal, principal_kind_as_str, principal_kind_from_stored, MembershipRole,
    PrincipalKind,
};
pub mod ids;
pub mod topic;

pub use ids::{
    CommentId, ContextSnapshotId, ConversationId, ConversationItemId, DispatchId, JobId, ModelId,
    NotificationId, PrincipalId, ProviderAttemptId, ProviderId, RunId, TeamId, TopicId,
    TopicItemId,
};
pub use topic::{validate_handle, CreateTopic, Principal, Topic, ValidationError};
pub mod issue;

pub use issue::{Comment, CommentKind, CreateComment, CreateIssue, Issue, IssueType};
pub mod mentions;

pub use mentions::parse_mentions;
pub mod models;

pub use models::{AiMember, Provider, ProviderAdapter, Team, TopicMember};
pub mod dispatch;

pub use dispatch::{
    dispatch_status_from_stored, mention_source_kind_as_str, should_dispatch, Dispatch,
    DispatchStatus, DispatchTarget, DispatchTargetOutcome, DispatchTargetSource,
    MentionSourceKind, Notification, SkipReason,
};
pub mod resolution;

pub use resolution::{
    add_principal_candidate, expand_mentions, principal_candidate, queued_outcome,
    resolved_status, target_action, unresolved_candidate, Candidate, MentionResolution,
    MentionedPrincipal, TargetAction,
};
pub mod providers;

pub use providers::{
    check_response_size, decode_completion, endpoint, endpoint_from_parts, environment_credential,
    error_detail, http_error, local_credential, missing_environment_variable,
    models_endpoint, parse_credential_reference, validate_provider_endpoint, BaseResponse,
    ChatCompletion, Completion, CredentialSource, Endpoint, ProviderError, UrlParts, Vendor,
};
pub mod discovery;

pub use discovery::{select_models, DiscoveredModel, ModelEntry};
pub mod store;

pub use store::{
    bootstrap_available, bootstrap_claimed, check_issue_type, check_reference, configured_model_id,
    local_admin, reconfigurable_member, check_team_member_kind, check_topic_member_kind,
    constraint_error, exactly_one, found_id, no_handle_collision, require_server_admin,
    require_lease, require_topic_reader, stored_id, credential_configured,
    map_constraint, next_prompt_version, require_contribution, require_human_writer, require_read,
    BootstrapOutput, StoreError, StoredCreation,
};
pub mod services;

pub use services::{
    check_configuration, check_topic_creator, prepare_external_provider, prepare_local_provider,
    validate_ai_member, validate_bootstrap, validate_local_ai_member, validate_model, validate_provider, validate_team, validate_text,
    IdentityError, ProviderInput, ServiceError,
};
pub mod api;

pub use api::{
    api_error, bearer_token, creation_response, default_comment_kind, fallback_answer,
    health_report, member_model, parse_id, provider_credential, ApiError, AuthenticatedPrincipal,
    CreateAiMemberRequest, CreateCommentRequest, CreateIssueRequest, CreateProviderRequest,
    CreateTeamRequest, CreateTopicRequest, CreationResponse, Data, DispatchResponse,
    FallbackAnswer, MemberModel, ProviderCredential, PutMemberRequest,
};
pub mod execution;

pub use execution::{
    context_sources, estimate_tokens, failure_message, lease_expired, merge_parameters,
    payload_defaults,
    result_comment_body, run_verdict, system_prompt, trigger_body, ContextComment, ContextInput,
    ContextIssue, ContextManifest, ContextSnapshot, ContextSource, ContextTopic, ContextTrigger,
    ModelRequest, PayloadDefaults, RunVerdict, TriggerBody,
};
pub mod laws;
pub mod teams;
pub mod tokens;
pub mod config;
pub mod rows;

pub use config::StorageArgs;

pub use tokens::{generate_token, new_token_credentials, request_token_digest};

pub use teams::{find_team, teams_from_rows, TeamRow};
