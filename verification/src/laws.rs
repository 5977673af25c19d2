//! Properties that relate several operations of the library.
use vstd::prelude::*;

use crate::dispatch::{
    outcome_from_text, outcome_text, source_kind_from_text, source_kind_text, status_from_text,
    status_text, DispatchStatus, DispatchTargetOutcome, MentionSourceKind,
};
use crate::issue::{comment_kind_from_text, comment_kind_text, CommentKind};
use crate::models::{adapter_from_text, adapter_text, ProviderAdapter};
use crate::permissions::{kind_from_text, kind_text, role_from_text, role_text, MembershipRole, PrincipalKind};
use crate::providers::{completions_path, endpoint_spec, has_prefix, models_endpoint_spec, trim_slashes, UrlPartsView, Vendor};
use crate::states::{
    issue_state_from_text, issue_state_text, issue_transition, proposal_close, proposal_merge,
    proposal_open, IssueState, ProposalState, StateTransitionError,
};

verus! {

/// A merged Proposal stays merged: opening, closing and merging it again are
/// all refused and leave it merged.
pub proof fn law_merged_is_terminal()
    ensures
        proposal_open(ProposalState::Merged) == (ProposalState::Merged, Err::<(), _>(StateTransitionError::TerminalState)),
        proposal_close(ProposalState::Merged) == (ProposalState::Merged, Err::<(), _>(StateTransitionError::TerminalState)),
        proposal_merge(ProposalState::Merged) == (ProposalState::Merged, Err::<(), _>(StateTransitionError::AlreadyInState)),
{
}

/// A refused transition never changes the state.
pub proof fn law_refused_transitions_change_nothing(p: ProposalState, i: IssueState, target: IssueState)
    ensures
        proposal_open(p).1 is Err ==> proposal_open(p).0 == p,
        proposal_close(p).1 is Err ==> proposal_close(p).0 == p,
        proposal_merge(p).1 is Err ==> proposal_merge(p).0 == p,
        issue_transition(i, target).1 is Err ==> issue_transition(i, target).0 == i,
{
}

/// Only an open Proposal can be merged, and merging it succeeds.
pub proof fn law_merge_requires_open(p: ProposalState)
    ensures
        proposal_merge(p).1 is Ok <==> p == ProposalState::Open,
        proposal_merge(p).1 is Ok ==> proposal_merge(p).0 == ProposalState::Merged,
{
}

/// Closing an open Issue and reopening it gives back an open Issue, and
/// reopening a closed one and closing it again gives back a closed Issue.
pub proof fn law_close_and_reopen_undo_each_other(s: IssueState)
    ensures
        s == IssueState::Open ==> {
            let c = issue_transition(s, IssueState::Closed);
            c.1 is Ok && issue_transition(c.0, IssueState::Open) == (IssueState::Open, Ok::<(), StateTransitionError>(()))
        },
        s == IssueState::Closed ==> {
            let o = issue_transition(s, IssueState::Open);
            o.1 is Ok && issue_transition(o.0, IssueState::Closed) == (IssueState::Closed, Ok::<(), StateTransitionError>(()))
        },
{
}

proof fn lemma_read_back_issue(issue: IssueState)
    ensures
        issue_state_from_text(issue_state_text(issue)) == Some(issue),
{
    reveal_strlit("open");
    reveal_strlit("closed");
    assert("open"@.len() != "closed"@.len());
    assert("open"@ != "closed"@);
}

proof fn lemma_read_back_comment(kind: CommentKind)
    ensures
        comment_kind_from_text(comment_kind_text(kind)) == Some(kind),
{
    reveal_strlit("discussion");
    reveal_strlit("direction");
    reveal_strlit("evidence");
    reveal_strlit("progress");
    reveal_strlit("result");
    assert("discussion"@.len() != "direction"@.len());
    assert("discussion"@ != "direction"@);
    assert("discussion"@.len() != "evidence"@.len());
    assert("discussion"@ != "evidence"@);
    assert("discussion"@.len() != "progress"@.len());
    assert("discussion"@ != "progress"@);
    assert("discussion"@.len() != "result"@.len());
    assert("discussion"@ != "result"@);
    assert("direction"@.len() != "evidence"@.len());
    assert("direction"@ != "evidence"@);
    assert("direction"@.len() != "progress"@.len());
    assert("direction"@ != "progress"@);
    assert("direction"@.len() != "result"@.len());
    assert("direction"@ != "result"@);
    assert("evidence"@[0] != "progress"@[0]);
    assert("evidence"@ != "progress"@);
    assert("evidence"@.len() != "result"@.len());
    assert("evidence"@ != "result"@);
    assert("progress"@.len() != "result"@.len());
    assert("progress"@ != "result"@);
}

proof fn lemma_read_back_adapter(adapter: ProviderAdapter)
    ensures
        adapter_from_text(adapter_text(adapter)) == Some(adapter),
{
    reveal_strlit("openai_responses");
    reveal_strlit("openai_compatible");
    reveal_strlit("anthropic_messages");
    reveal_strlit("google_gemini");
    assert("openai_responses"@.len() != "openai_compatible"@.len());
    assert("openai_responses"@ != "openai_compatible"@);
    assert("openai_responses"@.len() != "anthropic_messages"@.len());
    assert("openai_responses"@ != "anthropic_messages"@);
    assert("openai_responses"@.len() != "google_gemini"@.len());
    assert("openai_responses"@ != "google_gemini"@);
    assert("openai_compatible"@.len() != "anthropic_messages"@.len());
    assert("openai_compatible"@ != "anthropic_messages"@);
    assert("openai_compatible"@.len() != "google_gemini"@.len());
    assert("openai_compatible"@ != "google_gemini"@);
    assert("anthropic_messages"@.len() != "google_gemini"@.len());
    assert("anthropic_messages"@ != "google_gemini"@);
}

proof fn lemma_read_back_role(role: MembershipRole)
    ensures
        role_from_text(role_text(role)) == Some(role),
{
    reveal_strlit("read");
    reveal_strlit("contribute");
    reveal_strlit("write");
    assert("read"@.len() != "contribute"@.len());
    assert("read"@ != "contribute"@);
    assert("read"@.len() != "write"@.len());
    assert("read"@ != "write"@);
    assert("contribute"@.len() != "write"@.len());
    assert("contribute"@ != "write"@);
}

proof fn lemma_read_back_kind(principal: PrincipalKind)
    ensures
        kind_from_text(kind_text(principal)) == Some(principal),
{
    reveal_strlit("human");
    reveal_strlit("ai");
    reveal_strlit("caller");
    reveal_strlit("system");
    assert("human"@.len() != "ai"@.len());
    assert("human"@ != "ai"@);
    assert("human"@.len() != "caller"@.len());
    assert("human"@ != "caller"@);
    assert("human"@.len() != "system"@.len());
    assert("human"@ != "system"@);
    assert("ai"@.len() != "caller"@.len());
    assert("ai"@ != "caller"@);
    assert("ai"@.len() != "system"@.len());
    assert("ai"@ != "system"@);
    assert("caller"@[0] != "system"@[0]);
    assert("caller"@ != "system"@);
}

proof fn lemma_read_back_status(status: DispatchStatus)
    ensures
        status_from_text(status_text(status)) == Some(status),
{
    reveal_strlit("pending");
    reveal_strlit("dispatched");
    reveal_strlit("partially_dispatched");
    reveal_strlit("rejected");
    assert("pending"@.len() != "dispatched"@.len());
    assert("pending"@ != "dispatched"@);
    assert("pending"@.len() != "partially_dispatched"@.len());
    assert("pending"@ != "partially_dispatched"@);
    assert("pending"@.len() != "rejected"@.len());
    assert("pending"@ != "rejected"@);
    assert("dispatched"@.len() != "partially_dispatched"@.len());
    assert("dispatched"@ != "partially_dispatched"@);
    assert("dispatched"@.len() != "rejected"@.len());
    assert("dispatched"@ != "rejected"@);
    assert("partially_dispatched"@.len() != "rejected"@.len());
    assert("partially_dispatched"@ != "rejected"@);
}

proof fn lemma_read_back_outcome(outcome: DispatchTargetOutcome)
    ensures
        outcome_from_text(outcome_text(outcome)) == Some(outcome),
{
    reveal_strlit("notified");
    reveal_strlit("queued");
    reveal_strlit("skipped");
    assert("notified"@.len() != "queued"@.len());
    assert("notified"@ != "queued"@);
    assert("notified"@.len() != "skipped"@.len());
    assert("notified"@ != "skipped"@);
    assert("queued"@.len() != "skipped"@.len());
    assert("queued"@ != "skipped"@);
}

proof fn lemma_read_back_source(source: MentionSourceKind)
    ensures
        source_kind_from_text(source_kind_text(source)) == Some(source),
{
    reveal_strlit("direct");
    reveal_strlit("team");
    assert("direct"@.len() != "team"@.len());
    assert("direct"@ != "team"@);
}

/// Every stored word reads back as the value it was written from.
pub proof fn law_stored_words_read_back(
    issue: IssueState,
    kind: CommentKind,
    adapter: ProviderAdapter,
    role: MembershipRole,
    principal: PrincipalKind,
    status: DispatchStatus,
    outcome: DispatchTargetOutcome,
    source: MentionSourceKind,
)
    ensures
        issue_state_from_text(issue_state_text(issue)) == Some(issue),
        comment_kind_from_text(comment_kind_text(kind)) == Some(kind),
        adapter_from_text(adapter_text(adapter)) == Some(adapter),
        role_from_text(role_text(role)) == Some(role),
        kind_from_text(kind_text(principal)) == Some(principal),
        status_from_text(status_text(status)) == Some(status),
        outcome_from_text(outcome_text(outcome)) == Some(outcome),
        source_kind_from_text(source_kind_text(source)) == Some(source),
{
    lemma_read_back_issue(issue);
    lemma_read_back_comment(kind);
    lemma_read_back_adapter(adapter);
    lemma_read_back_role(role);
    lemma_read_back_kind(principal);
    lemma_read_back_status(status);
    lemma_read_back_outcome(outcome);
    lemma_read_back_source(source);
}

/// Every endpoint that a base URL is accepted for is an HTTPS URL on one of
/// the official DeepSeek and MiniMax API hosts.
pub proof fn law_endpoints_are_official_https(parts: Option<UrlPartsView>)
    ensures
        endpoint_spec(parts) matches Ok((url, v)) ==> {
            let host = parts->0.host->0;
            &&& has_prefix(url, "https://"@ + host)
            &&& (v == Vendor::DeepSeek ==> host == "api.deepseek.com"@)
            &&& (v == Vendor::MiniMax ==> (host == "api.minimax.io"@ || host == "api.minimaxi.com"@))
        },
{
    if let Ok((url, v)) = endpoint_spec(parts) {
        let p = parts->0;
        let path = completions_path(v, trim_slashes(p.path))->0;
        assert(url == "https://"@ + p.host->0 + path);
        assert(url.take(("https://"@ + p.host->0).len() as int) =~= "https://"@ + p.host->0);
    }
}

/// The model-listing endpoint of a credential-free HTTPS base URL on an
/// official host, with no port, on a supported path: `/v1/models` on a MiniMax
/// host; on the DeepSeek host `/models` for the empty path and
/// `/chat/completions`, and `/v1/models` for `/v1` and `/v1/chat/completions`.
/// Trailing slashes are ignored.
pub proof fn law_model_listing_paths(p: UrlPartsView)
    ensures
        ({
            let clean = p.scheme == "https"@ && p.username.len() == 0 && p.password is None && p.port is None;
            let path = trim_slashes(p.path);
            let h = p.host->0;
            &&& (clean && p.host is Some && (h == "api.minimax.io"@ || h == "api.minimaxi.com"@)
                && (path == "/v1"@ || path == "/v1/chat/completions"@))
                ==> models_endpoint_spec(Some(p)) == Ok::<Seq<char>, (Seq<char>, Seq<char>)>("https://"@ + h + "/v1/models"@)
            &&& (clean && p.host == Some("api.deepseek.com"@) && (path == ""@ || path == "/chat/completions"@))
                ==> models_endpoint_spec(Some(p)) == Ok::<Seq<char>, (Seq<char>, Seq<char>)>("https://api.deepseek.com/models"@)
            &&& (clean && p.host == Some("api.deepseek.com"@) && (path == "/v1"@ || path == "/v1/chat/completions"@))
                ==> models_endpoint_spec(Some(p)) == Ok::<Seq<char>, (Seq<char>, Seq<char>)>("https://api.deepseek.com/v1/models"@)
        }),
{
    law_supported_paths_are_accepted(p);
    reveal_strlit("https://");
    reveal_strlit("api.deepseek.com");
    reveal_strlit("/chat/completions");
    reveal_strlit("/v1/chat/completions");
    reveal_strlit("/models");
    reveal_strlit("/v1/models");
    reveal_strlit("https://api.deepseek.com/models");
    reveal_strlit("https://api.deepseek.com/v1/models");
    reveal_strlit("");
    reveal_strlit("/v1");
    reveal_strlit("api.minimax.io");
    reveal_strlit("api.minimaxi.com");
    assert("/chat/completions"@ != "/v1/chat/completions"@) by {
        assert("/chat/completions"@.len() != "/v1/chat/completions"@.len());
    }
    assert("api.minimax.io"@ != "api.deepseek.com"@) by {
        assert("api.minimax.io"@.len() != "api.deepseek.com"@.len());
    }
    assert("api.minimaxi.com"@ != "api.deepseek.com"@) by {
        assert("api.minimaxi.com"@[4] != "api.deepseek.com"@[4]);
    }
    assert("/v1"@ != ""@ && "/v1"@ != "/chat/completions"@) by {
        assert("/v1"@.len() != ""@.len() && "/v1"@.len() != "/chat/completions"@.len());
    }
    assert(""@ != "/chat/completions"@) by {
        assert(""@.len() != "/chat/completions"@.len());
    }
    assert("/v1/chat/completions"@ != ""@) by {
        assert("/v1/chat/completions"@.len() != ""@.len());
    }
    assert("https://"@ + "api.deepseek.com"@ + "/models"@ =~= "https://api.deepseek.com/models"@);
    assert("https://"@ + "api.deepseek.com"@ + "/v1/models"@ =~= "https://api.deepseek.com/v1/models"@);
}

/// A credential-free HTTPS base URL on an official host, with no port, is
/// accepted on each supported path, and the version base path and the full
/// Chat Completions path give the same endpoint: on a MiniMax host `/v1` and
/// `/v1/chat/completions` give `https://<host>/v1/chat/completions`; on the
/// DeepSeek host the empty path and `/chat/completions` give
/// `https://<host>/chat/completions`, and `/v1` and `/v1/chat/completions`
/// give `https://<host>/v1/chat/completions`. Trailing slashes are ignored.
pub proof fn law_supported_paths_are_accepted(p: UrlPartsView)
    ensures
        ({
            let clean = p.scheme == "https"@ && p.username.len() == 0 && p.password is None && p.port is None;
            let path = trim_slashes(p.path);
            let h = p.host->0;
            &&& (clean && p.host is Some && (h == "api.minimax.io"@ || h == "api.minimaxi.com"@)
                && (path == "/v1"@ || path == "/v1/chat/completions"@))
                ==> endpoint_spec(Some(p)) == Ok::<(Seq<char>, Vendor), (Seq<char>, Seq<char>)>(
                    ("https://"@ + h + "/v1/chat/completions"@, Vendor::MiniMax))
            &&& (clean && p.host == Some("api.deepseek.com"@) && (path == ""@ || path == "/chat/completions"@))
                ==> endpoint_spec(Some(p)) == Ok::<(Seq<char>, Vendor), (Seq<char>, Seq<char>)>(
                    ("https://api.deepseek.com/chat/completions"@, Vendor::DeepSeek))
            &&& (clean && p.host == Some("api.deepseek.com"@) && (path == "/v1"@ || path == "/v1/chat/completions"@))
                ==> endpoint_spec(Some(p)) == Ok::<(Seq<char>, Vendor), (Seq<char>, Seq<char>)>(
                    ("https://api.deepseek.com/v1/chat/completions"@, Vendor::DeepSeek))
        }),
{
    reveal_strlit("https");
    reveal_strlit("https://");
    reveal_strlit("api.deepseek.com");
    reveal_strlit("api.minimax.io");
    reveal_strlit("api.minimaxi.com");
    reveal_strlit("");
    reveal_strlit("/v1");
    reveal_strlit("/chat/completions");
    reveal_strlit("/v1/chat/completions");
    reveal_strlit("https://api.deepseek.com/chat/completions");
    reveal_strlit("https://api.deepseek.com/v1/chat/completions");
    assert("api.minimax.io"@ != "api.deepseek.com"@) by {
        assert("api.minimax.io"@.len() != "api.deepseek.com"@.len());
    }
    assert("api.minimaxi.com"@ != "api.deepseek.com"@) by {
        assert("api.minimaxi.com"@[4] != "api.deepseek.com"@[4]);
    }
    assert("/v1"@ != ""@ && "/v1"@ != "/chat/completions"@) by {
        assert("/v1"@.len() != ""@.len() && "/v1"@.len() != "/chat/completions"@.len());
    }
    assert("/v1/chat/completions"@ != ""@ && "/v1/chat/completions"@ != "/chat/completions"@) by {
        assert("/v1/chat/completions"@.len() != "/chat/completions"@.len());
    }
    assert("https://"@ + "api.deepseek.com"@ + "/chat/completions"@ =~= "https://api.deepseek.com/chat/completions"@);
    assert("https://"@ + "api.deepseek.com"@ + "/v1/chat/completions"@ =~= "https://api.deepseek.com/v1/chat/completions"@);
}

} // verus!
