use vstd::prelude::*;

use crate::ids::{ModelId, PrincipalId, ProviderId, TeamId, TopicId};
use crate::permissions::MembershipRole;
use crate::text::{chars_eq_str, chars_of};
use crate::topic::Principal;

verus! {

/// The wire protocol a Provider speaks.
#[derive(Debug, Clone, Copy, PartialEq, Eq, Structural)]
pub enum ProviderAdapter {
    OpenaiResponses,
    OpenaiCompatible,
    AnthropicMessages,
    GoogleGemini,
}

pub open spec fn adapter_text(a: ProviderAdapter) -> Seq<char> {
    match a {
        ProviderAdapter::OpenaiResponses => "openai_responses"@,
        ProviderAdapter::OpenaiCompatible => "openai_compatible"@,
        ProviderAdapter::AnthropicMessages => "anthropic_messages"@,
        ProviderAdapter::GoogleGemini => "google_gemini"@,
    }
}

pub open spec fn adapter_from_text(t: Seq<char>) -> Option<ProviderAdapter> {
    if t == "openai_responses"@ {
        Some(ProviderAdapter::OpenaiResponses)
    } else if t == "openai_compatible"@ {
        Some(ProviderAdapter::OpenaiCompatible)
    } else if t == "anthropic_messages"@ {
        Some(ProviderAdapter::AnthropicMessages)
    } else if t == "google_gemini"@ {
        Some(ProviderAdapter::GoogleGemini)
    } else {
        None
    }
}

impl ProviderAdapter {
    /// The word under which the adapter is stored.
    pub fn as_str(self) -> (text: &'static str)
        ensures
            text@ == adapter_text(self),
    {
        match self {
            ProviderAdapter::OpenaiResponses => "openai_responses",
            ProviderAdapter::OpenaiCompatible => "openai_compatible",
            ProviderAdapter::AnthropicMessages => "anthropic_messages",
            ProviderAdapter::GoogleGemini => "google_gemini",
        }
    }

    /// Reads a stored adapter word back.
    pub fn from_stored(value: &str) -> (adapter: Option<ProviderAdapter>)
        ensures
            adapter == adapter_from_text(value@),
    {
        let v = chars_of(value);
        if chars_eq_str(&v, "openai_responses") {
            Some(ProviderAdapter::OpenaiResponses)
        } else if chars_eq_str(&v, "openai_compatible") {
            Some(ProviderAdapter::OpenaiCompatible)
        } else if chars_eq_str(&v, "anthropic_messages") {
            Some(ProviderAdapter::AnthropicMessages)
        } else if chars_eq_str(&v, "google_gemini") {
            Some(ProviderAdapter::GoogleGemini)
        } else {
            None
        }
    }
}

/// A configured model provider. Its credential is never part of this value.
#[derive(Debug, Clone, PartialEq, Eq)]
pub struct Provider {
    pub id: ProviderId,
    pub name: String,
    pub adapter: ProviderAdapter,
    pub base_url: String,
    pub credential_configured: bool,
    pub enabled: bool,
}

/// An AI principal with its identity prompt and default model.
#[derive(Debug, Clone, PartialEq, Eq)]
pub struct AiMember {
    pub principal: Principal,
    pub identity_prompt: String,
    pub identity_prompt_version: i64,
    pub default_model_id: ModelId,
}

/// A principal's membership in a Topic.
#[derive(Debug, Clone, PartialEq, Eq)]
pub struct TopicMember {
    pub principal: Principal,
    pub role: MembershipRole,
}

/// A named group of Topic members that can be mentioned as one.
#[derive(Debug, Clone, PartialEq, Eq)]
pub struct Team {
    pub id: TeamId,
    pub topic_id: TopicId,
    pub handle: String,
    pub display_name: String,
    pub members: Vec<PrincipalId>,
}

} // verus!
