//! A reply of the Grok chat-completion service, as plain values.
use vstd::prelude::*;

verus! {

/// A chat-completion reply.
pub struct Grok {
    pub id: String,
    pub object: String,
    pub created: u64,
    pub model: String,
    pub choices: Vec<GrokChoices>,
    pub usage: GrokUsage,
    pub system_fingerprint: String,
}

/// One of the completions in a reply.
pub struct GrokChoices {
    pub index: u16,
    pub message: GrokMessage,
    pub finish_reason: String,
}

/// The message of a completion.
pub struct GrokMessage {
    pub role: String,
    pub content: String,
}

/// What a request cost, in tokens.
pub struct GrokUsage {
    pub prompt_tokens: u32,
    pub completion_tokens: u32,
    pub total_tokens: u32,
    pub prompt_tokens_details: PromptTokensDetails,
}

/// The prompt tokens by kind.
pub struct PromptTokensDetails {
    pub text_tokens: u32,
    pub audio_tokens: u32,
    pub image_tokens: u32,
    pub cached_tokens: u32,
}

} // verus!
