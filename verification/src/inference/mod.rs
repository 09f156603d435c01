//! LLM inference: the data exchanged with providers (Ollama, OpenAI,
//! Anthropic) and the decisions a client takes around each request.

pub mod providers;

use vstd::prelude::*;
use crate::text::{concat, decimal, owned, with_decimal};

verus! {

/// Supported LLM providers.
#[derive(Debug, Clone, Copy, PartialEq, Eq, Structural, Hash)]
pub enum Provider {
    /// Local Ollama inference
    Ollama,
    /// OpenAI API
    OpenAI,
    /// Anthropic API
    Anthropic,
}

impl Default for Provider {
    /// Ollama, the local provider.
    fn default() -> (p: Self)
        ensures
            p == Provider::Ollama,
    {
        Provider::Ollama
    }
}

/// Base URL used when none is configured.
pub fn default_base_url() -> (s: String)
    ensures
        s@ == "http://localhost:11434"@,
{
    owned("http://localhost:11434")
}

/// Number of tokens generated at most when nothing else is configured.
pub fn default_max_tokens() -> (n: usize)
    ensures
        n == 4096,
{
    4096
}

/// Errors that can occur during LLM inference.
#[derive(Debug, Clone)]
pub enum LlmError {
    /// Connection failed
    ConnectionFailed(String),
    /// Request timed out, after the given number of milliseconds
    Timeout(u64),
    /// Invalid request
    InvalidRequest(String),
    /// Rate limited
    RateLimited(String),
    /// API error from provider
    ApiError(String),
    /// Model not found
    ModelNotFound(String),
    /// Authentication failed
    AuthenticationFailed(String),
    /// Response parsing error
    ParseError(String),
}

impl LlmError {
    /// The text that describes the error.
    pub open spec fn message(self) -> Seq<char> {
        match self {
            LlmError::ConnectionFailed(s) => "Connection failed: "@ + s@,
            LlmError::Timeout(ms) => "Request timed out after "@ + decimal(ms as nat) + "ms"@,
            LlmError::InvalidRequest(s) => "Invalid request: "@ + s@,
            LlmError::RateLimited(s) => "Rate limited: "@ + s@,
            LlmError::ApiError(s) => "API error: "@ + s@,
            LlmError::ModelNotFound(s) => "Model not found: "@ + s@,
            LlmError::AuthenticationFailed(s) => "Authentication failed: "@ + s@,
            LlmError::ParseError(s) => "Failed to parse response: "@ + s@,
        }
    }

    /// The text that describes the error.
    pub fn to_string(&self) -> (s: String)
        ensures
            s@ == self.message(),
    {
        match self {
            LlmError::ConnectionFailed(s) => concat("Connection failed: ", s.as_str()),
            LlmError::Timeout(ms) => {
                let mut s = with_decimal("Request timed out after ", *ms);
                s.append("ms");
                s
            },
            LlmError::InvalidRequest(s) => concat("Invalid request: ", s.as_str()),
            LlmError::RateLimited(s) => concat("Rate limited: ", s.as_str()),
            LlmError::ApiError(s) => concat("API error: ", s.as_str()),
            LlmError::ModelNotFound(s) => concat("Model not found: ", s.as_str()),
            LlmError::AuthenticationFailed(s) => concat("Authentication failed: ", s.as_str()),
            LlmError::ParseError(s) => concat("Failed to parse response: ", s.as_str()),
        }
    }
}

/// A single message in a conversation.
#[derive(Debug, Clone)]
pub struct Message {
    /// Role of the message sender
    pub role: String,
    /// Content of the message
    pub content: String,
}

/// Response from a completion request.
#[derive(Debug, Clone)]
pub struct CompletionResponse {
    /// Generated content
    pub content: String,
    /// Token usage information
    pub usage: Option<TokenUsage>,
}

/// Token usage statistics.
#[derive(Debug, Clone, Copy, PartialEq, Eq, Structural)]
pub struct TokenUsage {
    /// Input tokens used
    pub prompt_tokens: usize,
    /// Output tokens generated
    pub completion_tokens: usize,
    /// Total tokens
    pub total_tokens: usize,
}

} // verus!
