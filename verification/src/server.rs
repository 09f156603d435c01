//! Types of the HTTP review API: what a client sends and what the server
//! answers.

use vstd::prelude::*;
use crate::agents::AgentConfig;
use crate::rules::{JsonValue, RuleViolation};
use crate::text::{concat, owned};

verus! {

/// Violation type alias for convenience.
pub type Violation = RuleViolation;

/// Error type for server operations.
#[derive(Debug, Clone)]
pub enum ServerError {
    /// Binding error
    BindError(String),
    /// HTTP error
    HttpError(String),
    /// Request parsing error
    ParseError(String),
    /// Internal error
    Internal(String),
}

impl ServerError {
    /// The text that describes the error.
    pub open spec fn message(self) -> Seq<char> {
        match self {
            ServerError::BindError(s) => "Failed to bind to address: "@ + s@,
            ServerError::HttpError(s) => "HTTP error: "@ + s@,
            ServerError::ParseError(s) => "Failed to parse request: "@ + s@,
            ServerError::Internal(s) => "Internal server error: "@ + s@,
        }
    }

    /// The text that describes the error.
    pub fn to_string(&self) -> (s: String)
        ensures
            s@ == self.message(),
    {
        match self {
            ServerError::BindError(s) => concat("Failed to bind to address: ", s.as_str()),
            ServerError::HttpError(s) => concat("HTTP error: ", s.as_str()),
            ServerError::ParseError(s) => concat("Failed to parse request: ", s.as_str()),
            ServerError::Internal(s) => concat("Internal server error: ", s.as_str()),
        }
    }
}

/// Configuration for a rule in a review request.
#[derive(Debug, Clone)]
pub struct RuleConfig {
    /// Rule identifier
    pub rule_id: String,
    /// Rule severity level
    pub severity: Option<String>,
    /// Rule-specific configuration options
    pub options: Option<JsonValue>,
}

/// Request to perform code review inference.
#[derive(Debug, Clone)]
pub struct InferenceRequest {
    /// Name of the agent to use for review
    pub agent_name: String,
    /// Source code to analyze
    pub input_code: String,
    /// Optional code to compare against (for similarity detection)
    pub comparison_code: Option<String>,
    /// Rules to apply during review
    pub rules: Vec<RuleConfig>,
    /// Agent configuration
    pub config: AgentConfig,
    /// Unique identifier for this request
    pub request_id: String,
}

/// Health check response.
#[derive(Debug, Clone)]
pub struct HealthResponse {
    /// Server status
    pub status: String,
    /// Server version
    pub version: String,
    /// List of available review agents
    pub agents_available: Vec<String>,
    /// Server uptime in seconds
    pub uptime_seconds: u64,
}

/// Error response for API errors.
#[derive(Debug, Clone)]
pub struct ErrorResponse {
    /// Error code
    pub code: String,
    /// Human-readable error message
    pub message: String,
    /// Additional error details
    pub details: Option<String>,
}

impl ErrorResponse {
    /// An error response with the given code and message and no details.
    pub fn new(code: &str, message: &str) -> (r: Self)
        ensures
            r.code@ == code@,
            r.message@ == message@,
            r.details is None,
    {
        ErrorResponse { code: owned(code), message: owned(message), details: None }
    }

    /// The same error response with the given details.
    pub fn with_details(self, details: &str) -> (r: Self)
        ensures
            r.code == self.code,
            r.message == self.message,
            r.details matches Some(d) && d@ == details@,
    {
        ErrorResponse { details: Some(owned(details)), ..self }
    }
}

} // verus!
