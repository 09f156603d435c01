//! Verified core of an SDK for LLM-assisted code review: rules and their
//! registry, agent configuration, the decisions of LLM provider clients,
//! the API types of the review server, and the safe extraction of
//! submitted ZIP projects.

pub mod agents;
pub mod inference;
pub mod integration;
pub mod registry;
pub mod rules;
pub mod server;
pub mod text;
pub mod workflow;
pub mod zip_project;

use vstd::prelude::*;
use vstd::std_specs::convert::FromSpecImpl;
use crate::agents::AgentError;
use crate::inference::LlmError;
use crate::rules::RuleError;
use crate::server::ServerError;
use crate::text::concat;
use crate::workflow::WorkflowError;

verus! {

/// Crate-level error type
#[derive(Debug, Clone)]
pub enum Error {
    /// Rule evaluation error
    Rule(RuleError),
    /// Agent error
    Agent(AgentError),
    /// Inference error
    Inference(LlmError),
    /// Server error
    Server(ServerError),
    /// Workflow error
    Workflow(WorkflowError),
}

impl Error {
    /// The text that describes the error: the kind of error, then the text
    /// of the error it wraps.
    pub open spec fn message(self) -> Seq<char> {
        match self {
            Error::Rule(e) => "Rule error: "@ + e.message(),
            Error::Agent(e) => "Agent error: "@ + e.message(),
            Error::Inference(e) => "Inference error: "@ + e.message(),
            Error::Server(e) => "Server error: "@ + e.message(),
            Error::Workflow(e) => "Workflow error: "@ + e.message(),
        }
    }

    /// The text that describes the error.
    pub fn to_string(&self) -> (s: String)
        ensures
            s@ == self.message(),
    {
        match self {
            Error::Rule(e) => concat("Rule error: ", e.to_string().as_str()),
            Error::Agent(e) => concat("Agent error: ", e.to_string().as_str()),
            Error::Inference(e) => concat("Inference error: ", e.to_string().as_str()),
            Error::Server(e) => concat("Server error: ", e.to_string().as_str()),
            Error::Workflow(e) => concat("Workflow error: ", e.to_string().as_str()),
        }
    }
}

impl From<RuleError> for Error {
    fn from(e: RuleError) -> (r: Self) {
        Error::Rule(e)
    }
}

impl FromSpecImpl<RuleError> for Error {
    open spec fn obeys_from_spec() -> bool {
        true
    }

    open spec fn from_spec(e: RuleError) -> Self {
        Error::Rule(e)
    }
}

impl From<AgentError> for Error {
    fn from(e: AgentError) -> (r: Self) {
        Error::Agent(e)
    }
}

impl FromSpecImpl<AgentError> for Error {
    open spec fn obeys_from_spec() -> bool {
        true
    }

    open spec fn from_spec(e: AgentError) -> Self {
        Error::Agent(e)
    }
}

impl From<LlmError> for Error {
    fn from(e: LlmError) -> (r: Self) {
        Error::Inference(e)
    }
}

impl FromSpecImpl<LlmError> for Error {
    open spec fn obeys_from_spec() -> bool {
        true
    }

    open spec fn from_spec(e: LlmError) -> Self {
        Error::Inference(e)
    }
}

impl From<ServerError> for Error {
    fn from(e: ServerError) -> (r: Self) {
        Error::Server(e)
    }
}

impl FromSpecImpl<ServerError> for Error {
    open spec fn obeys_from_spec() -> bool {
        true
    }

    open spec fn from_spec(e: ServerError) -> Self {
        Error::Server(e)
    }
}

impl From<WorkflowError> for Error {
    fn from(e: WorkflowError) -> (r: Self) {
        Error::Workflow(e)
    }
}

impl FromSpecImpl<WorkflowError> for Error {
    open spec fn obeys_from_spec() -> bool {
        true
    }

    open spec fn from_spec(e: WorkflowError) -> Self {
        Error::Workflow(e)
    }
}

/// Result type for this crate
pub type Result<T> = core::result::Result<T, Error>;

} // verus!
