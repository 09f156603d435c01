//! Integration with a plagiarism detection service.

use vstd::prelude::*;
use crate::text::concat;

verus! {

/// Error type for integration operations
#[derive(Debug, Clone)]
pub enum IntegrationError {
    /// Plagiarism check failed
    PlagiarismCheckFailed(String),
    /// Invalid input
    InvalidInput(String),
}

impl IntegrationError {
    /// The text that describes the error.
    pub open spec fn message(self) -> Seq<char> {
        match self {
            IntegrationError::PlagiarismCheckFailed(s) => "Plagiarism check failed: "@ + s@,
            IntegrationError::InvalidInput(s) => "Invalid input: "@ + s@,
        }
    }

    /// The text that describes the error.
    pub fn to_string(&self) -> (s: String)
        ensures
            s@ == self.message(),
    {
        match self {
            IntegrationError::PlagiarismCheckFailed(s) => concat(
                "Plagiarism check failed: ",
                s.as_str(),
            ),
            IntegrationError::InvalidInput(s) => concat("Invalid input: ", s.as_str()),
        }
    }
}

} // verus!
