//! Rule system for LLM code review.
//!
//! Each rule has metadata that identifies, describes and configures it, and
//! produces a visitor that reports the violations it finds. Rules are kept
//! in a [`crate::registry::Registry`] under their identifiers.

use vstd::prelude::*;
use core::cmp::Ordering;
use vstd::std_specs::cmp::PartialOrdSpecImpl;
use vstd::std_specs::cmp::PartialOrdIs;
use crate::text::{concat, owned};

pub use serde_json::Value as JsonValue;

verus! {

#[verifier::external_type_specification]
#[verifier::external_body]
pub struct ExJsonValue(serde_json::Value);

/// Severity levels for rule violations, ordered Info < Warning < Error.
#[derive(Debug, Clone, Copy, PartialEq, Eq, Structural, Hash, Ord)]
pub enum Severity {
    /// Informational messages, suggestions for improvement
    Info,
    /// Warnings that should be addressed but don't block
    Warning,
    /// Errors that must be fixed
    Error,
}

impl Severity {
    /// The level of a severity: 1 for Info, 2 for Warning, 3 for Error.
    pub open spec fn rank(self) -> int {
        match self {
            Severity::Info => 1,
            Severity::Warning => 2,
            Severity::Error => 3,
        }
    }

    /// The level of this severity: 1 for Info, 2 for Warning, 3 for Error.
    pub fn level(&self) -> (n: u8)
        ensures
            n == self.rank(),
    {
        match self {
            Severity::Info => 1,
            Severity::Warning => 2,
            Severity::Error => 3,
        }
    }

    /// The lower-case name of a severity.
    pub open spec fn name(self) -> Seq<char> {
        match self {
            Severity::Info => "info"@,
            Severity::Warning => "warning"@,
            Severity::Error => "error"@,
        }
    }

    /// The lower-case name of this severity: `info`, `warning` or `error`.
    pub fn to_string(&self) -> (s: String)
        ensures
            s@ == self.name(),
    {
        match self {
            Severity::Info => owned("info"),
            Severity::Warning => owned("warning"),
            Severity::Error => owned("error"),
        }
    }
}

impl Default for Severity {
    /// Warning.
    fn default() -> (s: Self)
        ensures
            s == Severity::Warning,
    {
        Severity::Warning
    }
}

impl PartialOrd for Severity {
    fn partial_cmp(&self, other: &Self) -> (r: Option<Ordering>) {
        let a = self.level();
        let b = other.level();
        if a < b {
            Some(Ordering::Less)
        } else if a == b {
            Some(Ordering::Equal)
        } else {
            Some(Ordering::Greater)
        }
    }
}

impl PartialOrdSpecImpl for Severity {
    open spec fn obeys_partial_cmp_spec() -> bool {
        true
    }

    open spec fn partial_cmp_spec(&self, other: &Self) -> Option<Ordering> {
        if self.rank() < other.rank() {
            Some(Ordering::Less)
        } else if self.rank() == other.rank() {
            Some(Ordering::Equal)
        } else {
            Some(Ordering::Greater)
        }
    }
}

/// Severities are totally ordered by level, with Info < Warning < Error:
/// the comparison of two severities is that of their levels, and two
/// severities compare equal exactly when they are the same.
pub proof fn law_severity_order(a: Severity, b: Severity)
    ensures
        a.is_lt(&b) == (a.rank() < b.rank()),
        a.is_le(&b) == (a.rank() <= b.rank()),
        a.is_gt(&b) == (a.rank() > b.rank()),
        (a.is_le(&b) && b.is_le(&a)) == (a == b),
        Severity::Info.is_lt(&Severity::Warning),
        Severity::Warning.is_lt(&Severity::Error),
        Severity::Info.is_lt(&Severity::Error),
{
}

/// Error type for rule operations.
#[derive(Debug, Clone)]
pub enum RuleError {
    /// Rule not found
    NotFound(String),
    /// Invalid configuration
    InvalidConfig(String),
    /// Execution error
    ExecutionError(String),
}

impl RuleError {
    /// The text that describes the error.
    pub open spec fn message(self) -> Seq<char> {
        match self {
            RuleError::NotFound(s) => "Rule not found: "@ + s@,
            RuleError::InvalidConfig(s) => "Invalid configuration: "@ + s@,
            RuleError::ExecutionError(s) => "Rule execution error: "@ + s@,
        }
    }

    /// The text that describes the error.
    pub fn to_string(&self) -> (s: String)
        ensures
            s@ == self.message(),
    {
        match self {
            RuleError::NotFound(s) => concat("Rule not found: ", s.as_str()),
            RuleError::InvalidConfig(s) => concat("Invalid configuration: ", s.as_str()),
            RuleError::ExecutionError(s) => concat("Rule execution error: ", s.as_str()),
        }
    }
}

/// Metadata describing a rule.
#[derive(Debug, Clone)]
pub struct RuleMeta {
    /// Unique identifier for the rule (e.g., "no-unused-vars")
    pub id: String,
    /// Human-readable description of what the rule checks
    pub description: String,
    /// Default severity level for violations from this rule
    pub severity: Severity,
    /// JSON Schema for rule configuration options, if any
    pub schema: Option<JsonValue>,
}

impl RuleMeta {
    /// Metadata with the given id and description, the default severity
    /// (Warning) and no schema.
    pub fn new(id: &str, description: &str) -> (m: Self)
        ensures
            m.id@ == id@,
            m.description@ == description@,
            m.severity == Severity::Warning,
            m.schema is None,
    {
        RuleMeta {
            id: owned(id),
            description: owned(description),
            severity: Severity::default(),
            schema: None,
        }
    }

    /// The same metadata with the given severity.
    pub fn severity(self, severity: Severity) -> (m: Self)
        ensures
            m == (RuleMeta { severity, ..self }),
    {
        RuleMeta { severity, ..self }
    }

    /// The same metadata with the given schema for the rule's options.
    pub fn schema(self, schema: JsonValue) -> (m: Self)
        ensures
            m == (RuleMeta { schema: Some(schema), ..self }),
    {
        RuleMeta { schema: Some(schema), ..self }
    }

    /// The same metadata with the given severity.
    pub fn with_severity(self, severity: Severity) -> (m: Self)
        ensures
            m == (RuleMeta { severity, ..self }),
    {
        self.severity(severity)
    }

    /// The same metadata with the given schema for the rule's options.
    pub fn with_schema(self, schema: JsonValue) -> (m: Self)
        ensures
            m == (RuleMeta { schema: Some(schema), ..self }),
    {
        self.schema(schema)
    }
}

/// Context provided to rules during analysis.
#[derive(Debug, Clone, Copy)]
pub struct RuleContext {
    marker: (),
}

impl RuleContext {
    /// The context that carries nothing.
    pub closed spec fn empty() -> RuleContext {
        RuleContext { marker: () }
    }
}

impl Default for RuleContext {
    /// The context that carries nothing.
    fn default() -> (c: Self)
        ensures
            c == RuleContext::empty(),
    {
        RuleContext { marker: () }
    }
}

/// Visitor that a rule creates to analyse code; it reports the violations
/// found when the analysis completes.
pub trait RuleVisitor: Send {
    /// Called when analysis completes
    fn finish(self: Box<Self>) -> Vec<RuleViolation>;
}

/// A violation found by a rule.
#[derive(Debug, Clone)]
pub struct RuleViolation {
    /// The rule ID that produced this violation
    pub rule_id: String,
    /// Severity level
    pub severity: Severity,
    /// Human-readable message
    pub message: String,
}

impl RuleViolation {
    /// A violation of the given rule with the given severity and message.
    pub fn new(rule_id: &str, severity: Severity, message: &str) -> (v: Self)
        ensures
            v.rule_id@ == rule_id@,
            v.severity == severity,
            v.message@ == message@,
    {
        RuleViolation { rule_id: owned(rule_id), severity, message: owned(message) }
    }
}

} // verus!
