//! LLM-powered review agents: their configuration, the tools they may call,
//! what they are given to review and what they report.

use vstd::prelude::*;
use core::cmp::Ordering;
use std::collections::HashMap;
use vstd::std_specs::cmp::PartialOrdSpecImpl;
use vstd::std_specs::cmp::PartialOrdIs;
use crate::rules::JsonValue;
use crate::text::{concat, owned};

verus! {

/// Severity levels for agent-detected violations, ordered
/// Info < Warning < Error.
#[derive(Debug, Clone, Copy, PartialEq, Eq, Structural, Hash, Ord)]
pub enum Severity {
    /// Informational suggestions
    Info,
    /// Warnings that should be addressed
    Warning,
    /// Errors that must be fixed
    Error,
}

impl Severity {
    /// The level of a severity: 1 for Info, 2 for Warning, 3 for Error.
    pub open spec fn rank(self) -> int {
        match self {
            Severity::Info => 1,
            Severity::Warning => 2,
            Severity::Error => 3,
        }
    }

    /// The level of this severity: 1 for Info, 2 for Warning, 3 for Error.
    pub fn level(&self) -> (n: u8)
        ensures
            n == self.rank(),
    {
        match self {
            Severity::Info => 1,
            Severity::Warning => 2,
            Severity::Error => 3,
        }
    }

    /// The lower-case name of a severity.
    pub open spec fn name(self) -> Seq<char> {
        match self {
            Severity::Info => "info"@,
            Severity::Warning => "warning"@,
            Severity::Error => "error"@,
        }
    }

    /// The lower-case name of this severity: `info`, `warning` or `error`.
    pub fn to_string(&self) -> (s: String)
        ensures
            s@ == self.name(),
    {
        match self {
            Severity::Info => owned("info"),
            Severity::Warning => owned("warning"),
            Severity::Error => owned("error"),
        }
    }
}

impl Default for Severity {
    /// Warning.
    fn default() -> (s: Self)
        ensures
            s == Severity::Warning,
    {
        Severity::Warning
    }
}

impl PartialOrd for Severity {
    fn partial_cmp(&self, other: &Self) -> (r: Option<Ordering>) {
        let a = self.level();
        let b = other.level();
        if a < b {
            Some(Ordering::Less)
        } else if a == b {
            Some(Ordering::Equal)
        } else {
            Some(Ordering::Greater)
        }
    }
}

impl PartialOrdSpecImpl for Severity {
    open spec fn obeys_partial_cmp_spec() -> bool {
        true
    }

    open spec fn partial_cmp_spec(&self, other: &Self) -> Option<Ordering> {
        if self.rank() < other.rank() {
            Some(Ordering::Less)
        } else if self.rank() == other.rank() {
            Some(Ordering::Equal)
        } else {
            Some(Ordering::Greater)
        }
    }
}

/// Severities of agent violations are totally ordered by level, with
/// Info < Warning < Error.
pub proof fn law_agent_severity_order(a: Severity, b: Severity)
    ensures
        a.is_lt(&b) == (a.rank() < b.rank()),
        a.is_le(&b) == (a.rank() <= b.rank()),
        a.is_gt(&b) == (a.rank() > b.rank()),
        (a.is_le(&b) && b.is_le(&a)) == (a == b),
        Severity::Info.is_lt(&Severity::Warning),
        Severity::Warning.is_lt(&Severity::Error),
{
}

/// Errors that can occur during agent execution.
#[derive(Debug, Clone)]
pub enum AgentError {
    /// Agent execution failed
    ExecutionFailed(String),
    /// Tool execution error
    ToolError(String),
    /// Operation timed out
    Timeout(String),
    /// Invalid input provided
    InvalidInput(String),
    /// Agent not found
    NotFound(String),
}

impl AgentError {
    /// The text that describes the error.
    pub open spec fn message(self) -> Seq<char> {
        match self {
            AgentError::ExecutionFailed(s) => "Execution failed: "@ + s@,
            AgentError::ToolError(s) => "Tool error: "@ + s@,
            AgentError::Timeout(s) => "Timeout: "@ + s@,
            AgentError::InvalidInput(s) => "Invalid input: "@ + s@,
            AgentError::NotFound(s) => "Agent not found: "@ + s@,
        }
    }

    /// The text that describes the error.
    pub fn to_string(&self) -> (s: String)
        ensures
            s@ == self.message(),
    {
        match self {
            AgentError::ExecutionFailed(s) => concat("Execution failed: ", s.as_str()),
            AgentError::ToolError(s) => concat("Tool error: ", s.as_str()),
            AgentError::Timeout(s) => concat("Timeout: ", s.as_str()),
            AgentError::InvalidInput(s) => concat("Invalid input: ", s.as_str()),
            AgentError::NotFound(s) => concat("Agent not found: ", s.as_str()),
        }
    }
}

/// A tool that can be invoked by an agent.
#[derive(Debug, Clone)]
pub struct Tool {
    /// Unique identifier for the tool
    pub id: String,
    /// Human-readable name
    pub name: String,
    /// Description of what the tool does
    pub description: String,
    /// JSON Schema for tool parameters
    pub parameters_schema: Option<JsonValue>,
}

impl Tool {
    /// A tool with the given id, name and description and no parameter
    /// schema.
    pub fn new(id: &str, name: &str, description: &str) -> (t: Self)
        ensures
            t.id@ == id@,
            t.name@ == name@,
            t.description@ == description@,
            t.parameters_schema is None,
    {
        Tool {
            id: owned(id),
            name: owned(name),
            description: owned(description),
            parameters_schema: None,
        }
    }

    /// The same tool with the given parameter schema.
    pub fn with_schema(self, schema: JsonValue) -> (t: Self)
        ensures
            t == (Tool { parameters_schema: Some(schema), ..self }),
    {
        Tool { parameters_schema: Some(schema), ..self }
    }
}

/// A violation detected by an agent during review.
#[derive(Debug)]
pub struct Violation {
    /// Rule or check that produced this violation
    pub rule_id: String,
    /// Severity level
    pub severity: Severity,
    /// Human-readable message
    pub message: String,
    /// File location (optional)
    pub file: Option<String>,
    /// Line number (optional)
    pub line: Option<usize>,
    /// Column number (optional)
    pub column: Option<usize>,
    /// Suggested fix (optional)
    pub suggestion: Option<String>,
}

impl Clone for Violation {
    /// A copy with the same fields.
    fn clone(&self) -> (v: Self)
        ensures
            v == *self,
    {
        Violation {
            rule_id: self.rule_id.clone(),
            severity: self.severity,
            message: self.message.clone(),
            file: self.file.clone(),
            line: self.line,
            column: self.column,
            suggestion: self.suggestion.clone(),
        }
    }
}

/// `v` is `w` located in the file named `file`: its file has that text and
/// every other field is that of `w`.
pub open spec fn in_file(w: Violation, file: Seq<char>, v: Violation) -> bool {
    &&& v.file matches Some(f) && f@ == file
    &&& v.rule_id == w.rule_id
    &&& v.severity == w.severity
    &&& v.message == w.message
    &&& v.line == w.line
    &&& v.column == w.column
    &&& v.suggestion == w.suggestion
}

/// Locating a violation at a line and in a file gives the same violation in
/// either order: the same fields, with a file of the same text.
pub proof fn law_line_and_file_commute(
    v: Violation,
    line: usize,
    file: Seq<char>,
    line_then_file: Violation,
    file_only: Violation,
)
    requires
        in_file(Violation { line: Some(line), ..v }, file, line_then_file),
        in_file(v, file, file_only),
    ensures
        in_file(Violation { line: Some(line), ..file_only }, file, line_then_file),
{
}

impl Violation {
    /// A violation of the given rule with the given severity and message,
    /// with no location and no suggestion.
    pub fn new(rule_id: &str, severity: Severity, message: &str) -> (v: Self)
        ensures
            v.rule_id@ == rule_id@,
            v.severity == severity,
            v.message@ == message@,
            v.file is None,
            v.line is None,
            v.column is None,
            v.suggestion is None,
    {
        Violation {
            rule_id: owned(rule_id),
            severity,
            message: owned(message),
            file: None,
            line: None,
            column: None,
            suggestion: None,
        }
    }

    /// The same violation located in the given file.
    pub fn with_file(self, file: &str) -> (v: Self)
        ensures
            in_file(self, file@, v),
    {
        Violation { file: Some(owned(file)), ..self }
    }

    /// The same violation located at the given line.
    pub fn with_line(self, line: usize) -> (v: Self)
        ensures
            v == (Violation { line: Some(line), ..self }),
    {
        Violation { line: Some(line), ..self }
    }

    /// The same violation located at the given column.
    pub fn with_column(self, column: usize) -> (v: Self)
        ensures
            v == (Violation { column: Some(column), ..self }),
    {
        Violation { column: Some(column), ..self }
    }

    /// The same violation with the given suggested fix.
    pub fn with_suggestion(self, suggestion: &str) -> (v: Self)
        ensures
            v.suggestion matches Some(s) && s@ == suggestion@,
            v.rule_id == self.rule_id,
            v.severity == self.severity,
            v.message == self.message,
            v.file == self.file,
            v.line == self.line,
            v.column == self.column,
    {
        Violation { suggestion: Some(owned(suggestion)), ..self }
    }
}

/// Input provided to an agent for review.
#[derive(Debug, Clone)]
pub struct AgentInput {
    /// Code to review
    pub code: String,
    /// File path (optional)
    pub file_path: Option<String>,
    /// Language of the code (optional)
    pub language: Option<String>,
    /// Additional context (optional)
    pub context: Option<HashMap<String, JsonValue>>,
}

impl AgentInput {
    /// Input that holds the given code and nothing else.
    pub fn new(code: &str) -> (i: Self)
        ensures
            i.code@ == code@,
            i.file_path is None,
            i.language is None,
            i.context is None,
    {
        AgentInput { code: owned(code), file_path: None, language: None, context: None }
    }

    /// The same input with the given file path.
    pub fn with_file(self, path: &str) -> (i: Self)
        ensures
            i.file_path matches Some(p) && p@ == path@,
            i.code == self.code,
            i.language == self.language,
            i.context == self.context,
    {
        AgentInput { file_path: Some(owned(path)), ..self }
    }

    /// The same input with the given language.
    pub fn with_language(self, language: &str) -> (i: Self)
        ensures
            i.language matches Some(l) && l@ == language@,
            i.code == self.code,
            i.file_path == self.file_path,
            i.context == self.context,
    {
        AgentInput { language: Some(owned(language)), ..self }
    }
}

/// Output from an agent after review.
#[derive(Debug, Clone)]
pub struct AgentOutput {
    /// Violations detected
    pub violations: Vec<Violation>,
    /// Summary of the review
    pub summary: Option<String>,
    /// Additional metadata
    pub metadata: Option<HashMap<String, JsonValue>>,
}

impl Default for AgentOutput {
    /// An output with no violation, summary or metadata.
    fn default() -> (o: Self)
        ensures
            o.violations@.len() == 0,
            o.summary is None,
            o.metadata is None,
    {
        AgentOutput { violations: Vec::new(), summary: None, metadata: None }
    }
}

impl AgentOutput {
    /// An output with no violation, summary or metadata.
    pub fn new() -> (o: Self)
        ensures
            o.violations@.len() == 0,
            o.summary is None,
            o.metadata is None,
    {
        Self::default()
    }

    /// An output that reports the given violations, with no summary or
    /// metadata.
    pub fn with_violations(violations: Vec<Violation>) -> (o: Self)
        ensures
            o.violations == violations,
            o.summary is None,
            o.metadata is None,
    {
        AgentOutput { violations, summary: None, metadata: None }
    }

    /// The same output with the given summary.
    pub fn with_summary(self, summary: &str) -> (o: Self)
        ensures
            o.summary matches Some(s) && s@ == summary@,
            o.violations == self.violations,
            o.metadata == self.metadata,
    {
        AgentOutput { summary: Some(owned(summary)), ..self }
    }
}

/// Iterations an agent makes at most when nothing else is configured.
pub fn default_max_iterations() -> (n: usize)
    ensures
        n == 10,
{
    10
}

/// Time an agent is given when nothing else is configured, in milliseconds.
pub fn default_timeout_ms() -> (n: u64)
    ensures
        n == 30000,
{
    30000
}

/// Configuration for review agents.
#[derive(Debug, Clone)]
pub struct AgentConfig {
    /// Unique identifier for the agent
    pub id: String,
    /// Human-readable name
    pub name: String,
    /// Description of the agent's purpose
    pub description: String,
    /// Tools available to this agent
    pub tools: Vec<Tool>,
    /// Maximum iterations for the agent
    pub max_iterations: usize,
    /// Timeout in milliseconds
    pub timeout_ms: u64,
    /// Additional configuration options
    pub options: HashMap<String, JsonValue>,
}

impl AgentConfig {
    /// A configuration with the given id, name and description, no tools,
    /// the default iteration limit (10) and timeout (30000 ms), and no
    /// options.
    pub fn new(id: &str, name: &str, description: &str) -> (c: Self)
        ensures
            c.id@ == id@,
            c.name@ == name@,
            c.description@ == description@,
            c.tools@.len() == 0,
            c.max_iterations == 10,
            c.timeout_ms == 30000,
            c.options@ == Map::<String, JsonValue>::empty(),
    {
        AgentConfig {
            id: owned(id),
            name: owned(name),
            description: owned(description),
            tools: Vec::new(),
            max_iterations: default_max_iterations(),
            timeout_ms: default_timeout_ms(),
            options: HashMap::new(),
        }
    }

    /// The same configuration with `tool` added after the other tools.
    pub fn with_tool(self, tool: Tool) -> (c: Self)
        ensures
            c.tools@ == self.tools@.push(tool),
            c.id == self.id,
            c.name == self.name,
            c.description == self.description,
            c.max_iterations == self.max_iterations,
            c.timeout_ms == self.timeout_ms,
            c.options == self.options,
    {
        let mut c = self;
        c.tools.push(tool);
        c
    }

    /// The same configuration with the given iteration limit.
    pub fn with_max_iterations(self, max: usize) -> (c: Self)
        ensures
            c == (AgentConfig { max_iterations: max, ..self }),
    {
        AgentConfig { max_iterations: max, ..self }
    }

    /// The same configuration with the given timeout.
    pub fn with_timeout(self, timeout_ms: u64) -> (c: Self)
        ensures
            c == (AgentConfig { timeout_ms, ..self }),
    {
        AgentConfig { timeout_ms, ..self }
    }
}

} // verus!
