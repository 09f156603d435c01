use llm_review_sdk::agents::{
    default_max_iterations, default_timeout_ms, AgentConfig, AgentError, AgentInput, AgentOutput,
    Severity, Tool, Violation,
};

#[test]
fn agent_violation_builders() {
    let v = Violation::new("no-eval", Severity::Error, "eval is dangerous")
        .with_file("main.py")
        .with_line(12)
        .with_column(4)
        .with_suggestion("use ast.literal_eval");
    assert_eq!(v.rule_id, "no-eval");
    assert_eq!(v.severity, Severity::Error);
    assert_eq!(v.message, "eval is dangerous");
    assert_eq!(v.file.as_deref(), Some("main.py"));
    assert_eq!(v.line, Some(12));
    assert_eq!(v.column, Some(4));
    assert_eq!(v.suggestion.as_deref(), Some("use ast.literal_eval"));
}

#[test]
fn violation_clone_then_locate() {
    let v = Violation::new("r", Severity::Warning, "m").with_column(3);
    let a = v.clone().with_line(7).with_file("f.py");
    let b = v.clone().with_file("f.py").with_line(7);
    for w in [&a, &b] {
        assert_eq!(w.rule_id, v.rule_id);
        assert_eq!(w.severity, v.severity);
        assert_eq!(w.message, v.message);
        assert_eq!(w.file.as_deref(), Some("f.py"));
        assert_eq!(w.line, Some(7));
        assert_eq!(w.column, Some(3));
        assert!(w.suggestion.is_none());
    }
    assert!(v.line.is_none());
    assert!(v.file.is_none());
}

#[test]
fn agent_violation_defaults() {
    let v = Violation::new("r", Severity::Info, "m");
    assert!(v.file.is_none());
    assert!(v.line.is_none());
    assert!(v.column.is_none());
    assert!(v.suggestion.is_none());
}

#[test]
fn agent_config_defaults_and_builders() {
    assert_eq!(default_max_iterations(), 10);
    assert_eq!(default_timeout_ms(), 30000);
    let c = AgentConfig::new("test", "Test Agent", "A test agent");
    assert_eq!(c.id, "test");
    assert_eq!(c.name, "Test Agent");
    assert_eq!(c.description, "A test agent");
    assert!(c.tools.is_empty());
    assert_eq!(c.max_iterations, 10);
    assert_eq!(c.timeout_ms, 30000);
    assert!(c.options.is_empty());

    let c = c
        .with_tool(Tool::new("grep", "Grep", "Search code"))
        .with_tool(Tool::new("ast", "AST", "Parse code"))
        .with_max_iterations(3)
        .with_timeout(500);
    assert_eq!(c.tools.len(), 2);
    assert_eq!(c.tools[0].id, "grep");
    assert_eq!(c.tools[1].id, "ast");
    assert_eq!(c.max_iterations, 3);
    assert_eq!(c.timeout_ms, 500);
}

#[test]
fn agent_tool_schema() {
    let t = Tool::new("grep", "Grep", "Search code");
    assert!(t.parameters_schema.is_none());
    let t = t.with_schema(serde_json::Value::Bool(true));
    assert_eq!(t.parameters_schema, Some(serde_json::Value::Bool(true)));
    assert_eq!(t.name, "Grep");
}

#[test]
fn agent_input_builders() {
    let i = AgentInput::new("print(1)").with_file("a.py").with_language("python");
    assert_eq!(i.code, "print(1)");
    assert_eq!(i.file_path.as_deref(), Some("a.py"));
    assert_eq!(i.language.as_deref(), Some("python"));
    assert!(i.context.is_none());
}

#[test]
fn agent_output_builders() {
    let o = AgentOutput::new();
    assert!(o.violations.is_empty());
    assert!(o.summary.is_none());
    let o = AgentOutput::with_violations(vec![Violation::new("r", Severity::Warning, "m")])
        .with_summary("1 warning found");
    assert_eq!(o.violations.len(), 1);
    assert_eq!(o.summary.as_deref(), Some("1 warning found"));
    assert!(AgentOutput::default().metadata.is_none());
}

#[test]
fn agent_severity_order_and_names() {
    assert!(Severity::Info < Severity::Warning);
    assert!(Severity::Warning < Severity::Error);
    assert_eq!(Severity::default(), Severity::Warning);
    assert_eq!(Severity::Info.to_string(), "info");
    assert_eq!(Severity::Error.to_string(), "error");
}

#[test]
fn agent_error_messages() {
    assert_eq!(AgentError::ExecutionFailed("x".into()).to_string(), "Execution failed: x");
    assert_eq!(AgentError::ToolError("x".into()).to_string(), "Tool error: x");
    assert_eq!(AgentError::Timeout("5s".into()).to_string(), "Timeout: 5s");
    assert_eq!(AgentError::InvalidInput("x".into()).to_string(), "Invalid input: x");
    assert_eq!(AgentError::NotFound("a".into()).to_string(), "Agent not found: a");
}
