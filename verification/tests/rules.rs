use llm_review_sdk::rules::{RuleContext, RuleError, RuleMeta, RuleViolation, Severity};

#[test]
fn severity_ordering() {
    // Test explicit ordering: Error > Warning > Info
    assert!(Severity::Error > Severity::Warning);
    assert!(Severity::Warning > Severity::Info);
    assert!(Severity::Error > Severity::Info);

    // Test equality
    assert!(Severity::Error == Severity::Error);
    assert!(Severity::Warning == Severity::Warning);
    assert!(Severity::Info == Severity::Info);

    // Test inequality
    assert!(Severity::Error != Severity::Warning);
    assert!(Severity::Warning != Severity::Info);

    // Test ordering chain
    let severities = vec![Severity::Info, Severity::Error, Severity::Warning];
    let mut sorted = severities;
    sorted.sort();
    assert_eq!(sorted, vec![Severity::Info, Severity::Warning, Severity::Error]);

    // Test reverse sorting
    sorted.sort_by(|a, b| b.cmp(a));
    assert_eq!(sorted, vec![Severity::Error, Severity::Warning, Severity::Info]);
}

#[test]
fn severity_default() {
    assert_eq!(Severity::default(), Severity::Warning);
}

#[test]
fn severity_display() {
    assert_eq!(Severity::Error.to_string(), "error");
    assert_eq!(Severity::Warning.to_string(), "warning");
    assert_eq!(Severity::Info.to_string(), "info");
}

fn object_schema() -> serde_json::Value {
    let mut m = serde_json::Map::new();
    m.insert("type".to_string(), serde_json::Value::String("object".to_string()));
    serde_json::Value::Object(m)
}

#[test]
fn rule_meta_builder() {
    let meta = RuleMeta::new("test-rule", "A test rule")
        .severity(Severity::Error)
        .schema(object_schema());

    assert_eq!(meta.id, "test-rule");
    assert_eq!(meta.description, "A test rule");
    assert_eq!(meta.severity, Severity::Error);
    assert!(meta.schema.is_some());
}

#[test]
fn rule_violation_creation() {
    let violation = RuleViolation::new("test-rule", Severity::Warning, "Test message");

    assert_eq!(violation.rule_id, "test-rule");
    assert_eq!(violation.severity, Severity::Warning);
    assert_eq!(violation.message, "Test message");
}

#[test]
fn rule_meta_defaults() {
    let meta = RuleMeta::new("no-debug", "Disallow debug statements");
    assert_eq!(meta.severity, Severity::Warning);
    assert!(meta.schema.is_none());
    let meta = meta.with_severity(Severity::Info).with_schema(object_schema());
    assert_eq!(meta.id, "no-debug");
    assert_eq!(meta.severity, Severity::Info);
    assert_eq!(meta.schema, Some(object_schema()));
}

#[test]
fn severity_levels() {
    assert_eq!(Severity::Info.level(), 1);
    assert_eq!(Severity::Warning.level(), 2);
    assert_eq!(Severity::Error.level(), 3);
    assert_eq!(Severity::Info.partial_cmp(&Severity::Error), Some(std::cmp::Ordering::Less));
    assert_eq!(Severity::Error.partial_cmp(&Severity::Error), Some(std::cmp::Ordering::Equal));
    assert!(Severity::Warning >= Severity::Warning);
}

#[test]
fn rule_error_messages() {
    assert_eq!(RuleError::NotFound("x".to_string()).to_string(), "Rule not found: x");
    assert_eq!(
        RuleError::InvalidConfig("bad".to_string()).to_string(),
        "Invalid configuration: bad"
    );
    assert_eq!(
        RuleError::ExecutionError("boom".to_string()).to_string(),
        "Rule execution error: boom"
    );
}

#[test]
fn rule_context_default() {
    let _ctx = RuleContext::default();
}
