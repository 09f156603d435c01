use llm_review_sdk::registry::Registry;
use llm_review_sdk::workflow::{require_agent, require_rules, WorkflowError};

#[test]
fn workflow_agent_not_found() {
    let agents: Registry<()> = Registry::new();
    let result = require_agent(&agents, "nonexistent");

    assert!(result.is_err());
    match result.unwrap_err() {
        WorkflowError::AgentNotRegistered { agent } => {
            assert_eq!(agent, "nonexistent");
        }
        _ => panic!("Expected AgentNotRegistered error"),
    }
}

#[test]
fn workflow_registered_agent_accepted() {
    let mut agents: Registry<()> = Registry::new();
    agents.insert("style-bot".to_string(), ());
    assert!(require_agent(&agents, "style-bot").is_ok());
}

#[test]
fn workflow_first_unknown_rule_reported() {
    let mut rules: Registry<()> = Registry::new();
    rules.insert("a".to_string(), ());
    assert!(require_rules(&rules, &["a"]).is_ok());
    assert!(require_rules(&rules, &[]).is_ok());
    match require_rules(&rules, &["a", "b", "c"]) {
        Err(WorkflowError::RuleNotRegistered { rule }) => assert_eq!(rule, "b"),
        _ => panic!("expected RuleNotRegistered"),
    }
}

#[test]
fn workflow_error_messages() {
    assert_eq!(
        WorkflowError::AgentNotRegistered { agent: "x".into() }.to_string(),
        "Agent not registered: x"
    );
    assert_eq!(
        WorkflowError::RuleNotRegistered { rule: "r".into() }.to_string(),
        "Rule not registered: r"
    );
    assert_eq!(WorkflowError::ExecutionFailed("e".into()).to_string(), "Execution failed: e");
    assert_eq!(WorkflowError::Timeout(1500).to_string(), "Workflow timeout after 1500ms");
    assert_eq!(
        WorkflowError::MaxStepsExceeded(0).to_string(),
        "Maximum workflow steps exceeded (limit: 0)"
    );
}
