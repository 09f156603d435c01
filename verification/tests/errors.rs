use llm_review_sdk::integration::IntegrationError;
use llm_review_sdk::rules::RuleError;
use llm_review_sdk::workflow::WorkflowError;
use llm_review_sdk::Error;

#[test]
fn crate_error_wraps_and_describes() {
    let e: Error = RuleError::NotFound("r".into()).into();
    assert!(matches!(e, Error::Rule(RuleError::NotFound(_))));
    assert_eq!(e.to_string(), "Rule error: Rule not found: r");
    let e = Error::from(WorkflowError::Timeout(7));
    assert_eq!(e.to_string(), "Workflow error: Workflow timeout after 7ms");
}

#[test]
fn integration_error_messages() {
    assert_eq!(
        IntegrationError::PlagiarismCheckFailed("x".into()).to_string(),
        "Plagiarism check failed: x"
    );
    assert_eq!(IntegrationError::InvalidInput("y".into()).to_string(), "Invalid input: y");
}
