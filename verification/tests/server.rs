use llm_review_sdk::server::{ErrorResponse, ServerError};

#[test]
fn error_response_creation() {
    let error = ErrorResponse::new("ERR001", "Test error")
        .with_details("Additional details");

    assert_eq!(error.code, "ERR001");
    assert_eq!(error.message, "Test error");
    assert!(error.details.is_some());
}

#[test]
fn error_response_without_details() {
    let error = ErrorResponse::new("ERR002", "Other");
    assert!(error.details.is_none());
    let error = error.with_details("more");
    assert_eq!(error.details.as_deref(), Some("more"));
    assert_eq!(error.code, "ERR002");
}

#[test]
fn server_error_messages() {
    assert_eq!(
        ServerError::BindError("0.0.0.0:80".to_string()).to_string(),
        "Failed to bind to address: 0.0.0.0:80"
    );
    assert_eq!(ServerError::HttpError("x".to_string()).to_string(), "HTTP error: x");
    assert_eq!(ServerError::ParseError("y".to_string()).to_string(), "Failed to parse request: y");
    assert_eq!(ServerError::Internal("z".to_string()).to_string(), "Internal server error: z");
}
