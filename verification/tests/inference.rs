use llm_review_sdk::inference::providers::{
    anthropic_completion, anthropic_messages, anthropic_text, chat_messages, endpoint,
    health_result, is_success, next_step, ollama_completion, openai_completion, require_api_key,
    status_error, transport_error, usage_of, ContentBlock, RetryStep, MAX_RETRIES,
    REQUEST_TIMEOUT_MS,
};
use llm_review_sdk::inference::{
    default_base_url, default_max_tokens, LlmError, Message, Provider, TokenUsage,
};

fn msg(role: &str, content: &str) -> Message {
    Message { role: role.to_string(), content: content.to_string() }
}

fn block(kind: &str, text: Option<&str>) -> ContentBlock {
    ContentBlock { content_type: kind.to_string(), text: text.map(|t| t.to_string()) }
}

#[test]
fn provider_defaults() {
    assert_eq!(Provider::default(), Provider::Ollama);
    assert_eq!(default_base_url(), "http://localhost:11434");
    assert_eq!(default_max_tokens(), 4096);
}

#[test]
fn retry_transient_errors_with_backoff() {
    let mut attempt = 0u32;
    let mut delays = Vec::new();
    loop {
        match next_step(attempt, LlmError::RateLimited("slow down".into())) {
            RetryStep::Retry { attempt: a, delay_secs } => {
                assert_eq!(a, attempt + 1);
                delays.push(delay_secs);
                attempt = a;
            }
            RetryStep::Stop(e) => {
                assert!(matches!(e, LlmError::RateLimited(_)));
                break;
            }
        }
    }
    assert_eq!(attempt, MAX_RETRIES);
    assert_eq!(delays, vec![2, 4, 8]);
    assert!(matches!(
        next_step(0, LlmError::ConnectionFailed("refused".into())),
        RetryStep::Retry { attempt: 1, delay_secs: 2 }
    ));
}

#[test]
fn retry_stops_on_other_errors() {
    match next_step(0, LlmError::AuthenticationFailed("no".into())) {
        RetryStep::Stop(LlmError::AuthenticationFailed(m)) => assert_eq!(m, "no"),
        _ => panic!("expected Stop"),
    }
    assert!(matches!(next_step(1, LlmError::Timeout(5)), RetryStep::Stop(LlmError::Timeout(5))));
}

#[test]
fn transport_errors() {
    assert!(matches!(transport_error(true, "t".into()), LlmError::Timeout(REQUEST_TIMEOUT_MS)));
    match transport_error(false, "refused".into()) {
        LlmError::ConnectionFailed(m) => assert_eq!(m, "refused"),
        _ => panic!("expected ConnectionFailed"),
    }
}

#[test]
fn status_errors() {
    assert!(is_success(200));
    assert!(is_success(299));
    assert!(!is_success(300));
    assert!(!is_success(199));
    assert!(matches!(status_error(401, "401 Unauthorized", "bad key".into(), "m"),
        LlmError::AuthenticationFailed(ref t) if t == "bad key"));
    assert!(matches!(status_error(404, "404 Not Found", "".into(), "gpt-4"),
        LlmError::ModelNotFound(ref m) if m == "gpt-4"));
    assert!(matches!(status_error(429, "429 Too Many Requests", "wait".into(), "m"),
        LlmError::RateLimited(ref t) if t == "wait"));
    match status_error(500, "500 Internal Server Error", "oops".into(), "m") {
        LlmError::ApiError(t) => assert_eq!(t, "HTTP 500 Internal Server Error: oops"),
        _ => panic!("expected ApiError"),
    }
}

#[test]
fn api_keys() {
    assert_eq!(require_api_key(Provider::OpenAI, &Some("k".into())).unwrap(), "k");
    match require_api_key(Provider::Anthropic, &None) {
        Err(LlmError::AuthenticationFailed(m)) => assert_eq!(m, "Anthropic API key required"),
        _ => panic!("expected AuthenticationFailed"),
    }
    match require_api_key(Provider::OpenAI, &None) {
        Err(LlmError::AuthenticationFailed(m)) => assert_eq!(m, "OpenAI API key required"),
        _ => panic!("expected AuthenticationFailed"),
    }
}

#[test]
fn endpoints() {
    assert_eq!(endpoint("https://api.anthropic.com/v1", "/messages"), "https://api.anthropic.com/v1/messages");
    assert_eq!(endpoint("http://localhost:11434", "/api/chat"), "http://localhost:11434/api/chat");
}

#[test]
fn anthropic_drops_system_messages() {
    let messages = vec![msg("system", "be nice"), msg("user", "hi"), msg("assistant", "hello"), msg("system", "x")];
    let kept = anthropic_messages(&messages);
    assert_eq!(kept.len(), 2);
    assert_eq!(kept[0].role, "user");
    assert_eq!(kept[0].content, "hi");
    assert_eq!(kept[1].role, "assistant");
    let all = chat_messages(&messages);
    assert_eq!(all.len(), 4);
    assert_eq!(all[3].content, "x");
}

#[test]
fn anthropic_text_joins_text_blocks() {
    let blocks = vec![
        block("text", Some("first")),
        block("tool_use", Some("ignored")),
        block("text", None),
        block("text", Some("second")),
    ];
    assert_eq!(anthropic_text(&blocks), "first\nsecond");
    assert_eq!(anthropic_text(&vec![]), "");
    let r = anthropic_completion(&blocks, Some((10, 5)));
    assert_eq!(r.content, "first\nsecond");
    assert_eq!(r.usage, Some(TokenUsage { prompt_tokens: 10, completion_tokens: 5, total_tokens: 15 }));
    assert!(anthropic_completion(&blocks, None).usage.is_none());
}

#[test]
fn openai_and_ollama_completions() {
    let usage = TokenUsage { prompt_tokens: 1, completion_tokens: 2, total_tokens: 99 };
    let r = openai_completion(Some("answer".into()), Some(usage)).unwrap();
    assert_eq!(r.content, "answer");
    assert_eq!(r.usage, Some(usage));
    match openai_completion(None, None) {
        Err(LlmError::ParseError(m)) => assert_eq!(m, "No choices in response"),
        _ => panic!("expected ParseError"),
    }
    let r = ollama_completion("out".into(), Some(7), None);
    assert_eq!(r.usage, Some(TokenUsage { prompt_tokens: 7, completion_tokens: 0, total_tokens: 7 }));
    let r = ollama_completion("out".into(), Some(7), Some(3));
    assert_eq!(r.usage.unwrap().total_tokens, 10);
    assert!(ollama_completion("out".into(), None, Some(3)).usage.is_none());
    assert_eq!(usage_of(4, 6).total_tokens, 10);
}

#[test]
fn health_checks() {
    assert!(health_result(Provider::Anthropic, 200, "200 OK").is_ok());
    assert!(health_result(Provider::Anthropic, 400, "400 Bad Request").is_ok());
    match health_result(Provider::Anthropic, 401, "401 Unauthorized") {
        Err(LlmError::AuthenticationFailed(m)) => assert_eq!(m, "Invalid API key"),
        _ => panic!("expected AuthenticationFailed"),
    }
    match health_result(Provider::Ollama, 400, "400 Bad Request") {
        Err(LlmError::ConnectionFailed(m)) => {
            assert_eq!(m, "Health check failed with status 400 Bad Request")
        }
        _ => panic!("expected ConnectionFailed"),
    }
    assert!(health_result(Provider::OpenAI, 204, "204 No Content").is_ok());
}

#[test]
fn llm_error_messages() {
    assert_eq!(LlmError::Timeout(120000).to_string(), "Request timed out after 120000ms");
    assert_eq!(LlmError::ConnectionFailed("x".into()).to_string(), "Connection failed: x");
    assert_eq!(LlmError::ParseError("x".into()).to_string(), "Failed to parse response: x");
    assert_eq!(LlmError::ModelNotFound("m".into()).to_string(), "Model not found: m");
}
