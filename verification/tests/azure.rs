use std::time::Duration;

use christina::api_key::ApiKey;
use christina::retry::RetryAfter;
use christina::azure::{
    azure_request_params, azure_response_content, classify_azure_status, is_reasoning_model,
    parse_retry_after_header, requires_completion_tokens_param, truncate_for_log, AzureChoice,
    AzureContentError, CompletionError,
};

#[test]
fn is_reasoning_model_gpt5() {
    assert!(is_reasoning_model("gpt-5-nano"));
    assert!(is_reasoning_model("gpt-5"));
    assert!(is_reasoning_model("gpt-5-mini"));
    assert!(is_reasoning_model("GPT-5-Nano"));
}

#[test]
fn is_reasoning_model_o_series() {
    assert!(is_reasoning_model("o1"));
    assert!(is_reasoning_model("o1-mini"));
    assert!(is_reasoning_model("o1-preview"));
    assert!(is_reasoning_model("o3"));
    assert!(is_reasoning_model("o3-mini"));
    assert!(is_reasoning_model("o4-mini"));
}

#[test]
fn is_not_reasoning_model_gpt4() {
    assert!(!is_reasoning_model("gpt-4"));
    assert!(!is_reasoning_model("gpt-4o"));
    assert!(!is_reasoning_model("gpt-4o-mini"));
    assert!(!is_reasoning_model("gpt-4.1"));
    assert!(!is_reasoning_model("gpt-4.1-nano"));
}

#[test]
fn requires_completion_tokens_gpt5() {
    assert!(requires_completion_tokens_param("gpt-5-nano"));
    assert!(requires_completion_tokens_param("gpt-5"));
    assert!(requires_completion_tokens_param("gpt-5-mini"));
    assert!(requires_completion_tokens_param("GPT-5-Nano"));
}

#[test]
fn requires_completion_tokens_o_series() {
    assert!(requires_completion_tokens_param("o1"));
    assert!(requires_completion_tokens_param("o1-mini"));
    assert!(requires_completion_tokens_param("o1-preview"));
    assert!(requires_completion_tokens_param("o3"));
    assert!(requires_completion_tokens_param("o3-mini"));
    assert!(requires_completion_tokens_param("o4-mini"));
}

#[test]
fn does_not_require_completion_tokens_gpt4() {
    assert!(!requires_completion_tokens_param("gpt-4"));
    assert!(!requires_completion_tokens_param("gpt-4o"));
    assert!(!requires_completion_tokens_param("gpt-4o-mini"));
    assert!(!requires_completion_tokens_param("gpt-4.1"));
    assert!(!requires_completion_tokens_param("gpt-4.1-nano"));
}

#[test]
fn test_api_key_debug_redacts() {
    let key = ApiKey::new("sk-secret123".to_string());
    let debug_str = key.debug_string();
    assert!(debug_str.contains("REDACTED"));
    assert!(!debug_str.contains("secret"));
}

#[test]
fn test_api_key_as_str() {
    let key = ApiKey::new("sk-test".to_string());
    assert_eq!(key.as_str(), "sk-test");
}

#[test]
fn o_without_digit_is_not_reasoning() {
    assert!(!is_reasoning_model("omni"));
    assert!(!is_reasoning_model("o"));
    assert!(!requires_completion_tokens_param("o2-mini"));
}

#[test]
fn retry_after_header_parsing() {
    assert_eq!(parse_retry_after_header(" 12 "), Some(Duration::from_secs(12)));
    assert_eq!(parse_retry_after_header("+3"), Some(Duration::from_secs(3)));
    assert_eq!(parse_retry_after_header("soon"), None);
    assert_eq!(parse_retry_after_header(""), None);
    assert_eq!(parse_retry_after_header("18446744073709551616"), None);
}

#[test]
fn log_truncation() {
    assert_eq!(truncate_for_log("short", 10), "short");
    assert_eq!(truncate_for_log("abcdef", 3), "abc…<truncated, 6 total>");
    assert_eq!(truncate_for_log("héllo", 2), "h…<truncated, 6 total>");
}

#[test]
fn request_params_by_model() {
    let p = azure_request_params("gpt-5-mini", 512, None);
    assert_eq!(p.max_tokens, None);
    assert_eq!(p.max_completion_tokens, Some(512));
    assert!(!p.send_temperature);
    assert_eq!(p.reasoning_effort.as_deref(), Some("low"));
    let q = azure_request_params("gpt-4o", 512, Some("high"));
    assert_eq!(q.max_tokens, Some(512));
    assert!(q.send_temperature);
    assert!(q.reasoning_effort.is_none());
}

#[test]
fn status_classification() {
    assert!(matches!(classify_azure_status(401, "401 Unauthorized", None, "x"), CompletionError::Unauthorized(_)));
    assert!(matches!(
        classify_azure_status(429, "429 Too Many Requests", Some(Duration::from_secs(2)), "x"),
        CompletionError::RateLimited { retry_after: Some(_) }
    ));
    assert!(matches!(classify_azure_status(503, "503 Service Unavailable", None, "x"), CompletionError::ServerError(_)));
    assert!(matches!(classify_azure_status(400, "400 Bad Request", None, "x"), CompletionError::InvalidResponse(_)));
    assert!(classify_azure_status(503, "503 Service Unavailable", None, "x").is_transient());
    assert!(!classify_azure_status(401, "401 Unauthorized", None, "x").is_transient());
}

#[test]
fn response_content_rules() {
    assert!(matches!(azure_response_content(vec![]), Err(AzureContentError::NoChoices)));
    let none = AzureChoice { content: None, finish_reason: None };
    assert!(matches!(azure_response_content(vec![none]), Err(AzureContentError::NoText)));
    let empty = AzureChoice { content: Some(String::new()), finish_reason: Some("length".into()) };
    assert!(matches!(azure_response_content(vec![empty]), Err(AzureContentError::EmptyContent)));
    let ok = AzureChoice { content: Some("feat: x".into()), finish_reason: None };
    assert_eq!(azure_response_content(vec![ok]).ok(), Some("feat: x".to_string()));
}

#[test]
fn completion_error_retry_after() {
    let limited = CompletionError::RateLimited { retry_after: Some(Duration::from_secs(7)) };
    assert_eq!(limited.retry_after(), Some(Duration::from_secs(7)));
    assert_eq!(CompletionError::RateLimited { retry_after: None }.retry_after(), None);
    assert_eq!(CompletionError::ServerError("boom".to_string()).retry_after(), None);
}

#[test]
fn azure_status_message_text() {
    match classify_azure_status(503, "503 Service Unavailable", None, "busy") {
        CompletionError::ServerError(m) => assert_eq!(m, "Azure OpenAI returned 503 Service Unavailable: busy"),
        _ => panic!("expected a server error"),
    }
}
