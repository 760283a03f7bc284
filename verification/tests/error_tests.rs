use traylingo::error::{
    classify_http_status, classify_transport_error, ErrorHistory, ErrorHistoryEntry,
    TranslateError,
};

#[test]
fn test_user_message_api_key_missing() {
    let err = TranslateError::ApiKeyMissing;
    assert!(err.user_message().contains("API key not configured"));
}

#[test]
fn test_user_message_exact_texts() {
    assert_eq!(
        TranslateError::ApiKeyMissing.user_message(),
        "API key not configured. Please add your API key in Settings."
    );
    assert_eq!(
        TranslateError::RateLimitExceeded { retry_after_secs: Some(5) }.user_message(),
        "Rate limit exceeded. Please wait 5 seconds."
    );
    assert_eq!(
        TranslateError::RateLimitExceeded { retry_after_secs: None }.user_message(),
        "Rate limit exceeded. Please wait a moment and try again."
    );
    assert_eq!(
        TranslateError::Timeout { timeout_secs: 30 }.user_message(),
        "Request timed out after 30 seconds. Please try again."
    );
    assert_eq!(
        TranslateError::ApiError { status: 503, message: String::from("overloaded_error") }
            .user_message(),
        "API error (503): overloaded_error"
    );
    assert_eq!(
        TranslateError::Unknown { message: String::from("boom") }.user_message(),
        "An error occurred: boom"
    );
    assert_eq!(
        TranslateError::NetworkError { message: String::from("x") }.user_message(),
        "Network error. Please check your internet connection."
    );
}

#[test]
fn test_user_message_authentication_carries_server_words() {
    // The server's extracted error.message rides along after the fixed text.
    assert_eq!(
        TranslateError::AuthenticationFailed { message: String::from("bad key") }.user_message(),
        "Invalid API key. Please check your API key in Settings. bad key"
    );
    // Without server words the fixed text stands alone.
    assert_eq!(
        TranslateError::AuthenticationFailed { message: String::new() }.user_message(),
        "Invalid API key. Please check your API key in Settings."
    );
}

#[test]
fn test_user_message_formats_large_numbers() {
    assert_eq!(
        TranslateError::RateLimitExceeded { retry_after_secs: Some(1234567890) }.user_message(),
        "Rate limit exceeded. Please wait 1234567890 seconds."
    );
    assert_eq!(
        TranslateError::RateLimitExceeded { retry_after_secs: Some(0) }.user_message(),
        "Rate limit exceeded. Please wait 0 seconds."
    );
}

#[test]
fn test_kind_names() {
    assert_eq!(TranslateError::ApiKeyMissing.kind_name(), "ApiKeyMissing");
    assert_eq!(
        TranslateError::RateLimitExceeded { retry_after_secs: None }.kind_name(),
        "RateLimitExceeded"
    );
    assert_eq!(TranslateError::IncompleteResponse.kind_name(), "IncompleteResponse");
}

#[test]
fn test_classify_http_status_variants() {
    assert!(classify_http_status(200, None, String::from("m")).is_none());
    assert!(classify_http_status(299, None, String::from("m")).is_none());
    assert!(matches!(
        classify_http_status(401, None, String::from("bad key")),
        Some(TranslateError::AuthenticationFailed { .. })
    ));
    assert!(matches!(
        classify_http_status(429, Some(5), String::from("slow down")),
        Some(TranslateError::RateLimitExceeded { retry_after_secs: Some(5) })
    ));
    assert!(matches!(
        classify_http_status(529, None, String::from("busy")),
        Some(TranslateError::Overloaded)
    ));
    assert!(matches!(
        classify_http_status(500, None, String::from("oops")),
        Some(TranslateError::ApiError { status: 500, .. })
    ));
}

#[test]
fn test_classify_transport_error() {
    assert!(matches!(
        classify_transport_error(true, false, String::from("slow")),
        TranslateError::Timeout { timeout_secs: 30 }
    ));
    assert!(matches!(
        classify_transport_error(false, true, String::from("refused")),
        TranslateError::NetworkError { .. }
    ));
    assert!(matches!(
        classify_transport_error(false, false, String::from("odd")),
        TranslateError::Unknown { .. }
    ));
}

fn entry(n: i64) -> ErrorHistoryEntry {
    ErrorHistoryEntry {
        timestamp: n,
        error_type: String::from("Timeout"),
        error_message: String::from("m"),
        input_length: 1,
        model: String::from("m"),
    }
}

#[test]
fn test_error_history_caps_at_fifty() {
    let mut h = ErrorHistory::new();
    for n in 0..55 {
        h.record(entry(n));
    }
    assert_eq!(h.entries().len(), 50);
    // The five oldest entries were dropped.
    assert_eq!(h.entries()[0].timestamp, 5);
    assert_eq!(h.entries()[49].timestamp, 54);
    h.clear();
    assert_eq!(h.entries().len(), 0);
}
