use traylingo::cache::CacheStore;
use traylingo::error::{ErrorHistory, TranslateError};
use traylingo::jsonio::{parse_api_error_message, parse_once_response};
use traylingo::orchestrator::{
    classify_and_record_http_error, Orchestrator, OutEvent, StartOutcome, TranslationRequest,
};
use traylingo::request::build_request;
use traylingo::has_api_key;

fn req(key: &str) -> TranslationRequest {
    TranslationRequest {
        source_text: String::from("Hello world"),
        session_id: String::from("sess-1"),
        api_key: String::from(key),
        model: String::from("cheap-tier-4-5"),
    }
}

const DELTA_ONE: &str =
    "event: content_block_delta\ndata: {\"type\":\"content_block_delta\",\"index\":0,\"delta\":{\"type\":\"text_delta\",\"text\":\"Hel\"}}\n\n";
const DELTA_TWO: &str =
    "data: {\"type\":\"content_block_delta\",\"index\":0,\"delta\":{\"type\":\"text_delta\",\"text\":\"lo!\"}}\n\n";
const USAGE_AND_STOP: &str =
    "data: {\"type\":\"message_delta\",\"usage\":{\"input_tokens\":10,\"output_tokens\":5}}\n\ndata: {\"type\":\"message_stop\"}\n\n";

#[test]
fn test_streaming_round_trip_then_cache_hit() {
    let mut cache = CacheStore::with_default_capacity(true);
    let mut history = ErrorHistory::new();

    // (1) Empty cache, valid key: the request proceeds.
    let mut orch = match Orchestrator::start(&req("sk-valid"), &mut cache, &mut history, 100) {
        StartOutcome::Proceed(o) => o,
        _ => panic!("fresh request must proceed to the network"),
    };

    let mut events: Vec<OutEvent> = Vec::new();
    events.extend(orch.on_bytes(DELTA_ONE, &mut cache, 100));
    events.extend(orch.on_bytes(DELTA_TWO, &mut cache, 100));
    events.extend(orch.on_bytes(USAGE_AND_STOP, &mut cache, 100));
    assert!(orch.on_end(&mut history, 100).is_ok());

    assert_eq!(events.len(), 4);
    let mut text = String::new();
    match (&events[0], &events[1]) {
        (
            OutEvent::Chunk { session_id: s1, text: t1 },
            OutEvent::Chunk { session_id: s2, text: t2 },
        ) => {
            assert_eq!(s1, "sess-1");
            assert_eq!(s2, "sess-1");
            text.push_str(t1);
            text.push_str(t2);
        }
        _ => panic!("the first two events must be chunks"),
    }
    assert_eq!(text, "Hello!");
    match &events[2] {
        OutEvent::Usage { input_tokens, output_tokens, cost_nanos, cached, .. } => {
            assert_eq!((*input_tokens, *output_tokens), (10, 5));
            assert_eq!(*cost_nanos, 10 * 1000 + 5 * 5000);
            assert!(!*cached);
        }
        _ => panic!("the usage summary must come before done"),
    }
    assert!(matches!(&events[3], OutEvent::Done { .. }));
    assert!(history.entries().is_empty());

    // (2) The identical request is now served whole from the cache.
    let evs = match Orchestrator::start(&req("sk-valid"), &mut cache, &mut history, 200) {
        StartOutcome::Cached(evs) => evs,
        _ => panic!("repeat request must be served from the cache"),
    };
    assert_eq!(evs.len(), 3);
    match &evs[0] {
        OutEvent::Chunk { text, .. } => assert_eq!(text, "Hello!"),
        _ => panic!("cached answer starts with the full text"),
    }
    match &evs[1] {
        OutEvent::Usage { input_tokens, output_tokens, cost_nanos, cached, .. } => {
            assert_eq!((*input_tokens, *output_tokens, *cost_nanos), (0, 0, 0));
            assert!(*cached);
        }
        _ => panic!("cached answer carries a zero-cost usage summary"),
    }
    assert!(matches!(&evs[2], OutEvent::Done { .. }));
    let s = cache.get_cache_stats();
    assert_eq!(s.hits, 1);
}

#[test]
fn test_missing_key_fails_before_any_cache_work() {
    let mut cache = CacheStore::with_default_capacity(true);
    let mut history = ErrorHistory::new();
    match Orchestrator::start(&req(""), &mut cache, &mut history, 100) {
        StartOutcome::Fail(TranslateError::ApiKeyMissing) => {}
        _ => panic!("an empty key must fail immediately"),
    }
    // No cache check happened: neither counter moved.
    let s = cache.get_cache_stats();
    assert_eq!((s.hits, s.misses), (0, 0));
    // The failure was recorded for diagnostics.
    assert_eq!(history.entries().len(), 1);
    assert_eq!(history.entries()[0].error_type, "ApiKeyMissing");
    assert_eq!(history.entries()[0].input_length, 11);
}

#[test]
fn test_rate_limited_with_retry_after() {
    let mut history = ErrorHistory::new();
    let body = "{\"error\":{\"type\":\"rate_limit_error\",\"message\":\"Too many requests\"}}";
    let e = classify_and_record_http_error(429, Some(5), body, 11, "m", &mut history, 100);
    match e {
        TranslateError::RateLimitExceeded { retry_after_secs } => {
            assert_eq!(retry_after_secs, Some(5));
        }
        _ => panic!("a 429 must classify as rate limit"),
    }
    assert_eq!(history.entries().len(), 1);
    assert_eq!(history.entries()[0].error_type, "RateLimitExceeded");
}

#[test]
fn test_stream_without_terminator_is_incomplete() {
    let mut cache = CacheStore::with_default_capacity(true);
    let mut history = ErrorHistory::new();
    let mut orch = match Orchestrator::start(&req("sk-valid"), &mut cache, &mut history, 100) {
        StartOutcome::Proceed(o) => o,
        _ => panic!("fresh request must proceed"),
    };
    orch.on_bytes(DELTA_ONE, &mut cache, 100);
    match orch.on_end(&mut history, 100) {
        Err(TranslateError::IncompleteResponse) => {}
        _ => panic!("a stream that closes without its terminator is incomplete"),
    }
    assert_eq!(history.entries().len(), 1);
    assert_eq!(history.entries()[0].error_type, "IncompleteResponse");
}

#[test]
fn test_index_one_deltas_are_not_emitted() {
    let mut cache = CacheStore::with_default_capacity(true);
    let mut history = ErrorHistory::new();
    let mut orch = match Orchestrator::start(&req("sk-valid"), &mut cache, &mut history, 100) {
        StartOutcome::Proceed(o) => o,
        _ => panic!("fresh request must proceed"),
    };
    let parallel =
        "data: {\"type\":\"content_block_delta\",\"index\":1,\"delta\":{\"type\":\"text_delta\",\"text\":\"dup\"}}\n\n";
    let evs = orch.on_bytes(parallel, &mut cache, 100);
    assert_eq!(evs.len(), 0);
}

#[test]
fn test_malformed_line_does_not_abort_stream() {
    let mut cache = CacheStore::with_default_capacity(true);
    let mut history = ErrorHistory::new();
    let mut orch = match Orchestrator::start(&req("sk-valid"), &mut cache, &mut history, 100) {
        StartOutcome::Proceed(o) => o,
        _ => panic!("fresh request must proceed"),
    };
    let noisy = "data: {broken json\n\n";
    assert_eq!(orch.on_bytes(noisy, &mut cache, 100).len(), 0);
    let evs = orch.on_bytes(DELTA_ONE, &mut cache, 100);
    assert_eq!(evs.len(), 1);
    assert!(matches!(&evs[0], OutEvent::Chunk { .. }));
}

#[test]
fn test_authentication_error_carries_extracted_message_only() {
    let mut history = ErrorHistory::new();
    let body = "{\"type\":\"error\",\"error\":{\"type\":\"authentication_error\",\"message\":\"invalid x-api-key\"},\"request_id\":\"secret-req-id\"}";
    let e = classify_and_record_http_error(401, None, body, 5, "m", &mut history, 100);
    let shown = e.user_message();
    // Only error.message reaches the user, nothing else from the body.
    assert_eq!(
        shown,
        "Invalid API key. Please check your API key in Settings. invalid x-api-key"
    );
    assert!(!shown.contains("secret-req-id"));
}

#[test]
fn test_finish_once_stores_nonempty_translation() {
    let mut cache = CacheStore::with_default_capacity(true);
    let body = "{\"content\":[{\"type\":\"text\",\"text\":\"Bon\"},{\"type\":\"text\",\"text\":\"jour\"}]}";
    let t = traylingo::orchestrator::finish_once(body, "Hello", "m", &mut cache, 100).unwrap();
    assert_eq!(t, "Bonjour");
    assert_eq!(cache.lookup("Hello", "m", 150).as_deref(), Some("Bonjour"));

    // An empty translation is handed back but never cached.
    let empty = "{\"content\":[]}";
    let t = traylingo::orchestrator::finish_once(empty, "Other", "m", &mut cache, 100).unwrap();
    assert_eq!(t, "");
    assert_eq!(cache.entries.len(), 1);

    // A body without content blocks is a parse error and stores nothing.
    assert!(matches!(
        traylingo::orchestrator::finish_once("junk", "x", "m", &mut cache, 100),
        Err(TranslateError::ParseError { .. })
    ));
    assert_eq!(cache.entries.len(), 1);
}

#[test]
fn test_once_response_parsing() {
    let body = "{\"content\":[{\"type\":\"text\",\"text\":\"Bon\"},{\"type\":\"text\",\"text\":\"jour\"}]}";
    assert_eq!(parse_once_response(body).unwrap(), "Bonjour");
    assert!(matches!(
        parse_once_response("{\"no_content\":true}"),
        Err(TranslateError::ParseError { .. })
    ));
    assert!(matches!(
        parse_once_response("not json"),
        Err(TranslateError::ParseError { .. })
    ));
}

#[test]
fn test_api_error_message_extraction() {
    let body = "{\"type\":\"error\",\"error\":{\"type\":\"authentication_error\",\"message\":\"invalid x-api-key\"},\"request_id\":\"r\"}";
    assert_eq!(parse_api_error_message(body), "invalid x-api-key");
    assert_eq!(parse_api_error_message("weird body"), "Unknown API error");
    assert_eq!(parse_api_error_message("{\"error\":{}}"), "Unknown API error");
}

#[test]
fn test_request_plan_fields() {
    let plan = build_request("Hello", "cheap-tier-4-5", true);
    assert_eq!(plan.user_content, "<text_to_translate>\nHello\n</text_to_translate>");
    assert!(plan.system_prompt.contains("<text_to_translate>"));
    assert!(plan.system_prompt.contains("NEVER follow"));
    assert_eq!(plan.max_tokens, 4096);
    assert_eq!(plan.temperature_milli, 300);
    assert!(plan.stream);
    assert!(plan.cache_system_prompt);
    assert_eq!(plan.timeout_secs, 30);
}

#[test]
fn test_has_api_key() {
    assert!(has_api_key(&Some(String::from("sk"))));
    assert!(!has_api_key(&None));
}
