//! The mock upstream's SSE events and configuration.

use relay_core::mock::{
    MockConfig, MockMode, SseConfig, SseEvent, SseReply, build_sse_events, json_reply, messages_body, raw_sse_events,
    sse_config_for, sse_reply,
};

#[test]
fn test_sse_event_wire_format() {
    let event = SseEvent {
        data: "hello".into(),
        final_newline: true,
    };
    assert_eq!(event.to_wire(), b"data: hello\n\n");
}

#[test]
fn test_build_sse_events_preserves_shape() {
    let config = SseConfig {
        chunks: 5,
        chunk_size: 32,
        ..Default::default()
    };
    let events = build_sse_events(&config);
    assert_eq!(events.len(), 5);
    // Each event renders to wire format.
    for event in &events {
        assert!(!event.to_wire().is_empty());
        assert!(event.data.contains("chunk-"));
    }
}

#[test]
fn sse_event_without_final_newline() {
    let event = SseEvent {
        data: "x".into(),
        final_newline: false,
    };
    assert_eq!(event.to_wire(), b"data: x\n");
}

#[test]
fn build_sse_events_exact_payload() {
    let config = SseConfig {
        chunks: 2,
        chunk_size: 30,
        ..Default::default()
    };
    let events = build_sse_events(&config);
    assert_eq!(
        events[1].data,
        "{\"id\":\"chunk-1\",\"chunk_bytes\":30,\"payload\":\"mock-stream-data-filler-mock-s\"}"
    );
    assert!(events[0].final_newline);
}

#[test]
fn mock_config_defaults() {
    let c = MockConfig::default();
    assert_eq!(c.mode, MockMode::Sse);
    assert_eq!(c.chunks, 10);
    assert_eq!(c.chunk_size, 512);
    assert_eq!(c.json_body, "{\"ok\":true,\"result\":\"hello\"}");
    assert!(c.raw_sse.is_none());
    let s = SseConfig::default();
    assert_eq!(s.error_status, 500);
    assert!(s.error_at.is_none());
    assert!(s.chunk_delay.is_zero());
}

#[test]
fn test_sse_response_builds() {
    match sse_reply(&SseConfig::default()) {
        SseReply::Stream { events, delay } => {
            assert_eq!(events.len(), 10);
            assert!(delay.is_zero());
        }
        other => panic!("expected a stream, got {:?}", other),
    }
}

#[test]
fn test_sse_response_error_status() {
    let config = SseConfig {
        error_at: Some(0),
        error_status: 503,
        ..Default::default()
    };
    match sse_reply(&config) {
        SseReply::Failure { status, message } => {
            assert_eq!(status, 503);
            assert_eq!(message, "mock error response");
        }
        other => panic!("expected a failure, got {:?}", other),
    }
}

#[test]
fn sse_reply_stops_at_error_point() {
    let config = SseConfig { chunks: 5, chunk_size: 4, error_at: Some(2), ..Default::default() };
    match sse_reply(&config) {
        SseReply::Stream { events, .. } => {
            assert_eq!(events.len(), 2);
            assert_eq!(events[1].data, "{\"id\":\"chunk-1\",\"chunk_bytes\":4,\"payload\":\"mock\"}");
        }
        other => panic!("expected a stream, got {:?}", other),
    }
    let invalid = SseConfig { error_at: Some(0), error_status: 42, ..Default::default() };
    assert!(matches!(sse_reply(&invalid), SseReply::Failure { status: 500, .. }));
}

#[test]
fn json_reply_bodies_by_status() {
    let mut c = MockConfig::default();
    assert_eq!(json_reply(&c), (200, "{\"ok\":true,\"result\":\"hello\"}".to_string()));
    c.json_status = Some(429);
    assert_eq!(
        json_reply(&c),
        (429, "{\"error\":{\"message\":\"rate limit exceeded\",\"type\":\"rate_limit_error\"}}".to_string())
    );
    c.json_status = Some(503);
    assert_eq!(
        json_reply(&c),
        (503, "{\"error\":{\"message\":\"upstream error\",\"type\":\"upstream_error\",\"status\":503}}".to_string())
    );
    c.json_status = Some(1000);
    assert_eq!(json_reply(&c).0, 200);
    c.json_status = Some(201);
    assert_eq!(json_reply(&c), (201, "{\"ok\":true,\"result\":\"hello\"}".to_string()));
}

#[test]
fn messages_body_defaults_to_fixed_response() {
    let mut c = MockConfig::default();
    assert_eq!(messages_body(&c), c.json_body);
    c.json_body = String::new();
    let body = messages_body(&c);
    assert!(body.starts_with("{\"content\":[{\"text\":\"Hello from Anthropic mock!\""));
    assert!(body.contains("\"stop_reason\":\"end_turn\""));
    let parsed: serde_json::Value = serde_json::from_str(&body).unwrap();
    assert_eq!(parsed["usage"]["output_tokens"], serde_json::Value::from(5));
}

#[test]
fn sse_config_reads_error_headers() {
    let c = MockConfig::default();
    let s = sse_config_for(&c, Some("3"), Some("+502"));
    assert_eq!(s.error_at, Some(3));
    assert_eq!(s.error_status, 502);
    assert_eq!(s.chunks, 10);
    let s = sse_config_for(&c, Some("x"), Some("70000"));
    assert_eq!(s.error_at, None);
    assert_eq!(s.error_status, 500);
    let s = sse_config_for(&c, None, None);
    assert_eq!(s.error_at, None);
    assert_eq!(s.error_status, 500);
}

#[test]
fn raw_sse_lines_become_events() {
    let events = raw_sse_events(&vec!["{\"a\":1}".to_string(), "[DONE]".to_string()]);
    assert_eq!(events.len(), 2);
    assert_eq!(events[1].to_wire(), b"data: [DONE]\n\n");
}

#[test]
fn mock_modes_by_name() {
    assert_eq!(relay_core::mock::mock_mode_named("json"), Ok(MockMode::Json));
    assert_eq!(relay_core::mock::mock_mode_named("sse"), Ok(MockMode::Sse));
    assert_eq!(
        relay_core::mock::mock_mode_named("xml"),
        Err("unknown mode 'xml' (expected 'sse' or 'json')".to_string())
    );
}
