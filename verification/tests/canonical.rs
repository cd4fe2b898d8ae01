//! The canonical model's helpers, capability matrix and errors.

use relay_core::canonical::{
    ContentBlock, FinishReason, LossPolicy, MessageContent, Protocol, ProtocolCapabilities, TextContent, ToolResultBlock,
    ToolResultContent,
};
use relay_core::error::ProtocolEngineError;

#[test]
fn test_capabilities_default_all_false() {
    let caps = ProtocolCapabilities::default();
    assert!(!caps.streaming);
    assert!(!caps.tools);
    assert!(!caps.tool_streaming);
    assert!(!caps.multimodal_input);
    assert!(!caps.structured_output);
    assert!(!caps.reasoning);
    assert!(!caps.usage_streaming);
    assert!(!caps.deferred_tools);
}

#[test]
fn test_translation_losses_all_branches() {
    let mut source = ProtocolCapabilities::default();
    let target = ProtocolCapabilities::default();

    source.tool_streaming = true;
    source.structured_output = true;
    source.reasoning = true;
    source.deferred_tools = true;

    let losses = target.translation_losses(&source);
    assert_eq!(losses.len(), 4);
    assert!(losses.iter().any(|l| l.feature == "tool_call_streaming"));
    assert!(losses.iter().any(|l| l.feature == "structured_output"));
    assert!(losses.iter().any(|l| l.feature == "reasoning"));
    assert!(losses.iter().any(|l| l.feature == "deferred_tools"));
}

#[test]
fn test_error_status_codes() {
    let cases = vec![
        (
            ProtocolEngineError::UnsupportedProtocol {
                protocol: "test".into(),
            },
            400,
        ),
        (
            ProtocolEngineError::InvalidPayload {
                message: "bad".into(),
            },
            400,
        ),
        (
            ProtocolEngineError::UnsupportedFeature {
                feature: "x".into(),
                reason: "y".into(),
            },
            501,
        ),
        (
            ProtocolEngineError::InvalidStreamEvent {
                message: "bad".into(),
            },
            502,
        ),
        (
            ProtocolEngineError::TranslationFailure {
                message: "fail".into(),
            },
            502,
        ),
        (
            ProtocolEngineError::LossyTranslation {
                feature: "x".into(),
                reason: "y".into(),
                policy: LossPolicy::Reject,
            },
            400,
        ),
        (
            ProtocolEngineError::LossyTranslation {
                feature: "x".into(),
                reason: "y".into(),
                policy: LossPolicy::Warn,
            },
            200,
        ),
        (
            ProtocolEngineError::ProviderError {
                message: "upstream".into(),
                status: None,
            },
            502,
        ),
        (ProtocolEngineError::Internal("bug".into()), 500),
    ];

    for (error, expected_status) in cases {
        let status = error.status_code();
        assert_eq!(status.as_u16(), expected_status, "for error: {}", error.to_string());
    }
}

#[test]
fn test_error_categories() {
    let cases = vec![
        (
            ProtocolEngineError::UnsupportedProtocol {
                protocol: "test".into(),
            },
            "unsupported_protocol",
        ),
        (
            ProtocolEngineError::InvalidPayload {
                message: "bad".into(),
            },
            "invalid_payload",
        ),
        (
            ProtocolEngineError::UnsupportedFeature {
                feature: "x".into(),
                reason: "y".into(),
            },
            "unsupported_feature",
        ),
        (
            ProtocolEngineError::InvalidStreamEvent {
                message: "bad".into(),
            },
            "invalid_stream_event",
        ),
        (
            ProtocolEngineError::TranslationFailure {
                message: "fail".into(),
            },
            "translation_failure",
        ),
        (
            ProtocolEngineError::ProviderError {
                message: "upstream".into(),
                status: None,
            },
            "provider_error",
        ),
        (ProtocolEngineError::Internal("bug".into()), "internal"),
    ];

    for (error, expected_category) in cases {
        assert_eq!(error.category(), expected_category, "for error: {}", error.to_string());
    }
}

#[test]
fn test_error_json_body() {
    let error = ProtocolEngineError::InvalidPayload {
        message: "bad input".into(),
    };
    let body = error.to_json_body();
    let parsed: serde_json::Value = match serde_json::from_str(&body) {
        Ok(v) => v,
        Err(e) => panic!("expected success: {e:?}"),
    };
    assert_eq!(parsed["error"]["type"], "invalid_payload");
    let message = match parsed["error"]["message"].as_str() {
        Some(s) => s,
        None => panic!("expected message string"),
    };
    assert!(message.contains("bad input"));
    assert_eq!(parsed["error"]["status"], 400);
}

#[test]
fn test_protocol_display() {
    assert_eq!(
        Protocol::OpenAiChatCompletions.to_string(),
        "openai_chat_completions"
    );
    assert_eq!(
        Protocol::AnthropicMessages.to_string(),
        "anthropic_messages"
    );
    assert_eq!(Protocol::OpenAiResponses.to_string(), "openai_responses");
}

#[test]
fn test_finish_reason_display() {
    assert_eq!(FinishReason::Stop.to_string(), "stop");
    assert_eq!(FinishReason::Length.to_string(), "length");
    assert_eq!(FinishReason::ToolCalls.to_string(), "tool_calls");
    assert_eq!(FinishReason::Other("custom".into()).to_string(), "custom");
}

#[test]
fn test_message_content_helpers() {
    let text = MessageContent::text("hello");
    assert!(!text.is_empty());
    assert_eq!(text.clone().into_blocks().len(), 1);

    let blocks = MessageContent::Blocks(vec![]);
    assert!(blocks.is_empty());
}


#[test]
fn content_block_clone_copies_nested_results() {
    let block = ContentBlock::ToolResult(ToolResultBlock {
        tool_use_id: "call_1".into(),
        name: Some("search".into()),
        content: ToolResultContent::Blocks(vec![ContentBlock::Text(TextContent { text: "found".into() })]),
        is_error: Some(false),
    });
    match block.clone() {
        ContentBlock::ToolResult(r) => {
            assert_eq!(r.tool_use_id, "call_1");
            assert_eq!(r.name.as_deref(), Some("search"));
            assert_eq!(r.is_error, Some(false));
            match r.content {
                ToolResultContent::Blocks(bs) => {
                    assert_eq!(bs.len(), 1);
                    assert_eq!(bs[0].as_text(), Some("found"));
                }
                _ => panic!("expected blocks"),
            }
        }
        _ => panic!("expected a tool result"),
    }
}
