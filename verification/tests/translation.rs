//! Protocol translation through the canonical model: each adapter's
//! decoding and encoding, and translations between protocols.
//!
//! Wire values are written as JSON text and read into the library's wire
//! types by the small readers at the top of this file.

use relay_core::adapters::anthropic_messages::{
    self, AnthropicToolChoice, AnthropicToolDefinition, MessagesContent, MessagesContentBlock,
    MessagesImageSource, MessagesMessage, MessagesRequest, MessagesResponse, MessagesResponseBlock,
    MessagesStreamEvent, MessagesUsage, MessagesDelta,
};
use relay_core::adapters::openai_chat::{
    self, ChatChoice, ChatCompletionRequest, ChatCompletionResponse, ChatFunctionCall,
    ChatFunctionCallResponse, ChatFunctionDefinition, ChatMessage, ChatResponseMessage,
    ChatToolCall, ChatToolCallResponse, ChatToolChoice, ChatToolChoiceFunction,
    ChatToolChoiceObject, ChatToolDefinition, ChatUsage,
};
use relay_core::adapters::openai_responses::{
    self, ReasoningSummary, ResponsesContentPart, ResponsesItem, ResponsesRequest,
    ResponsesResponse, ResponsesStreamEvent, ResponsesTool, ResponsesToolChoice, ResponsesUsage,
};
use relay_core::canonical::{
    AudioContent, AudioSource, CanonicalRequest, CanonicalResponse, CanonicalStreamEvent,
    ContentBlock, FinishReason, ImageContent, ImageSource, Message, MessageContent, Protocol,
    ProtocolCapabilities, ProviderExtensions, ReasoningContent, Role, StreamMessageInfo,
    SystemInstruction, TextContent, ToolChoice, ToolDefinition, ToolReference, ToolResultBlock,
    ToolResultContent, ToolUseBlock, Usage,
};
use relay_core::json::JsonValue;
use serde_json::Value;

// ─── Readers of JSON text ────────────────────────────────────────────────────

fn conv(v: Value) -> JsonValue {
    match v {
        Value::Null => JsonValue::Null,
        Value::Bool(b) => JsonValue::Bool(b),
        Value::Number(n) => JsonValue::Number(n.to_string()),
        Value::String(s) => JsonValue::String(s),
        Value::Array(a) => JsonValue::Array(a.into_iter().map(conv).collect()),
        Value::Object(m) => JsonValue::Object(m.into_iter().map(|(k, v)| (k, conv(v))).collect()),
    }
}

fn jv(text: &str) -> JsonValue {
    conv(serde_json::from_str(text).unwrap())
}

fn to_value(j: &JsonValue) -> Value {
    serde_json::from_str(&j.to_json_string()).unwrap()
}

fn s(v: &Value, k: &str) -> Option<String> {
    v.get(k).and_then(|x| x.as_str()).map(|x| x.to_owned())
}

fn opt_j(v: &Value, k: &str) -> Option<JsonValue> {
    v.get(k).map(|x| conv(x.clone()))
}

fn num_text(v: &Value, k: &str) -> Option<String> {
    v.get(k).and_then(|x| if x.is_number() { Some(x.to_string()) } else { None })
}

fn strings(v: &Value, k: &str) -> Option<Vec<String>> {
    v.get(k).and_then(|x| x.as_array()).map(|a| a.iter().map(|x| x.as_str().unwrap().to_owned()).collect())
}

fn extra(v: &Value, named: &[&str]) -> Vec<(String, JsonValue)> {
    let mut out: Vec<(String, JsonValue)> = v
        .as_object()
        .unwrap()
        .iter()
        .filter(|(k, _)| !named.contains(&k.as_str()))
        .map(|(k, x)| (k.clone(), conv(x.clone())))
        .collect();
    out.sort_by(|a, b| a.0.cmp(&b.0));
    out
}

fn chat_request(text: &str) -> ChatCompletionRequest {
    let v: Value = serde_json::from_str(text).unwrap();
    let messages = v["messages"]
        .as_array()
        .unwrap()
        .iter()
        .map(|m| ChatMessage {
            role: s(m, "role").unwrap(),
            content: opt_j(m, "content"),
            name: s(m, "name"),
            tool_calls: m.get("tool_calls").and_then(|x| x.as_array()).map(|a| {
                a.iter()
                    .map(|c| ChatToolCall {
                        id: s(c, "id").unwrap(),
                        call_type: s(c, "type").unwrap(),
                        function: ChatFunctionCall {
                            name: s(&c["function"], "name").unwrap(),
                            arguments: s(&c["function"], "arguments").unwrap(),
                        },
                    })
                    .collect()
            }),
            tool_call_id: s(m, "tool_call_id"),
        })
        .collect();
    let tools = v.get("tools").and_then(|x| x.as_array()).map(|a| {
        a.iter()
            .map(|t| ChatToolDefinition {
                tool_type: s(t, "type").unwrap(),
                function: ChatFunctionDefinition {
                    name: s(&t["function"], "name").unwrap(),
                    description: s(&t["function"], "description"),
                    parameters: opt_j(&t["function"], "parameters"),
                    strict: t["function"].get("strict").and_then(|x| x.as_bool()),
                },
            })
            .collect()
    });
    let tool_choice = v.get("tool_choice").map(|tc| match tc {
        Value::String(x) => ChatToolChoice::String(x.clone()),
        other => ChatToolChoice::Object(ChatToolChoiceObject {
            choice_type: s(other, "type").unwrap(),
            function: ChatToolChoiceFunction { name: s(&other["function"], "name").unwrap() },
        }),
    });
    ChatCompletionRequest {
        model: s(&v, "model").unwrap(),
        messages,
        temperature: num_text(&v, "temperature"),
        top_p: num_text(&v, "top_p"),
        max_tokens: v.get("max_tokens").and_then(|x| x.as_u64()).map(|x| x as u32),
        stream: v.get("stream").and_then(|x| x.as_bool()).unwrap_or(false),
        stop: strings(&v, "stop"),
        tools,
        tool_choice,
        response_format: v.get("response_format").map(|rf| relay_core::adapters::openai_chat::ChatResponseFormat {
            format_type: s(rf, "type").unwrap(),
            json_schema: opt_j(rf, "json_schema"),
        }),
        metadata: opt_j(&v, "metadata"),
        extra: extra(
            &v,
            &["model", "messages", "temperature", "top_p", "max_tokens", "stream", "stop", "tools", "tool_choice", "response_format", "metadata"],
        ),
    }
}

fn anthropic_block(b: &Value) -> MessagesContentBlock {
    match s(b, "type").unwrap().as_str() {
        "text" => MessagesContentBlock::Text { text: s(b, "text").unwrap() },
        "image" => MessagesContentBlock::Image {
            source: MessagesImageSource {
                source_type: s(&b["source"], "type").unwrap(),
                media_type: s(&b["source"], "media_type"),
                data: s(&b["source"], "data"),
                url: s(&b["source"], "url"),
            },
        },
        "thinking" => MessagesContentBlock::Thinking { thinking: s(b, "thinking").unwrap(), signature: s(b, "signature") },
        "tool_use" => MessagesContentBlock::ToolUse {
            id: s(b, "id").unwrap(),
            name: s(b, "name").unwrap(),
            input: conv(b["input"].clone()),
        },
        "tool_result" => MessagesContentBlock::ToolResult {
            tool_use_id: s(b, "tool_use_id").unwrap(),
            content: opt_j(b, "content"),
            is_error: b.get("is_error").and_then(|x| x.as_bool()),
        },
        other => panic!("unknown block type {other}"),
    }
}

fn anthropic_request(text: &str) -> MessagesRequest {
    let v: Value = serde_json::from_str(text).unwrap();
    let messages = v["messages"]
        .as_array()
        .unwrap()
        .iter()
        .map(|m| MessagesMessage {
            role: s(m, "role").unwrap(),
            content: match &m["content"] {
                Value::String(t) => MessagesContent::Text(t.clone()),
                Value::Array(a) => MessagesContent::Blocks(a.iter().map(anthropic_block).collect()),
                other => panic!("bad content {other}"),
            },
        })
        .collect();
    let tools = v.get("tools").and_then(|x| x.as_array()).map(|a| {
        a.iter()
            .map(|t| AnthropicToolDefinition {
                name: s(t, "name").unwrap(),
                description: s(t, "description"),
                input_schema: conv(t["input_schema"].clone()),
            })
            .collect()
    });
    let tool_choice = v.get("tool_choice").map(|tc| match s(tc, "type").unwrap().as_str() {
        "auto" => AnthropicToolChoice::Auto,
        "any" => AnthropicToolChoice::Any,
        _ => AnthropicToolChoice::Tool { name: s(tc, "name").unwrap() },
    });
    MessagesRequest {
        model: s(&v, "model").unwrap(),
        max_tokens: v["max_tokens"].as_u64().unwrap() as u32,
        system: opt_j(&v, "system"),
        messages,
        temperature: num_text(&v, "temperature"),
        top_p: num_text(&v, "top_p"),
        stop_sequences: strings(&v, "stop_sequences"),
        tools,
        tool_choice,
        stream: v.get("stream").and_then(|x| x.as_bool()).unwrap_or(false),
        metadata: opt_j(&v, "metadata"),
        extra: extra(
            &v,
            &["model", "max_tokens", "system", "messages", "temperature", "top_p", "stop_sequences", "tools", "tool_choice", "stream", "metadata"],
        ),
    }
}

fn anthropic_usage(u: &Value) -> MessagesUsage {
    MessagesUsage {
        input_tokens: u["input_tokens"].as_u64().unwrap() as u32,
        output_tokens: u["output_tokens"].as_u64().unwrap() as u32,
        cache_creation_input_tokens: u.get("cache_creation_input_tokens").and_then(|x| x.as_u64()).map(|x| x as u32),
        cache_read_input_tokens: u.get("cache_read_input_tokens").and_then(|x| x.as_u64()).map(|x| x as u32),
    }
}

fn anthropic_response(text: &str) -> MessagesResponse {
    let v: Value = serde_json::from_str(text).unwrap();
    MessagesResponse {
        id: s(&v, "id").unwrap(),
        model: s(&v, "model").unwrap(),
        role: s(&v, "role").unwrap(),
        content: v["content"]
            .as_array()
            .unwrap()
            .iter()
            .map(|b| match s(b, "type").unwrap().as_str() {
                "text" => MessagesResponseBlock::Text { text: s(b, "text").unwrap() },
                "thinking" => MessagesResponseBlock::Thinking { thinking: s(b, "thinking").unwrap(), signature: s(b, "signature") },
                _ => MessagesResponseBlock::ToolUse {
                    id: s(b, "id").unwrap(),
                    name: s(b, "name").unwrap(),
                    input: conv(b["input"].clone()),
                },
            })
            .collect(),
        stop_reason: s(&v, "stop_reason"),
        stop_sequence: s(&v, "stop_sequence"),
        usage: anthropic_usage(&v["usage"]),
    }
}

fn responses_request(text: &str) -> ResponsesRequest {
    let v: Value = serde_json::from_str(text).unwrap();
    let tools = v.get("tools").and_then(|x| x.as_array()).map(|a| {
        a.iter()
            .map(|t| ResponsesTool {
                tool_type: s(t, "type").unwrap(),
                name: s(t, "name"),
                description: s(t, "description"),
                parameters: opt_j(t, "parameters"),
                strict: t.get("strict").and_then(|x| x.as_bool()),
                extra: extra(t, &["type", "name", "description", "parameters", "strict"]),
            })
            .collect()
    });
    let tool_choice = v.get("tool_choice").map(|tc| match tc {
        Value::String(x) => ResponsesToolChoice::String(x.clone()),
        other => ResponsesToolChoice::Object(conv(other.clone())),
    });
    ResponsesRequest {
        model: s(&v, "model").unwrap(),
        instructions: opt_j(&v, "instructions"),
        input: opt_j(&v, "input"),
        temperature: num_text(&v, "temperature"),
        top_p: num_text(&v, "top_p"),
        max_output_tokens: v.get("max_output_tokens").and_then(|x| x.as_u64()).map(|x| x as u32),
        stream: v.get("stream").and_then(|x| x.as_bool()).unwrap_or(false),
        stop: strings(&v, "stop"),
        tools,
        tool_choice,
        response_format: opt_j(&v, "response_format"),
        metadata: opt_j(&v, "metadata"),
        extra: extra(
            &v,
            &["model", "instructions", "input", "temperature", "top_p", "max_output_tokens", "stream", "stop", "tools", "tool_choice", "response_format", "metadata"],
        ),
    }
}

fn text_response(id: &str, text: &str, finish: Option<FinishReason>, usage: Option<Usage>) -> CanonicalResponse {
    CanonicalResponse {
        id: id.into(),
        model: "gpt-4".into(),
        content: vec![ContentBlock::Text(TextContent { text: text.into() })],
        finish_reason: finish,
        usage,
        extensions: ProviderExtensions::default(),
    }
}

fn usage(input: u32, output: u32, total: u32) -> Usage {
    Usage {
        input_tokens: Some(input),
        output_tokens: Some(output),
        total_tokens: Some(total),
        ..Default::default()
    }
}

// ─── Capability matrix ──────────────────────────────────────────────────────

#[test]
fn test_capabilities() {
    let caps = anthropic_messages::capabilities();
    assert!(caps.streaming);
    assert!(caps.tools);
    assert!(caps.tool_streaming);
    assert!(caps.multimodal_input);
    assert!(!caps.structured_output);
}

#[test]
fn test_capabilities_declared() {
    let caps = openai_responses::capabilities();
    assert!(caps.streaming);
    assert!(caps.tools);
    assert!(caps.reasoning);
    assert!(caps.multimodal_input);
}

#[test]
fn test_capabilities_are_declared() {
    let openai_caps = openai_chat::capabilities();
    let anthropic_caps = anthropic_messages::capabilities();

    assert!(openai_caps.streaming);
    assert!(openai_caps.tools);
    assert!(openai_caps.structured_output);

    assert!(anthropic_caps.streaming);
    assert!(anthropic_caps.tools);
    assert!(!anthropic_caps.structured_output);
}

#[test]
fn test_translation_loss_detection() {
    let openai_caps = openai_chat::capabilities();
    let anthropic_caps = anthropic_messages::capabilities();

    let losses = anthropic_caps.translation_losses(&openai_caps);
    assert!(losses.iter().any(|l| l.feature == "structured_output"));
}

#[test]
fn test_responses_capabilities_match_expected() {
    let caps = openai_responses::capabilities();
    assert!(caps.streaming);
    assert!(caps.tools);
    assert!(caps.tool_streaming);
    assert!(caps.multimodal_input);
    assert!(caps.structured_output);
    assert!(caps.reasoning);
    assert!(caps.usage_streaming);
    assert!(!caps.deferred_tools);
}

#[test]
fn test_responses_translation_loss_vs_anthropic() {
    let responses_caps = openai_responses::capabilities();
    let anthropic_caps = anthropic_messages::capabilities();

    // Responses has structured_output but Anthropic doesn't.
    let losses = anthropic_caps.translation_losses(&responses_caps);
    assert!(losses.iter().any(|l| l.feature == "structured_output"));
}

#[test]
fn test_enforce_no_loss_when_source_matches_target() {
    let openai_caps = openai_chat::capabilities();
    let _ = openai_caps.enforce_translation_losses(&openai_caps);
}

#[test]
fn test_enforce_rejects_drop_policy_loss() {
    // Anthropic doesn't have structured_output; translating OpenAI → Anthropic
    // results in a Drop loss, which enforce_translation_losses should reject.
    let anthropic_caps = anthropic_messages::capabilities();
    let openai_caps = openai_chat::capabilities();
    let result = anthropic_caps.enforce_translation_losses(&openai_caps);
    assert!(result.is_err());
    let err = result.unwrap_err();
    let json = err.to_json_body();
    assert!(json.contains("structured_output"));
    assert!(json.contains("lossy_translation"));
}

#[test]
fn test_enforce_allows_approximate_loss() {
    let mut source_caps = openai_chat::capabilities();
    let mut target_caps = openai_chat::capabilities();
    source_caps.tool_streaming = true;
    target_caps.tool_streaming = false;
    let _ = target_caps.enforce_translation_losses(&source_caps);
}

#[test]
fn test_enforce_rejects_implicit_audio_loss() {
    let mut source_caps = openai_chat::capabilities();
    source_caps.multimodal_input = true;
    let mut target_caps = openai_chat::capabilities();
    target_caps.multimodal_input = false;
    let _ = target_caps.enforce_translation_losses(&source_caps);
}

#[test]
fn protocols_are_identified() {
    assert_eq!(anthropic_messages::protocol(), Protocol::AnthropicMessages);
    assert_eq!(openai_chat::protocol(), Protocol::OpenAiChatCompletions);
    assert_eq!(openai_responses::protocol(), Protocol::OpenAiResponses);
    assert_eq!(ProtocolCapabilities::default(), ProtocolCapabilities {
        streaming: false,
        tools: false,
        tool_streaming: false,
        multimodal_input: false,
        structured_output: false,
        reasoning: false,
        usage_streaming: false,
        deferred_tools: false,
    });
}

// ─── Anthropic adapter ──────────────────────────────────────────────────────

#[test]
fn mod_test_decode_simple_request() {
    let req = anthropic_request(
        r#"{
            "model": "sonnet-3-opus",
            "max_tokens": 1024,
            "system": "You are helpful.",
            "messages": [
                {"role": "user", "content": "Hello!"}
            ]
        }"#,
    );
    let canonical = match anthropic_messages::decode_request(req) {
        Ok(v) => v,
        Err(e) => panic!("expected success: {e:?}"),
    };

    assert_eq!(canonical.model, "sonnet-3-opus");
    assert!(canonical.system.is_some());
    assert_eq!(canonical.messages.len(), 1);
    assert_eq!(canonical.messages[0].role, Role::User);
}

#[test]
fn test_decode_tool_use_in_assistant() {
    let req = anthropic_request(
        r#"{
            "model": "sonnet-3-opus",
            "max_tokens": 1024,
            "messages": [
                {"role": "user", "content": "What's the weather?"},
                {"role": "assistant", "content": [
                    {"type": "tool_use", "id": "toolu_abc", "name": "get_weather", "input": {"city": "NYC"}}
                ]},
                {"role": "user", "content": [
                    {"type": "tool_result", "tool_use_id": "toolu_abc", "content": "72°F"}
                ]}
            ]
        }"#,
    );
    let canonical = match anthropic_messages::decode_request(req) {
        Ok(v) => v,
        Err(e) => panic!("expected success: {e:?}"),
    };

    assert_eq!(canonical.messages.len(), 3);

    let asst_blocks = canonical.messages[1].content.clone().into_blocks();
    assert_eq!(asst_blocks.len(), 1);
    assert!(matches!(&asst_blocks[0], ContentBlock::ToolUse(tu) if tu.id == "toolu_abc"));

    let user_blocks = canonical.messages[2].content.clone().into_blocks();
    assert_eq!(user_blocks.len(), 1);
    assert!(
        matches!(&user_blocks[0], ContentBlock::ToolResult(tr) if tr.tool_use_id == "toolu_abc")
    );
}

#[test]
fn test_encode_request_round_trip() {
    let canonical = CanonicalRequest {
        model: "sonnet-3-opus".into(),
        messages: vec![Message {
            role: Role::User,
            content: MessageContent::text("Hello!"),
        }],
        system: Some(SystemInstruction::Text("Be helpful.".into())),
        temperature: Some("0.7".into()),
        top_p: None,
        max_tokens: Some(1024),
        stop: vec![],
        tools: vec![ToolDefinition {
            name: "search".into(),
            description: Some("Search the web".into()),
            input_schema: Some(jv(r#"{
                "type": "object",
                "properties": {"query": {"type": "string"}}
            }"#)),
            deferred: None,
            extra: Default::default(),
        }],
        tool_choice: Some(ToolChoice::Auto),
        stream: false,
        response_format: None,
        metadata: None,
        extensions: ProviderExtensions::default(),
    };

    let anthropic_req = match anthropic_messages::encode_request(&canonical) {
        Ok(v) => v,
        Err(e) => panic!("expected success: {e:?}"),
    };
    assert_eq!(anthropic_req.model, "sonnet-3-opus");
    assert_eq!(anthropic_req.max_tokens, 1024);
    assert!(anthropic_req.system.is_some());
    assert_eq!(anthropic_req.messages.len(), 1);
    let tools = match anthropic_req.tools {
        Some(t) => t,
        None => panic!("expected tools"),
    };
    assert_eq!(tools.len(), 1);
    assert_eq!(tools[0].name, "search");
}

#[test]
fn test_encode_response_round_trip() {
    let resp = CanonicalResponse {
        id: "msg_123".into(),
        model: "sonnet-3-opus".into(),
        content: vec![ContentBlock::Text(TextContent {
            text: "Hello there!".into(),
        })],
        finish_reason: Some(FinishReason::Stop),
        usage: Some(Usage {
            input_tokens: Some(10),
            output_tokens: Some(5),
            total_tokens: Some(15),
            ..Default::default()
        }),
        extensions: ProviderExtensions::default(),
    };

    let anthropic_resp = match anthropic_messages::encode_response(&resp) {
        Ok(v) => v,
        Err(e) => panic!("expected success: {e:?}"),
    };
    assert_eq!(anthropic_resp.id, "msg_123");
    assert_eq!(anthropic_resp.content.len(), 1);
    assert_eq!(anthropic_resp.stop_reason.as_deref(), Some("end_turn"));
    assert_eq!(anthropic_resp.usage.input_tokens, 10);
}

// ─── OpenAI Chat adapter ────────────────────────────────────────────────────

#[test]
fn chat_mod_test_decode_simple_request() {
    let req = chat_request(
        r#"{
            "model": "gpt-4",
            "messages": [
                {"role": "system", "content": "You are helpful."},
                {"role": "user", "content": "Hello!"}
            ]
        }"#,
    );
    let canonical = match openai_chat::decode_request(req) {
        Ok(v) => v,
        Err(e) => panic!("expected success: {e:?}"),
    };

    assert_eq!(canonical.model, "gpt-4");
    assert!(canonical.system.is_some());
    assert_eq!(canonical.messages.len(), 1);
    assert_eq!(canonical.messages[0].role, Role::User);
}

#[test]
fn test_decode_multimodal_content() {
    let req = chat_request(
        r#"{
            "model": "gpt-4",
            "messages": [{
                "role": "user",
                "content": [
                    {"type": "text", "text": "What is this?"},
                    {"type": "image_url", "image_url": {"url": "https://example.com/img.png", "detail": "high"}}
                ]
            }]
        }"#,
    );
    let canonical = match openai_chat::decode_request(req) {
        Ok(v) => v,
        Err(e) => panic!("expected success: {e:?}"),
    };

    assert_eq!(canonical.messages.len(), 1);
    let blocks = canonical.messages[0].content.clone().into_blocks();
    assert_eq!(blocks.len(), 2);
    assert!(matches!(&blocks[0], ContentBlock::Text(t) if t.text == "What is this?"));
    assert!(
        matches!(&blocks[1], ContentBlock::Image(ImageContent { source: ImageSource::Url { url, detail: Some(d), .. } })
        if url == "https://example.com/img.png" && d == "high")
    );
}

#[test]
fn test_decode_tool_calls_in_assistant_message() {
    let req = chat_request(
        r#"{
            "model": "gpt-4",
            "messages": [{
                "role": "assistant",
                "content": null,
                "tool_calls": [{
                    "id": "call_abc",
                    "type": "function",
                    "function": {"name": "get_weather", "arguments": "{\"city\":\"NYC\"}"}
                }]
            }]
        }"#,
    );
    let canonical = match openai_chat::decode_request(req) {
        Ok(v) => v,
        Err(e) => panic!("expected success: {e:?}"),
    };

    let blocks = canonical.messages[0].content.clone().into_blocks();
    assert_eq!(blocks.len(), 1);
    if let ContentBlock::ToolUse(tu) = &blocks[0] {
        assert_eq!(tu.id, "call_abc");
        assert_eq!(tu.name, "get_weather");
        assert_eq!(to_value(&tu.input)["city"], "NYC");
    } else {
        panic!("expected ToolUse block");
    }
}

#[test]
fn test_decode_tool_result_message() {
    let req = chat_request(
        r#"{
            "model": "gpt-4",
            "messages": [{
                "role": "tool",
                "tool_call_id": "call_abc",
                "name": "get_weather",
                "content": "{\"temp\": 72}"
            }]
        }"#,
    );
    let canonical = match openai_chat::decode_request(req) {
        Ok(v) => v,
        Err(e) => panic!("expected success: {e:?}"),
    };

    let blocks = canonical.messages[0].content.clone().into_blocks();
    assert_eq!(blocks.len(), 1);
    if let ContentBlock::ToolResult(tr) = &blocks[0] {
        assert_eq!(tr.tool_use_id, "call_abc");
        assert_eq!(tr.name.as_deref(), Some("get_weather"));
    } else {
        panic!("expected ToolResult block");
    }
}

#[test]
fn test_decode_tool_choice_auto() {
    let req = chat_request(
        r#"{
            "model": "gpt-4",
            "messages": [{"role": "user", "content": "hi"}],
            "tool_choice": "auto"
        }"#,
    );
    let canonical = match openai_chat::decode_request(req) {
        Ok(v) => v,
        Err(e) => panic!("expected success: {e:?}"),
    };
    assert!(matches!(canonical.tool_choice, Some(ToolChoice::Auto)));
}

#[test]
fn mod_test_encode_simple_response() {
    let resp = CanonicalResponse {
        id: "chatcmpl-123".into(),
        model: "gpt-4".into(),
        content: vec![ContentBlock::Text(TextContent {
            text: "Hello there!".into(),
        })],
        finish_reason: Some(FinishReason::Stop),
        usage: Some(Usage {
            input_tokens: Some(10),
            output_tokens: Some(5),
            total_tokens: Some(15),
            ..Default::default()
        }),
        extensions: ProviderExtensions::default(),
    };

    let openai_resp = match openai_chat::encode_response(&resp, 1234567890) {
        Ok(v) => v,
        Err(e) => panic!("expected success: {e:?}"),
    };
    assert_eq!(openai_resp.id, "chatcmpl-123");
    assert_eq!(openai_resp.choices.len(), 1);
    assert_eq!(
        openai_resp.choices[0].message.content.as_deref(),
        Some("Hello there!")
    );
    assert_eq!(
        openai_resp.choices[0].finish_reason.as_deref(),
        Some("stop")
    );
    let usage = match openai_resp.usage.as_ref() {
        Some(u) => u,
        None => panic!("expected usage"),
    };
    assert_eq!(usage.total_tokens, 15);
}

#[test]
fn mod_test_encode_tool_call_response() {
    let resp = CanonicalResponse {
        id: "chatcmpl-456".into(),
        model: "gpt-4".into(),
        content: vec![ContentBlock::ToolUse(ToolUseBlock {
            id: "call_xyz".into(),
            name: "search".into(),
            input: jv(r#"{"query": "rust async"}"#),
        })],
        finish_reason: Some(FinishReason::ToolCalls),
        usage: None,
        extensions: ProviderExtensions::default(),
    };

    let openai_resp = match openai_chat::encode_response(&resp, 1234567890) {
        Ok(v) => v,
        Err(e) => panic!("expected success: {e:?}"),
    };
    assert_eq!(openai_resp.choices.len(), 1);
    let tool_calls = match openai_resp.choices[0].message.tool_calls.as_ref() {
        Some(tc) => tc,
        None => panic!("expected tool_calls"),
    };
    assert_eq!(tool_calls.len(), 1);
    assert_eq!(tool_calls[0].id, "call_xyz");
    assert_eq!(tool_calls[0].function.name, "search");
    assert_eq!(
        openai_resp.choices[0].finish_reason.as_deref(),
        Some("tool_calls")
    );
}

#[test]
fn test_encode_request_tool_result_round_trip() {
    let canonical = CanonicalRequest {
        model: "gpt-4".into(),
        system: Some(SystemInstruction::Text("You are helpful.".into())),
        messages: vec![
            Message {
                role: Role::User,
                content: MessageContent::Text("What's the weather?".into()),
            },
            Message {
                role: Role::Assistant,
                content: MessageContent::Blocks(vec![ContentBlock::ToolUse(ToolUseBlock {
                    id: "call_abc".into(),
                    name: "get_weather".into(),
                    input: jv(r#"{"city": "NYC"}"#),
                })]),
            },
            Message {
                role: Role::Tool,
                content: MessageContent::Blocks(vec![ContentBlock::ToolResult(ToolResultBlock {
                    tool_use_id: "call_abc".into(),
                    name: Some("get_weather".into()),
                    content: ToolResultContent::Text(r#"{"temp":72}"#.into()),
                    is_error: None,
                })]),
            },
        ],
        temperature: None,
        top_p: None,
        max_tokens: None,
        stop: vec![],
        tools: vec![ToolDefinition {
            name: "get_weather".into(),
            description: Some("Get the weather for a city".into()),
            input_schema: Some(jv(r#"{"type": "object"}"#)),
            deferred: None,
            extra: Default::default(),
        }],
        tool_choice: Some(ToolChoice::Auto),
        stream: false,
        response_format: None,
        metadata: None,
        extensions: ProviderExtensions::default(),
    };

    let wire = match openai_chat::encode_request(&canonical) {
        Ok(w) => w,
        Err(e) => panic!("encode should succeed: {e:?}"),
    };
    let messages = &wire.messages;

    // system (1) + user (1) + assistant with tool_calls (1) + tool with tool_call_id (1) = 4
    assert_eq!(messages.len(), 4);

    let assistant = &messages[2];
    assert_eq!(assistant.role, "assistant");
    let tc = match assistant.tool_calls.as_ref() {
        Some(tc) => tc,
        None => panic!("assistant should have tool_calls"),
    };
    assert_eq!(tc.len(), 1);
    assert_eq!(tc[0].id, "call_abc");

    let tool_msg = &messages[3];
    assert_eq!(tool_msg.role, "tool");
    assert_eq!(tool_msg.tool_call_id.as_deref(), Some("call_abc"));
    let content_text = match tool_msg.content.as_ref().and_then(|c| c.as_str()) {
        Some(s) => s,
        None => panic!("tool message content should be a string"),
    };
    assert!(content_text.contains("72"));
}

#[test]
fn test_encode_request_no_malformed_tool_message() {
    let canonical = CanonicalRequest {
        model: "gpt-4".into(),
        system: None,
        messages: vec![Message {
            role: Role::Tool,
            content: MessageContent::Blocks(vec![ContentBlock::ToolResult(ToolResultBlock {
                tool_use_id: "call_777".into(),
                name: None,
                content: ToolResultContent::Text("ok".into()),
                is_error: None,
            })]),
        }],
        tools: vec![],
        tool_choice: None,
        temperature: None,
        top_p: None,
        max_tokens: None,
        stop: vec![],
        stream: false,
        response_format: None,
        metadata: None,
        extensions: ProviderExtensions::default(),
    };

    let wire = match openai_chat::encode_request(&canonical) {
        Ok(w) => w,
        Err(e) => panic!("encode should succeed: {e:?}"),
    };

    assert_eq!(wire.messages.len(), 1);
    assert_eq!(wire.messages[0].role, "tool");
    assert_eq!(wire.messages[0].tool_call_id.as_deref(), Some("call_777"));
}

// ─── OpenAI Responses adapter ───────────────────────────────────────────────

#[test]
fn responses_mod_test_decode_simple_request() {
    let req = responses_request(
        r#"{
            "model": "gpt-4",
            "instructions": "You are helpful.",
            "input": [
                {"role": "user", "content": "Hello!"}
            ]
        }"#,
    );
    let canonical = match openai_responses::decode_request(req) {
        Ok(v) => v,
        Err(e) => panic!("expected success: {e:?}"),
    };

    assert_eq!(canonical.model, "gpt-4");
    assert!(canonical.system.is_some());
    assert_eq!(canonical.messages.len(), 1);
    assert_eq!(canonical.messages[0].role, Role::User);
}

#[test]
fn test_decode_string_input() {
    let req = responses_request(
        r#"{
            "model": "gpt-4",
            "input": "Hello world"
        }"#,
    );
    let canonical = match openai_responses::decode_request(req) {
        Ok(v) => v,
        Err(e) => panic!("expected success: {e:?}"),
    };
    assert_eq!(canonical.messages.len(), 1);
    let blocks = canonical.messages[0].content.clone().into_blocks();
    assert_eq!(blocks.len(), 1);
    assert_eq!(blocks[0].as_text(), Some("Hello world"));
}

#[test]
fn test_decode_tool_use_in_input() {
    let req = responses_request(
        r#"{
            "model": "gpt-4",
            "input": [
                {"role": "user", "content": "What's the weather?"},
                {"role": "assistant", "content": [
                    {"type": "output_text", "text": "Let me check."}
                ]},
                {"type": "function_call_output", "call_id": "fc_123", "output": "NYC: 72F"}
            ],
            "tools": [{
                "type": "function",
                "name": "get_weather",
                "description": "Get weather",
                "parameters": {"type": "object", "properties": {"city": {"type": "string"}}}
            }]
        }"#,
    );
    let canonical = match openai_responses::decode_request(req) {
        Ok(v) => v,
        Err(e) => panic!("expected success: {e:?}"),
    };
    assert_eq!(canonical.tools.len(), 1);
    assert_eq!(canonical.tools[0].name, "get_weather");
    // function_call_output results in Role::Tool message
    assert!(canonical.messages.iter().any(|m| m.role == Role::Tool));
}

#[test]
fn responses_mod_test_encode_simple_response() {
    let resp = CanonicalResponse {
        id: "resp_123".into(),
        model: "gpt-4".into(),
        content: vec![ContentBlock::Text(TextContent {
            text: "Hello there!".into(),
        })],
        finish_reason: Some(FinishReason::Stop),
        usage: Some(Usage {
            input_tokens: Some(10),
            output_tokens: Some(5),
            total_tokens: Some(15),
            ..Default::default()
        }),
        extensions: ProviderExtensions::default(),
    };

    let responses_resp = match openai_responses::encode_response(&resp, 1234567890) {
        Ok(v) => v,
        Err(e) => panic!("expected success: {e:?}"),
    };
    assert_eq!(responses_resp.id, "resp_123");
    assert_eq!(responses_resp.object, "response");
    assert_eq!(responses_resp.output.len(), 1);
    match &responses_resp.output[0] {
        ResponsesItem::Message { role, content, .. } => {
            assert_eq!(role, "assistant");
            assert_eq!(content.as_ref().map(|c| c.len()), Some(1));
        }
        _ => panic!("expected message item"),
    }
    assert_eq!(responses_resp.status.as_deref(), Some("completed"));
}

#[test]
fn responses_mod_test_encode_tool_call_response() {
    let resp = CanonicalResponse {
        id: "resp_456".into(),
        model: "gpt-4".into(),
        content: vec![ContentBlock::ToolUse(ToolUseBlock {
            id: "fc_xyz".into(),
            name: "search".into(),
            input: jv(r#"{"query": "rust async"}"#),
        })],
        finish_reason: Some(FinishReason::ToolCalls),
        usage: None,
        extensions: ProviderExtensions::default(),
    };

    let responses_resp = match openai_responses::encode_response(&resp, 1234567890) {
        Ok(v) => v,
        Err(e) => panic!("expected success: {e:?}"),
    };
    assert_eq!(responses_resp.output.len(), 1);
    match &responses_resp.output[0] {
        ResponsesItem::FunctionCall {
            id,
            name,
            arguments,
            ..
        } => {
            assert_eq!(id, "fc_xyz");
            assert_eq!(name, "search");
            assert!(arguments.contains("rust async"));
        }
        _ => panic!("expected function_call item"),
    }
    assert_eq!(responses_resp.status.as_deref(), Some("incomplete"));
}

#[test]
fn test_encode_stream_event_text_delta() {
    let event = CanonicalStreamEvent::TextDelta {
        index: 0,
        text: "Hello".into(),
    };
    let result = match openai_responses::encode_stream_event(&event, "resp_1", "msg_1", 0, 0) {
        Ok(v) => v,
        Err(e) => panic!("expected success: {e:?}"),
    };
    match result {
        Some(ResponsesStreamEvent::ResponseOutputTextDelta { delta, .. }) => {
            assert_eq!(delta.as_deref(), Some("Hello"));
        }
        _ => panic!("expected output_text.delta event"),
    }
}

#[test]
fn test_encode_stream_event_tool_delta() {
    let event = CanonicalStreamEvent::ToolCallDelta {
        index: 0,
        tool_use_id: None,
        name: None,
        input_json_delta: Some(r#"{"city":"NYC""#.into()),
    };
    let result = match openai_responses::encode_stream_event(&event, "resp_1", "msg_1", 0, 0) {
        Ok(v) => v,
        Err(e) => panic!("expected success: {e:?}"),
    };
    match result {
        Some(ResponsesStreamEvent::ResponseFunctionCallArgumentsDelta { delta, .. }) => {
            assert_eq!(delta.as_deref(), Some(r#"{"city":"NYC""#));
        }
        _ => panic!("expected function_call_arguments.delta event"),
    }
}

#[test]
fn responses_encode_decode_response_keeps_text() {
    let original = CanonicalResponse {
        id: "resp_789".into(),
        model: "gpt-4".into(),
        content: vec![ContentBlock::Text(TextContent {
            text: "Round trip!".into(),
        })],
        finish_reason: Some(FinishReason::Stop),
        usage: None,
        extensions: ProviderExtensions::default(),
    };

    let encoded = match openai_responses::encode_response(&original, 0) {
        Ok(v) => v,
        Err(e) => panic!("expected success: {e:?}"),
    };
    assert_eq!(encoded.id, "resp_789");
    assert_eq!(encoded.output.len(), 1);
    match &encoded.output[0] {
        ResponsesItem::Message { id, .. } => assert_eq!(id, "msg_0"),
        _ => panic!("expected message item"),
    }
    let decoded = openai_responses::decode_response(encoded).unwrap();
    assert_eq!(decoded.content.len(), 1);
    assert_eq!(decoded.content[0].as_text(), Some("Round trip!"));
    assert_eq!(decoded.finish_reason, Some(FinishReason::Stop));
}

// ─── Translations between protocols ─────────────────────────────────────────

fn empty_request(model: &str, messages: Vec<Message>) -> CanonicalRequest {
    CanonicalRequest {
        model: model.into(),
        messages,
        system: None,
        temperature: None,
        top_p: None,
        max_tokens: None,
        stop: vec![],
        tools: vec![],
        tool_choice: None,
        stream: false,
        response_format: None,
        metadata: None,
        extensions: ProviderExtensions::default(),
    }
}

#[test]
fn test_openai_to_anthropic_simple_text() {
    let openai_req = chat_request(
        r#"{
        "model": "gpt-4",
        "messages": [
            {"role": "system", "content": "You are a helpful assistant."},
            {"role": "user", "content": "Hello!"}
        ],
        "temperature": 0.7,
        "max_tokens": 1024,
        "stream": false
    }"#,
    );
    let canonical = match openai_chat::decode_request(openai_req) {
        Ok(v) => v,
        Err(e) => panic!("expected success: {e:?}"),
    };

    assert_eq!(canonical.model, "gpt-4");
    assert!(canonical.system.is_some());
    assert_eq!(canonical.messages.len(), 1);
    assert_eq!(canonical.messages[0].role, Role::User);
    assert_eq!(canonical.temperature.as_deref(), Some("0.7"));
    assert_eq!(canonical.max_tokens, Some(1024));

    let anthropic_req = match anthropic_messages::encode_request(&canonical) {
        Ok(v) => v,
        Err(e) => panic!("expected success: {e:?}"),
    };
    assert_eq!(anthropic_req.model, "gpt-4");
    assert_eq!(anthropic_req.max_tokens, 1024);
    assert!(anthropic_req.system.is_some());
    assert_eq!(anthropic_req.temperature.as_deref(), Some("0.7"));
    assert_eq!(anthropic_req.messages.len(), 1);
    assert_eq!(anthropic_req.messages[0].role, "user");
}

#[test]
fn test_openai_to_anthropic_with_tool_calls() {
    let openai_req = chat_request(
        r#"{
        "model": "gpt-4",
        "messages": [
            {"role": "user", "content": "What's the weather?"},
            {"role": "assistant", "content": null, "tool_calls": [
                {
                    "id": "call_abc123",
                    "type": "function",
                    "function": {"name": "get_weather", "arguments": "{\"city\":\"NYC\"}"}
                }
            ]},
            {"role": "tool", "tool_call_id": "call_abc123", "content": "72°F"}
        ],
        "tools": [{
            "type": "function",
            "function": {
                "name": "get_weather",
                "description": "Get the weather",
                "parameters": {
                    "type": "object",
                    "properties": {"city": {"type": "string"}},
                    "required": ["city"]
                }
            }
        }]
    }"#,
    );
    let canonical = match openai_chat::decode_request(openai_req) {
        Ok(v) => v,
        Err(e) => panic!("expected success: {e:?}"),
    };

    assert_eq!(canonical.messages.len(), 3);
    let asst_blocks = canonical.messages[1].content.clone().into_blocks();
    assert!(matches!(&asst_blocks[0], ContentBlock::ToolUse(tu) if tu.id == "call_abc123"));

    let tool_blocks = canonical.messages[2].content.clone().into_blocks();
    assert!(
        matches!(&tool_blocks[0], ContentBlock::ToolResult(tr) if tr.tool_use_id == "call_abc123")
    );

    let anthropic_req = match anthropic_messages::encode_request(&canonical) {
        Ok(v) => v,
        Err(e) => panic!("expected success: {e:?}"),
    };
    assert_eq!(anthropic_req.messages.len(), 3);

    let asst_msg = &anthropic_req.messages[1];
    let asst_content = match &asst_msg.content {
        MessagesContent::Blocks(blocks) => blocks,
        _ => panic!("expected blocks"),
    };
    assert!(
        matches!(&asst_content[0], MessagesContentBlock::ToolUse { id, name, .. } if id == "call_abc123" && name == "get_weather")
    );

    let tool_msg = &anthropic_req.messages[2];
    let tool_content = match &tool_msg.content {
        MessagesContent::Blocks(blocks) => blocks,
        _ => panic!("expected blocks"),
    };
    assert!(
        matches!(&tool_content[0], MessagesContentBlock::ToolResult { tool_use_id, .. } if tool_use_id == "call_abc123")
    );
}

#[test]
fn test_openai_to_anthropic_multimodal() {
    let openai_req = chat_request(
        r#"{
        "model": "gpt-4",
        "messages": [{
            "role": "user",
            "content": [
                {"type": "text", "text": "What is this?"},
                {"type": "image_url", "image_url": {"url": "https://example.com/photo.jpg", "detail": "high"}}
            ]
        }]
    }"#,
    );
    let canonical = match openai_chat::decode_request(openai_req) {
        Ok(v) => v,
        Err(e) => panic!("expected success: {e:?}"),
    };
    let anthropic_req = match anthropic_messages::encode_request(&canonical) {
        Ok(v) => v,
        Err(e) => panic!("expected success: {e:?}"),
    };
    let blocks = match &anthropic_req.messages[0].content {
        MessagesContent::Blocks(b) => b,
        _ => panic!("expected blocks"),
    };
    assert_eq!(blocks.len(), 2);
    assert!(matches!(&blocks[0], MessagesContentBlock::Text { text } if text == "What is this?"));
    assert!(
        matches!(&blocks[1], MessagesContentBlock::Image { source } if source.source_type == "url")
    );
}

#[test]
fn test_anthropic_to_openai_simple_text() {
    let anthropic_req = anthropic_request(
        r#"{
        "model": "sonnet-3-opus-20240229",
        "max_tokens": 1024,
        "system": "You are helpful.",
        "messages": [
            {"role": "user", "content": "Hello!"}
        ]
    }"#,
    );
    let canonical = match anthropic_messages::decode_request(anthropic_req) {
        Ok(v) => v,
        Err(e) => panic!("expected success: {e:?}"),
    };

    assert_eq!(canonical.model, "sonnet-3-opus-20240229");
    assert!(canonical.system.is_some());
    assert_eq!(canonical.messages.len(), 1);
    assert_eq!(canonical.max_tokens, Some(1024));
}

#[test]
fn test_anthropic_response_to_openai() {
    let anthropic_resp = anthropic_response(
        r#"{
        "id": "msg_01XFDUDYJgAACzvnptvVoYEL",
        "model": "sonnet-3-opus-20240229",
        "role": "assistant",
        "content": [
            {"type": "text", "text": "Hello! How can I help?"}
        ],
        "stop_reason": "end_turn",
        "usage": {
            "input_tokens": 25,
            "output_tokens": 15
        }
    }"#,
    );
    let canonical = match anthropic_messages::decode_response(anthropic_resp) {
        Ok(v) => v,
        Err(e) => panic!("expected success: {e:?}"),
    };

    assert_eq!(canonical.id, "msg_01XFDUDYJgAACzvnptvVoYEL");
    assert_eq!(canonical.content.len(), 1);
    assert!(
        matches!(&canonical.content[0], ContentBlock::Text(t) if t.text == "Hello! How can I help?")
    );
    assert_eq!(canonical.finish_reason, Some(FinishReason::Stop));

    let openai_resp = match openai_chat::encode_response(&canonical, 1234567890) {
        Ok(v) => v,
        Err(e) => panic!("expected success: {e:?}"),
    };
    assert_eq!(openai_resp.id, "msg_01XFDUDYJgAACzvnptvVoYEL");
    assert_eq!(openai_resp.choices.len(), 1);
    assert_eq!(
        openai_resp.choices[0].message.content.as_deref(),
        Some("Hello! How can I help?")
    );
    assert_eq!(
        openai_resp.choices[0].finish_reason.as_deref(),
        Some("stop")
    );
    let usage = match openai_resp.usage {
        Some(u) => u,
        None => panic!("expected usage"),
    };
    assert_eq!(usage.prompt_tokens, 25);
    assert_eq!(usage.completion_tokens, 15);
    assert_eq!(usage.total_tokens, 40);
}

#[test]
fn test_anthropic_tool_use_response_to_openai() {
    let anthropic_resp = anthropic_response(
        r#"{
        "id": "msg_tool123",
        "model": "sonnet-3-opus-20240229",
        "role": "assistant",
        "content": [
            {"type": "tool_use", "id": "toolu_abc", "name": "search", "input": {"query": "rust"}}
        ],
        "stop_reason": "tool_use",
        "usage": {"input_tokens": 10, "output_tokens": 20}
    }"#,
    );
    let canonical = match anthropic_messages::decode_response(anthropic_resp) {
        Ok(v) => v,
        Err(e) => panic!("expected success: {e:?}"),
    };

    assert_eq!(canonical.content.len(), 1);
    assert!(matches!(&canonical.content[0], ContentBlock::ToolUse(tu) if tu.name == "search"));

    let openai_resp = match openai_chat::encode_response(&canonical, 1234567890) {
        Ok(v) => v,
        Err(e) => panic!("expected success: {e:?}"),
    };
    let tool_calls = match openai_resp.choices[0].message.tool_calls.as_ref() {
        Some(tc) => tc,
        None => panic!("expected tool_calls"),
    };
    assert_eq!(tool_calls.len(), 1);
    assert_eq!(tool_calls[0].function.name, "search");
    assert_eq!(
        openai_resp.choices[0].finish_reason.as_deref(),
        Some("tool_calls")
    );
}

#[test]
fn test_round_trip_anthropic_request() {
    let original = anthropic_request(
        r#"{
        "model": "sonnet-3-opus",
        "max_tokens": 1024,
        "system": "Be helpful.",
        "messages": [
            {"role": "user", "content": "Hello!"},
            {"role": "assistant", "content": [
                {"type": "tool_use", "id": "toolu_123", "name": "calc", "input": {"expr": "2+2"}}
            ]},
            {"role": "user", "content": [
                {"type": "tool_result", "tool_use_id": "toolu_123", "content": "4"}
            ]}
        ],
        "tools": [{
            "name": "calc",
            "description": "Evaluate math",
            "input_schema": {"type": "object", "properties": {"expr": {"type": "string"}}}
        }]
    }"#,
    );
    let canonical = match anthropic_messages::decode_request(original) {
        Ok(v) => v,
        Err(e) => panic!("expected success: {e:?}"),
    };
    let re_encoded = match anthropic_messages::encode_request(&canonical) {
        Ok(v) => v,
        Err(e) => panic!("expected success: {e:?}"),
    };

    assert_eq!(re_encoded.model, "sonnet-3-opus");
    assert_eq!(re_encoded.max_tokens, 1024);
    assert_eq!(re_encoded.messages.len(), 3);

    let asst_msg = &re_encoded.messages[1];
    let asst_blocks = match &asst_msg.content {
        MessagesContent::Blocks(b) => b,
        _ => panic!("expected blocks"),
    };
    assert!(
        matches!(&asst_blocks[0], MessagesContentBlock::ToolUse { id, .. } if id == "toolu_123")
    );

    let tool_msg = &re_encoded.messages[2];
    let tool_blocks = match &tool_msg.content {
        MessagesContent::Blocks(b) => b,
        _ => panic!("expected blocks"),
    };
    assert!(
        matches!(&tool_blocks[0], MessagesContentBlock::ToolResult { tool_use_id, .. } if tool_use_id == "toolu_123")
    );
}

#[test]
fn test_streaming_text_delta_to_anthropic() {
    let events = vec![
        CanonicalStreamEvent::MessageStart {
            message: StreamMessageInfo {
                id: "msg_test".into(),
                model: "sonnet-3".into(),
                role: Role::Assistant,
            },
        },
        CanonicalStreamEvent::ContentBlockStart {
            index: 0,
            content_block: ContentBlock::Text(TextContent {
                text: String::new(),
            }),
        },
        CanonicalStreamEvent::TextDelta {
            index: 0,
            text: "Hello".into(),
        },
        CanonicalStreamEvent::TextDelta {
            index: 0,
            text: " world!".into(),
        },
        CanonicalStreamEvent::ContentBlockStop { index: 0 },
        CanonicalStreamEvent::MessageDelta {
            stop_reason: Some(FinishReason::Stop),
            usage: None,
        },
        CanonicalStreamEvent::MessageStop,
    ];

    for event in &events {
        let result = anthropic_messages::encode_stream_event(event, "msg_test", "sonnet-3");
        assert!(result.is_ok(), "failed to encode event: {event:?}");
    }
}

#[test]
fn test_anthropic_encode_rejects_image_output() {
    let resp = CanonicalResponse {
        id: "test".into(),
        model: "test".into(),
        content: vec![ContentBlock::Image(ImageContent {
            source: ImageSource::Url {
                url: "https://example.com/img.png".into(),
                detail: None,
            },
        })],
        finish_reason: None,
        usage: None,
        extensions: ProviderExtensions::default(),
    };
    assert!(anthropic_messages::encode_response(&resp).is_err());
}

#[test]
fn test_openai_encode_rejects_image_output() {
    let resp = CanonicalResponse {
        id: "test".into(),
        model: "test".into(),
        content: vec![ContentBlock::Image(ImageContent {
            source: ImageSource::Url {
                url: "https://example.com/img.png".into(),
                detail: None,
            },
        })],
        finish_reason: None,
        usage: None,
        extensions: ProviderExtensions::default(),
    };
    assert!(openai_chat::encode_response(&resp, 0).is_err());
}

#[test]
fn test_empty_content_message() {
    let req = chat_request(
        r#"{
        "model": "gpt-4",
        "messages": [{"role": "user", "content": null}]
    }"#,
    );
    let canonical = match openai_chat::decode_request(req) {
        Ok(v) => v,
        Err(e) => panic!("expected success: {e:?}"),
    };
    let blocks = canonical.messages[0].content.clone().into_blocks();
    assert!(blocks.is_empty());
}

#[test]
fn test_multiple_system_messages_concatenated() {
    let req = chat_request(
        r#"{
        "model": "gpt-4",
        "messages": [
            {"role": "system", "content": "Rule 1"},
            {"role": "system", "content": "Rule 2"},
            {"role": "user", "content": "Hi"}
        ]
    }"#,
    );
    let canonical = match openai_chat::decode_request(req) {
        Ok(v) => v,
        Err(e) => panic!("expected success: {e:?}"),
    };
    match &canonical.system {
        Some(SystemInstruction::Text(text)) => {
            assert!(text.contains("Rule 1"));
            assert!(text.contains("Rule 2"));
        }
        _ => panic!("expected concatenated text"),
    }
}

#[test]
fn test_anthropic_system_as_array() {
    let req = anthropic_request(
        r#"{
        "model": "sonnet-3",
        "max_tokens": 100,
        "system": [
            {"type": "text", "text": "Rule 1"},
            {"type": "text", "text": "Rule 2"}
        ],
        "messages": [{"role": "user", "content": "Hi"}]
    }"#,
    );
    let canonical = match anthropic_messages::decode_request(req) {
        Ok(v) => v,
        Err(e) => panic!("expected success: {e:?}"),
    };
    match &canonical.system {
        Some(SystemInstruction::Blocks(blocks)) => {
            assert_eq!(blocks.len(), 2);
            assert_eq!(blocks[0].text, "Rule 1");
            assert_eq!(blocks[1].text, "Rule 2");
        }
        _ => panic!("expected blocks"),
    }
}

#[test]
fn test_usage_preserved_through_translation() {
    let resp = CanonicalResponse {
        id: "test".into(),
        model: "model".into(),
        content: vec![],
        finish_reason: Some(FinishReason::Stop),
        usage: Some(Usage {
            input_tokens: Some(100),
            output_tokens: Some(50),
            total_tokens: Some(150),
            cache_creation_input_tokens: Some(10),
            cache_read_input_tokens: Some(20),
        }),
        extensions: ProviderExtensions::default(),
    };

    let openai = match openai_chat::encode_response(&resp, 0) {
        Ok(v) => v,
        Err(e) => panic!("expected success: {e:?}"),
    };
    let u = match openai.usage {
        Some(u) => u,
        None => panic!("expected usage"),
    };
    assert_eq!(u.prompt_tokens, 100);
    assert_eq!(u.completion_tokens, 50);
    assert_eq!(u.total_tokens, 150);

    let anthropic = match anthropic_messages::encode_response(&resp) {
        Ok(v) => v,
        Err(e) => panic!("expected success: {e:?}"),
    };
    assert_eq!(anthropic.usage.input_tokens, 100);
    assert_eq!(anthropic.usage.output_tokens, 50);
    assert_eq!(anthropic.usage.cache_creation_input_tokens, Some(10));
    assert_eq!(anthropic.usage.cache_read_input_tokens, Some(20));
}

#[test]
fn test_openai_decode_input_audio_block() {
    let req = chat_request(
        r#"{
        "model": "gpt-4",
        "messages": [{
            "role": "user",
            "content": [
                {"type": "text", "text": "What's in this audio?"},
                {"type": "input_audio", "input_audio": {"data": "UklGRi...", "format": "wav"}}
            ]
        }]
    }"#,
    );
    let canonical = match openai_chat::decode_request(req) {
        Ok(v) => v,
        Err(e) => panic!("expected success: {e:?}"),
    };

    let blocks = canonical.messages[0].content.clone().into_blocks();
    assert_eq!(blocks.len(), 2);
    assert!(matches!(&blocks[0], ContentBlock::Text(t) if t.text == "What's in this audio?"));
    assert!(
        matches!(&blocks[1], ContentBlock::Audio(AudioContent { source: AudioSource::Base64 { data, format, .. } })
            if data == "UklGRi..." && format.as_deref() == Some("wav"))
    );
}

#[test]
fn test_audio_to_anthropic_encode() {
    let canonical = empty_request(
        "gpt-4",
        vec![Message {
            role: Role::User,
            content: MessageContent::Blocks(vec![ContentBlock::Audio(AudioContent {
                source: AudioSource::Base64 {
                    media_type: "audio/wav".into(),
                    data: "AAAA".into(),
                    format: Some("wav".into()),
                },
            })]),
        }],
    );

    let anthropic_req = match anthropic_messages::encode_request(&canonical) {
        Ok(v) => v,
        Err(e) => panic!("expected success: {e:?}"),
    };
    let blocks = match &anthropic_req.messages[0].content {
        MessagesContent::Blocks(b) => b,
        _ => panic!("expected blocks"),
    };
    assert_eq!(blocks.len(), 1);
    assert!(
        matches!(&blocks[0], MessagesContentBlock::Image { source } if source.source_type == "base64")
    );
}

#[test]
fn test_anthropic_decode_thinking_block() {
    let resp = anthropic_response(
        r#"{
        "id": "msg_123",
        "model": "sonnet-3-opus-20240229",
        "role": "assistant",
        "content": [
            {"type": "thinking", "thinking": "Let me calculate: 2+2 = 4.", "signature": "abc123sig"},
            {"type": "text", "text": "The answer is 4."}
        ],
        "stop_reason": "end_turn",
        "usage": {"input_tokens": 20, "output_tokens": 30}
    }"#,
    );
    let canonical = match anthropic_messages::decode_response(resp) {
        Ok(v) => v,
        Err(e) => panic!("expected success: {e:?}"),
    };

    assert_eq!(canonical.content.len(), 2);
    assert!(matches!(&canonical.content[0], ContentBlock::Reasoning(r)
            if r.thinking == "Let me calculate: 2+2 = 4." && r.signature.as_deref() == Some("abc123sig")));
    assert!(matches!(&canonical.content[1], ContentBlock::Text(t) if t.text == "The answer is 4."));
}

#[test]
fn test_thinking_round_trip_through_anthropic() {
    let original = CanonicalResponse {
        id: "msg_789".into(),
        model: "sonnet-3-opus".into(),
        content: vec![
            ContentBlock::Reasoning(ReasoningContent {
                thinking: "Internal reasoning here.".into(),
                signature: Some("sig_abc".into()),
            }),
            ContentBlock::Text(TextContent {
                text: "Final answer.".into(),
            }),
        ],
        finish_reason: Some(FinishReason::Stop),
        usage: Some(Usage {
            input_tokens: Some(10),
            output_tokens: Some(20),
            total_tokens: Some(30),
            ..Default::default()
        }),
        extensions: ProviderExtensions::default(),
    };

    let anthropic_resp = match anthropic_messages::encode_response(&original) {
        Ok(v) => v,
        Err(e) => panic!("expected success: {e:?}"),
    };
    assert_eq!(anthropic_resp.content.len(), 2);

    let thinking_block = &anthropic_resp.content[0];
    assert!(
        matches!(thinking_block, MessagesResponseBlock::Thinking { thinking, signature }
            if thinking == "Internal reasoning here." && signature.as_deref() == Some("sig_abc"))
    );

    let canonical = match anthropic_messages::decode_response(anthropic_resp) {
        Ok(v) => v,
        Err(e) => panic!("expected success: {e:?}"),
    };
    assert_eq!(canonical.content.len(), 2);
    assert!(matches!(&canonical.content[0], ContentBlock::Reasoning(r)
            if r.thinking == "Internal reasoning here." && r.signature.as_deref() == Some("sig_abc")));
    assert!(matches!(&canonical.content[1], ContentBlock::Text(t) if t.text == "Final answer."));
}

#[test]
fn test_audio_stream_events_to_openai_returns_none() {
    let events = vec![
        CanonicalStreamEvent::AudioDelta {
            index: 0,
            data: "base64chunk".into(),
        },
        CanonicalStreamEvent::ReasoningDelta {
            index: 0,
            thinking: "hidden".into(),
        },
        CanonicalStreamEvent::ReasoningSignature {
            index: 0,
            signature: "sig".into(),
        },
    ];

    for event in &events {
        let result = openai_chat::encode_stream_event(event, "test", "gpt-4", 0);
        let result_event = match result {
            Ok(Some(ev)) => ev,
            Ok(None) => {
                continue;
            }
            Err(e) => panic!("encode_stream_event failed: {e:?}"),
        };
        let _ = result_event;
    }
}

#[test]
fn test_responses_to_anthropic_simple_text() {
    let req = responses_request(
        r#"{
        "model": "gpt-4",
        "instructions": "You are helpful.",
        "input": [
            {"role": "user", "content": "Hello!"}
        ],
        "stream": false
    }"#,
    );
    let canonical = match openai_responses::decode_request(req) {
        Ok(v) => v,
        Err(e) => panic!("expected success: {e:?}"),
    };

    assert_eq!(canonical.model, "gpt-4");
    assert!(canonical.system.is_some());
    assert_eq!(canonical.messages.len(), 1);
    assert_eq!(canonical.messages[0].role, Role::User);

    let anthropic_req = match anthropic_messages::encode_request(&canonical) {
        Ok(v) => v,
        Err(e) => panic!("expected success: {e:?}"),
    };
    assert_eq!(anthropic_req.model, "gpt-4");
    assert!(anthropic_req.system.is_some());
    assert_eq!(anthropic_req.messages.len(), 1);
}

#[test]
fn test_responses_round_trip_encode_decode() {
    let original = CanonicalResponse {
        id: "resp_test".into(),
        model: "gpt-4".into(),
        content: vec![ContentBlock::Text(TextContent {
            text: "Hello from Responses!".into(),
        })],
        finish_reason: Some(FinishReason::Stop),
        usage: Some(Usage {
            input_tokens: Some(10),
            output_tokens: Some(5),
            total_tokens: Some(15),
            ..Default::default()
        }),
        extensions: ProviderExtensions::default(),
    };

    let responses_resp = match openai_responses::encode_response(&original, 0) {
        Ok(v) => v,
        Err(e) => panic!("expected success: {e:?}"),
    };
    let canonical = match openai_responses::decode_response(responses_resp) {
        Ok(v) => v,
        Err(e) => panic!("expected success: {e:?}"),
    };

    assert_eq!(canonical.id, "resp_test");
    assert_eq!(canonical.content.len(), 1);
    assert_eq!(
        canonical.content[0].as_text(),
        Some("Hello from Responses!")
    );
    assert_eq!(canonical.finish_reason, Some(FinishReason::Stop));
    let usage = match canonical.usage {
        Some(u) => u,
        None => panic!("expected usage"),
    };
    assert_eq!(usage.input_tokens, Some(10));
    assert_eq!(usage.output_tokens, Some(5));
    assert_eq!(usage.total_tokens, Some(15));
}

// ─── Tool semantics ─────────────────────────────────────────────────────────

#[test]
fn test_tool_reference_deferred_no_schema_anthropic() {
    let mut canonical = empty_request(
        "sonnet-3",
        vec![Message {
            role: Role::User,
            content: MessageContent::Blocks(vec![ContentBlock::ToolReference(ToolReference {
                id: "ref_1".into(),
                name: "search_web".into(),
                description: Some("Search the web".into()),
                input_schema: None,
                deferred: true,
            })]),
        }],
    );
    canonical.max_tokens = Some(1024);

    let anthropic_req = anthropic_messages::encode_request(&canonical).unwrap();
    let blocks = match &anthropic_req.messages[0].content {
        MessagesContent::Blocks(b) => b,
        _ => panic!("expected blocks"),
    };
    assert_eq!(blocks.len(), 1);

    let text = match &blocks[0] {
        MessagesContentBlock::Text { text } => text,
        _ => panic!("expected Text block for deferred tool reference"),
    };
    let metadata: serde_json::Value = serde_json::from_str(text).unwrap();
    assert_eq!(metadata["type"], "tool_reference");
    assert_eq!(metadata["id"], "ref_1");
    assert_eq!(metadata["name"], "search_web");
    assert_eq!(metadata["deferred"], true);
}

#[test]
fn test_tool_reference_deferred_with_schema_materializes() {
    let mut canonical = empty_request(
        "sonnet-3",
        vec![Message {
            role: Role::User,
            content: MessageContent::Blocks(vec![ContentBlock::ToolReference(ToolReference {
                id: "ref_2".into(),
                name: "get_weather".into(),
                description: Some("Get weather".into()),
                input_schema: Some(jv(r#"{
                    "type": "object",
                    "properties": {"city": {"type": "string"}},
                    "required": ["city"]
                }"#)),
                deferred: true,
            })]),
        }],
    );
    canonical.max_tokens = Some(1024);

    let anthropic_req = anthropic_messages::encode_request(&canonical).unwrap();
    let blocks = match &anthropic_req.messages[0].content {
        MessagesContent::Blocks(b) => b,
        _ => panic!("expected blocks"),
    };
    assert_eq!(blocks.len(), 1);

    let text = match &blocks[0] {
        MessagesContentBlock::Text { text } => text,
        _ => panic!("expected Text block for deferred tool reference with schema"),
    };
    let metadata: serde_json::Value = serde_json::from_str(text).unwrap();
    assert_eq!(metadata["type"], "tool_reference");
    assert_eq!(metadata["name"], "get_weather");
    assert_eq!(metadata["deferred"], true);
}

#[test]
fn test_tool_choice_none_preserves_tools_anthropic() {
    let mut canonical = empty_request(
        "sonnet-3",
        vec![Message {
            role: Role::User,
            content: MessageContent::text("Hello"),
        }],
    );
    canonical.max_tokens = Some(1024);
    canonical.tools = vec![ToolDefinition {
        name: "search".into(),
        description: Some("Search".into()),
        input_schema: Some(jv(r#"{"type": "object"}"#)),
        deferred: None,
        extra: Vec::new(),
    }];
    canonical.tool_choice = Some(ToolChoice::NoTools);

    let anthropic_req = anthropic_messages::encode_request(&canonical).unwrap();

    let tools = anthropic_req.tools.as_ref().expect("tools should be present");
    assert_eq!(tools.len(), 1);
    assert_eq!(tools[0].name, "search");

    assert!(anthropic_req.tool_choice.is_none());
}

#[test]
fn test_tool_ids_preserved_openai_to_anthropic() {
    let openai_req = chat_request(
        r#"{
        "model": "gpt-4",
        "messages": [
            {"role": "user", "content": "Weather?"},
            {"role": "assistant", "content": null, "tool_calls": [
                {
                    "id": "call_unique_abc",
                    "type": "function",
                    "function": {"name": "get_weather", "arguments": "{}"}
                }
            ]},
            {"role": "tool", "tool_call_id": "call_unique_abc", "content": "72F"}
        ]
    }"#,
    );
    let canonical = openai_chat::decode_request(openai_req).unwrap();
    let anthropic_req = anthropic_messages::encode_request(&canonical).unwrap();

    let asst_blocks = match &anthropic_req.messages[1].content {
        MessagesContent::Blocks(b) => b,
        _ => panic!("expected blocks"),
    };
    match &asst_blocks[0] {
        MessagesContentBlock::ToolUse { id, .. } => assert_eq!(id, "call_unique_abc"),
        _ => panic!("expected ToolUse block"),
    }

    let tool_blocks = match &anthropic_req.messages[2].content {
        MessagesContent::Blocks(b) => b,
        _ => panic!("expected blocks"),
    };
    match &tool_blocks[0] {
        MessagesContentBlock::ToolResult { tool_use_id, .. } => {
            assert_eq!(tool_use_id, "call_unique_abc")
        }
        _ => panic!("expected ToolResult block"),
    }
}

#[test]
fn test_tool_names_preserved_round_trip() {
    let mut canonical = empty_request(
        "sonnet-3",
        vec![Message {
            role: Role::User,
            content: MessageContent::text("Hi"),
        }],
    );
    canonical.max_tokens = Some(100);
    canonical.tools = vec![
        ToolDefinition {
            name: "alpha_tool".into(),
            description: Some("Does alpha".into()),
            input_schema: Some(jv(r#"{"type": "object"}"#)),
            deferred: None,
            extra: Vec::new(),
        },
        ToolDefinition {
            name: "beta_tool".into(),
            description: Some("Does beta".into()),
            input_schema: Some(jv(r#"{"type": "object"}"#)),
            deferred: None,
            extra: Vec::new(),
        },
    ];

    let anthropic_req = anthropic_messages::encode_request(&canonical).unwrap();
    let decoded = anthropic_messages::decode_request(anthropic_req).unwrap();

    assert_eq!(decoded.tools.len(), 2);
    assert_eq!(decoded.tools[0].name, "alpha_tool");
    assert_eq!(decoded.tools[1].name, "beta_tool");
}

#[test]
fn test_tool_arguments_nested_json_preserved() {
    let nested_args: serde_json::Value = serde_json::from_str(
        r#"{
        "query": "hello",
        "filters": {
            "date_range": {"start": "2024-01-01", "end": "2024-12-31"},
            "categories": ["tech", "science"],
            "nested": {"deep": {"value": 42}}
        }
    }"#,
    )
    .unwrap();

    let mut openai_json: serde_json::Value = serde_json::from_str(
        r#"{
        "model": "gpt-4",
        "messages": [
            {"role": "user", "content": "Search"},
            {"role": "assistant", "content": null, "tool_calls": [{
                "id": "call_nested",
                "type": "function",
                "function": {"name": "search", "arguments": ""}
            }]},
            {"role": "tool", "tool_call_id": "call_nested", "content": "results"}
        ]
    }"#,
    )
    .unwrap();
    openai_json["messages"][1]["tool_calls"][0]["function"]["arguments"] =
        serde_json::Value::String(nested_args.to_string());
    let openai_req = chat_request(&openai_json.to_string());
    let canonical = openai_chat::decode_request(openai_req).unwrap();

    let anthropic_req = anthropic_messages::encode_request(&canonical).unwrap();
    let decoded_canonical = anthropic_messages::decode_request(anthropic_req).unwrap();

    let asst_blocks = decoded_canonical.messages[1].content.clone().into_blocks();
    match &asst_blocks[0] {
        ContentBlock::ToolUse(tu) => {
            assert_eq!(to_value(&tu.input), nested_args);
        }
        _ => panic!("expected ToolUse block"),
    }
}

#[test]
fn test_tool_result_correlation_preserved() {
    let req = anthropic_request(
        r#"{
        "model": "sonnet-3",
        "max_tokens": 100,
        "messages": [
            {"role": "user", "content": "Weather?"},
            {"role": "assistant", "content": [
                {"type": "tool_use", "id": "toolu_xyz_789", "name": "get_weather", "input": {"city": "NYC"}}
            ]},
            {"role": "user", "content": [
                {"type": "tool_result", "tool_use_id": "toolu_xyz_789", "content": "72F"}
            ]}
        ]
    }"#,
    );
    let canonical = anthropic_messages::decode_request(req).unwrap();
    let re_encoded = anthropic_messages::encode_request(&canonical).unwrap();

    let asst_blocks = match &re_encoded.messages[1].content {
        MessagesContent::Blocks(b) => b,
        _ => panic!("expected blocks"),
    };
    match &asst_blocks[0] {
        MessagesContentBlock::ToolUse { id, .. } => assert_eq!(id, "toolu_xyz_789"),
        _ => panic!("expected ToolUse"),
    }

    let tool_blocks = match &re_encoded.messages[2].content {
        MessagesContent::Blocks(b) => b,
        _ => panic!("expected blocks"),
    };
    match &tool_blocks[0] {
        MessagesContentBlock::ToolResult { tool_use_id, .. } => {
            assert_eq!(tool_use_id, "toolu_xyz_789")
        }
        _ => panic!("expected ToolResult"),
    }
}

#[test]
fn test_multiple_tool_calls_with_indices() {
    let openai_req = chat_request(
        r#"{
        "model": "gpt-4",
        "messages": [
            {"role": "user", "content": "Do three things"},
            {"role": "assistant", "content": null, "tool_calls": [
                {"id": "call_0", "type": "function", "function": {"name": "task_a", "arguments": "{}"}},
                {"id": "call_1", "type": "function", "function": {"name": "task_b", "arguments": "{}"}},
                {"id": "call_2", "type": "function", "function": {"name": "task_c", "arguments": "{}"}}
            ]}
        ]
    }"#,
    );
    let canonical = openai_chat::decode_request(openai_req).unwrap();

    let asst_blocks = canonical.messages[1].content.clone().into_blocks();
    assert_eq!(asst_blocks.len(), 3);

    for (i, block) in asst_blocks.iter().enumerate() {
        match block {
            ContentBlock::ToolUse(tu) => {
                assert_eq!(tu.id, format!("call_{i}"));
                assert_eq!(
                    tu.name,
                    match i {
                        0 => "task_a",
                        1 => "task_b",
                        2 => "task_c",
                        _ => panic!("unexpected index"),
                    }
                );
            }
            _ => panic!("expected ToolUse block at index {i}"),
        }
    }

    let anthropic_req = anthropic_messages::encode_request(&canonical).unwrap();
    let tool_blocks = match &anthropic_req.messages[1].content {
        MessagesContent::Blocks(b) => b,
        _ => panic!("expected blocks"),
    };
    assert_eq!(tool_blocks.len(), 3);

    let names: Vec<&str> = tool_blocks
        .iter()
        .filter_map(|b| match b {
            MessagesContentBlock::ToolUse { name, .. } => Some(name.as_str()),
            _ => None,
        })
        .collect();
    assert_eq!(names, vec!["task_a", "task_b", "task_c"]);
}

#[test]
fn test_tool_choice_variants_all_adapters() {
    let mut tc_auto = empty_request(
        "sonnet-3",
        vec![Message {
            role: Role::User,
            content: MessageContent::text("hi"),
        }],
    );
    tc_auto.max_tokens = Some(100);
    tc_auto.tools = vec![ToolDefinition {
        name: "t".into(),
        description: None,
        input_schema: Some(jv(r#"{"type": "object"}"#)),
        deferred: None,
        extra: Vec::new(),
    }];
    tc_auto.tool_choice = Some(ToolChoice::Auto);

    let anthro = anthropic_messages::encode_request(&tc_auto).unwrap();
    assert!(matches!(anthro.tool_choice, Some(AnthropicToolChoice::Auto)));
    let decoded = anthropic_messages::decode_request(anthro).unwrap();
    assert!(matches!(decoded.tool_choice, Some(ToolChoice::Auto)));

    let mut tc_req = tc_auto.clone();
    tc_req.tool_choice = Some(ToolChoice::Required);
    let anthro = anthropic_messages::encode_request(&tc_req).unwrap();
    assert!(matches!(anthro.tool_choice, Some(AnthropicToolChoice::Any)));
    let decoded = anthropic_messages::decode_request(anthro).unwrap();
    assert!(matches!(decoded.tool_choice, Some(ToolChoice::Required)));

    let mut tc_none = tc_auto.clone();
    tc_none.tool_choice = Some(ToolChoice::NoTools);
    let anthro = anthropic_messages::encode_request(&tc_none).unwrap();
    assert!(anthro.tool_choice.is_none());
    let decoded = anthropic_messages::decode_request(anthro).unwrap();
    assert!(decoded.tool_choice.is_none());

    let mut tc_named = tc_auto.clone();
    tc_named.tool_choice = Some(ToolChoice::Named {
        name: "my_tool".into(),
    });
    let anthro = anthropic_messages::encode_request(&tc_named).unwrap();
    assert!(matches!(
        anthro.tool_choice,
        Some(AnthropicToolChoice::Tool { ref name }) if name == "my_tool"
    ));
    let decoded = anthropic_messages::decode_request(anthro).unwrap();
    assert!(matches!(
        decoded.tool_choice,
        Some(ToolChoice::Named { ref name }) if name == "my_tool"
    ));

    let base = chat_request(
        r#"{
        "model": "gpt-4",
        "messages": [{"role": "user", "content": "hi"}],
        "tools": [{"type": "function", "function": {"name": "t"}}]
    }"#,
    );

    for (tc_str, expected) in &[
        ("auto", ToolChoice::Auto),
        ("required", ToolChoice::Required),
        ("none", ToolChoice::NoTools),
    ] {
        let mut base_clone = base.clone();
        base_clone.tool_choice = Some(ChatToolChoice::String((*tc_str).into()));
        let decoded = openai_chat::decode_request(base_clone).unwrap();
        assert!(
            matches!(&decoded.tool_choice, Some(tc) if std::mem::discriminant(tc) == std::mem::discriminant(expected)),
            "OpenAI {tc_str} round-trip failed"
        );
    }

    let mut base_named = base.clone();
    base_named.tool_choice = Some(ChatToolChoice::Object(ChatToolChoiceObject {
        choice_type: "function".into(),
        function: ChatToolChoiceFunction { name: "target_fn".into() },
    }));
    let decoded = openai_chat::decode_request(base_named).unwrap();
    assert!(matches!(
        decoded.tool_choice,
        Some(ToolChoice::Named { ref name }) if name == "target_fn"
    ));

    let base_resp = responses_request(
        r#"{
        "model": "gpt-4",
        "input": [{"role":"user","content":"hi"}],
        "tools": [{"type":"function","name":"t"}]
    }"#,
    );

    for (tc_str, expected) in &[
        ("auto", ToolChoice::Auto),
        ("required", ToolChoice::Required),
        ("none", ToolChoice::NoTools),
    ] {
        let mut base_clone = base_resp.clone();
        base_clone.tool_choice = Some(ResponsesToolChoice::String((*tc_str).into()));
        let decoded = openai_responses::decode_request(base_clone).unwrap();
        assert!(
            matches!(&decoded.tool_choice, Some(tc) if std::mem::discriminant(tc) == std::mem::discriminant(expected)),
            "Responses {tc_str} round-trip failed"
        );
    }

    let mut base_resp_named = base_resp.clone();
    base_resp_named.tool_choice = Some(ResponsesToolChoice::Object(jv(r#"{"name":"target_fn"}"#)));
    let decoded = openai_responses::decode_request(base_resp_named).unwrap();
    assert!(matches!(
        decoded.tool_choice,
        Some(ToolChoice::Named { ref name }) if name == "target_fn"
    ));
}

#[test]
fn test_openai_round_trip_semantic() {
    let openai_req = chat_request(
        r#"{
        "model": "gpt-4",
        "messages": [
            {"role": "system", "content": "You are helpful."},
            {"role": "user", "content": "Hello"},
            {"role": "assistant", "content": "Hi!", "tool_calls": [
                {"id": "call_1", "type": "function", "function": {"name": "search", "arguments": "{\"q\":\"hi\"}"}}
            ]},
            {"role": "tool", "tool_call_id": "call_1", "content": "results here"}
        ],
        "temperature": 0.5,
        "max_tokens": 512,
        "tools": [{"type": "function", "function": {"name": "search", "parameters": {"type": "object"}}}],
        "tool_choice": "auto"
    }"#,
    );
    let canonical = openai_chat::decode_request(openai_req).unwrap();

    assert_eq!(canonical.model, "gpt-4");
    assert_eq!(canonical.temperature.as_deref(), Some("0.5"));
    assert_eq!(canonical.max_tokens, Some(512));
    assert!(canonical.system.is_some());
    assert_eq!(canonical.tools.len(), 1);
    assert_eq!(canonical.tools[0].name, "search");
    assert!(matches!(canonical.tool_choice, Some(ToolChoice::Auto)));

    assert_eq!(canonical.messages.len(), 3);

    assert_eq!(canonical.messages[0].role, Role::User);
    assert_eq!(
        canonical.messages[0].content.clone().into_blocks()[0].as_text(),
        Some("Hello")
    );

    assert_eq!(canonical.messages[1].role, Role::Assistant);
    let asst_blocks = canonical.messages[1].content.clone().into_blocks();
    assert!(matches!(&asst_blocks[0], ContentBlock::Text(t) if t.text == "Hi!"));
    assert!(
        matches!(&asst_blocks[1], ContentBlock::ToolUse(tu) if tu.id == "call_1" && tu.name == "search")
    );

    assert_eq!(canonical.messages[2].role, Role::Tool);
    let tool_blocks = canonical.messages[2].content.clone().into_blocks();
    assert!(matches!(&tool_blocks[0], ContentBlock::ToolResult(tr) if tr.tool_use_id == "call_1"));

    let anthropic_req = anthropic_messages::encode_request(&canonical).unwrap();
    assert_eq!(anthropic_req.model, "gpt-4");
    assert_eq!(anthropic_req.max_tokens, 512);
    assert_eq!(anthropic_req.messages.len(), 3);

    let tools = anthropic_req.tools.as_ref().expect("tools should exist");
    assert_eq!(tools.len(), 1);
    assert_eq!(tools[0].name, "search");
}

#[test]
fn test_anthropic_round_trip_semantic() {
    let req = anthropic_request(
        r#"{
        "model": "sonnet-3-opus-20240229",
        "max_tokens": 2048,
        "system": "You are a math tutor.",
        "messages": [
            {"role": "user", "content": "What is 2+2?"},
            {"role": "assistant", "content": [
                {"type": "thinking", "thinking": "Simple arithmetic: 2+2=4", "signature": "sig_abc"},
                {"type": "text", "text": "The answer is 4."}
            ]},
            {"role": "user", "content": "Now use a tool"}
        ],
        "tools": [{
            "name": "calculator",
            "description": "Evaluate math expressions",
            "input_schema": {"type": "object", "properties": {"expr": {"type": "string"}}}
        }],
        "tool_choice": {"type": "auto"},
        "temperature": 0.3,
        "top_p": 0.9
    }"#,
    );
    let canonical = anthropic_messages::decode_request(req).unwrap();

    match &canonical.system {
        Some(SystemInstruction::Text(text)) => assert_eq!(text, "You are a math tutor."),
        _ => panic!("expected text system instruction"),
    }

    assert_eq!(canonical.messages.len(), 3);

    assert_eq!(canonical.messages[0].role, Role::User);
    assert_eq!(
        canonical.messages[0].content.clone().into_blocks()[0].as_text(),
        Some("What is 2+2?")
    );

    assert_eq!(canonical.messages[1].role, Role::Assistant);
    let asst_blocks = canonical.messages[1].content.clone().into_blocks();
    assert!(matches!(
        &asst_blocks[0],
        ContentBlock::Reasoning(r) if r.thinking == "Simple arithmetic: 2+2=4"
            && r.signature.as_deref() == Some("sig_abc")
    ));
    assert!(matches!(&asst_blocks[1], ContentBlock::Text(t) if t.text == "The answer is 4."));

    assert_eq!(canonical.tools.len(), 1);
    assert_eq!(canonical.tools[0].name, "calculator");
    assert!(matches!(canonical.tool_choice, Some(ToolChoice::Auto)));
    assert_eq!(canonical.temperature.as_deref(), Some("0.3"));
    assert_eq!(canonical.top_p.as_deref(), Some("0.9"));

    let re_encoded = anthropic_messages::encode_request(&canonical).unwrap();
    assert_eq!(re_encoded.model, "sonnet-3-opus-20240229");
    assert_eq!(re_encoded.max_tokens, 2048);

    match &re_encoded.system {
        Some(JsonValue::String(s)) => assert_eq!(s, "You are a math tutor."),
        other => panic!("expected string system instruction, got: {other:?}"),
    }

    assert_eq!(re_encoded.messages.len(), 3);

    let asst_msg = &re_encoded.messages[1];
    let asst_blocks = match &asst_msg.content {
        MessagesContent::Blocks(b) => b,
        _ => panic!("expected blocks"),
    };
    assert!(matches!(
        &asst_blocks[0],
        MessagesContentBlock::Thinking { thinking, signature }
            if thinking == "Simple arithmetic: 2+2=4"
                && signature.as_deref() == Some("sig_abc")
    ));
    assert!(matches!(
        &asst_blocks[1],
        MessagesContentBlock::Text { text } if text == "The answer is 4."
    ));

    let tools = re_encoded.tools.as_ref().expect("tools should exist");
    assert_eq!(tools.len(), 1);
    assert_eq!(tools[0].name, "calculator");
    assert_eq!(
        tools[0].description.as_deref(),
        Some("Evaluate math expressions")
    );
}

#[test]
fn test_responses_round_trip_semantic() {
    let req = responses_request(
        r#"{
        "model": "gpt-4",
        "instructions": "You are a helpful assistant.",
        "input": [
            {"role": "user", "content": "Search for rust lang"},
            {"type": "function_call", "id": "fc_001", "name": "web_search", "arguments": "{\"q\":\"rust\"}"},
            {"type": "function_call_output", "call_id": "fc_001", "output": "Found results"},
            {"role": "user", "content": "Summarize"},
            {"type": "reasoning", "id": "reason_001", "summary": [{"type": "summary_text", "text": "The user wants a summary"}]}
        ],
        "tools": [{"type": "function", "name": "web_search", "parameters": {"type": "object"}}]
    }"#,
    );
    let canonical = openai_responses::decode_request(req).unwrap();

    match &canonical.system {
        Some(SystemInstruction::Text(text)) => {
            assert_eq!(text, "You are a helpful assistant.")
        }
        _ => panic!("expected text system instruction"),
    }

    assert!(canonical.messages.len() >= 3);

    assert_eq!(canonical.tools.len(), 1);
    assert_eq!(canonical.tools[0].name, "web_search");

    let has_tool_use = canonical.messages.iter().any(|m| {
        m.content
            .clone()
            .into_blocks()
            .iter()
            .any(|b| matches!(b, ContentBlock::ToolUse(tu) if tu.name == "web_search"))
    });
    assert!(has_tool_use, "expected ToolUse block for web_search");

    let has_tool_result = canonical.messages.iter().any(|m| {
        m.role == Role::Tool
            && m.content.clone().into_blocks().iter().any(
                |b| matches!(b, ContentBlock::ToolResult(tr) if tr.tool_use_id == "fc_001"),
            )
    });
    assert!(has_tool_result, "expected ToolResult with call_id fc_001");

    let has_reasoning = canonical.messages.iter().any(|m| {
        m.content
            .clone()
            .into_blocks()
            .iter()
            .any(|b| matches!(b, ContentBlock::Reasoning(r) if r.thinking.contains("summary")))
    });
    assert!(has_reasoning, "expected Reasoning content block");
}

#[test]
fn test_round_trip_documents_losses() {
    let openai_req = chat_request(
        r#"{
        "model": "gpt-4",
        "messages": [{"role": "user", "content": "Give me JSON"}],
        "response_format": {"type": "json_object"}
    }"#,
    );
    let canonical = openai_chat::decode_request(openai_req).unwrap();

    let rf = canonical.response_format.as_ref().expect("response_format should exist");
    assert_eq!(rf.format_type, "json_object");

    let anthropic_req = anthropic_messages::encode_request(&canonical).unwrap();

    let decoded = anthropic_messages::decode_request(anthropic_req).unwrap();
    assert!(
        decoded.response_format.is_none(),
        "response_format should be lost after Anthropic round-trip; got: {:?}",
        decoded.response_format,
    );

    assert_eq!(decoded.messages.len(), 1);
    assert_eq!(
        decoded.messages[0].content.clone().into_blocks()[0].as_text(),
        Some("Give me JSON")
    );
}

#[test]
fn anthropic_unknown_fields_become_extensions() {
    let req = anthropic_request(
        r#"{"model":"sonnet-3","max_tokens":100,"messages":[{"role":"user","content":"Hi"}],"service_tier":"auto"}"#,
    );
    let canonical = anthropic_messages::decode_request(req).unwrap();
    assert_eq!(canonical.extensions.anthropic, Some(jv(r#"{"service_tier":"auto"}"#)));
    let plain = anthropic_request(r#"{"model":"sonnet-3","max_tokens":100,"messages":[{"role":"user","content":"Hi"}]}"#);
    assert_eq!(anthropic_messages::decode_request(plain).unwrap().extensions.anthropic, None);
}
