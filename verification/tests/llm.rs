//! The LLM node's decisions: protocol and lane, the request built from a
//! node's input, token events and the folding of streamed responses.

use relay_core::adapters::anthropic_messages::{
    MessagesDelta, MessagesMessageDelta, MessagesStreamEvent, MessagesStreamMessageInfo, MessagesUsage,
};
use relay_core::adapters::openai_chat::wire::{
    ChatChunkChoice, ChatCompletionChunk, ChatDelta, ChatDeltaFunction, ChatDeltaToolCall, ChatUsage,
};
use relay_core::adapters::openai_responses::ResponsesStreamEvent;
use relay_core::canonical::{ContentBlock, FinishReason, MessageContent, Protocol, Role};
use relay_core::error::ProtocolEngineError;
use relay_core::json::JsonValue;
use relay_core::workflow::context::{LaneEntry, LaneRegistry};
use relay_core::workflow::error::NodeError;
use relay_core::workflow::llm::{
    StreamFold, check_provider_json, extract_messages, is_gzip, resolve_lane_id, resolve_protocol, token_event,
    upstream_path,
};
use relay_core::workflow::nodes::RuntimeValue;
use relay_core::workflow::schema::LlmConfig;

fn config(protocol: Option<&str>, lane: Option<&str>) -> LlmConfig {
    LlmConfig {
        protocol: protocol.map(|p| p.into()),
        model: None,
        temperature: None,
        max_tokens: None,
        stream: false,
        lane_id: lane.map(|l| l.into()),
    }
}

fn lanes(ids: &[&str]) -> LaneRegistry {
    let mut r = LaneRegistry::new();
    for id in ids {
        r.register(LaneEntry {
            id: id.to_string(),
            base_url: "http://127.0.0.1:1".into(),
            authorization: None,
            egress: "direct".into(),
            proxy_url: None,
        });
    }
    r
}

fn obj(entries: Vec<(&str, JsonValue)>) -> JsonValue {
    JsonValue::Object(entries.into_iter().map(|(k, v)| (k.to_string(), v)).collect())
}

fn s(text: &str) -> JsonValue {
    JsonValue::String(text.into())
}

#[test]
fn protocol_names_resolve() {
    assert_eq!(resolve_protocol(&config(None, None)), Some(Protocol::OpenAiChatCompletions));
    assert_eq!(resolve_protocol(&config(Some("anthropic_messages"), None)), Some(Protocol::AnthropicMessages));
    assert_eq!(resolve_protocol(&config(Some("openai_responses"), None)), Some(Protocol::OpenAiResponses));
    assert_eq!(resolve_protocol(&config(Some("something"), None)), Some(Protocol::OpenAiChatCompletions));
    assert_eq!(upstream_path(Protocol::OpenAiResponses), "/v1/responses");
}

#[test]
fn lane_id_defaults_to_only_lane() {
    assert_eq!(resolve_lane_id(&config(None, None), &lanes(&["solo"])).unwrap(), "solo");
    assert_eq!(resolve_lane_id(&config(None, Some("x")), &lanes(&[])).unwrap(), "x");
    match resolve_lane_id(&config(None, None), &lanes(&[])) {
        Err(NodeError::Internal(m)) => assert_eq!(m, "LLM node has no lane_id and no lane is registered"),
        _ => panic!("expected an error"),
    }
}

#[test]
fn messages_come_from_input() {
    let ms = extract_messages(&RuntimeValue::String("hello".into()));
    assert_eq!(ms.len(), 1);
    assert_eq!(ms[0].role, Role::User);
    assert!(matches!(&ms[0].content, MessageContent::Text(t) if t == "hello"));
    let input = RuntimeValue::Json(obj(vec![(
        "messages",
        JsonValue::Array(vec![
            obj(vec![("role", s("system")), ("content", s("be brief"))]),
            obj(vec![("role", s("assistant")), ("content", JsonValue::Array(vec![obj(vec![("type", s("text")), ("text", s("hi"))])]))]),
        ]),
    )]));
    let ms = extract_messages(&input);
    assert_eq!(ms.len(), 2);
    assert_eq!(ms[0].role, Role::System);
    assert!(matches!(&ms[0].content, MessageContent::Text(t) if t == "be brief"));
    assert_eq!(ms[1].role, Role::Assistant);
    match &ms[1].content {
        MessageContent::Blocks(bs) => {
            assert_eq!(bs.len(), 1);
            assert_eq!(bs[0].as_text(), Some("hi"));
        }
        _ => panic!("expected blocks"),
    }
    let empty = extract_messages(&RuntimeValue::Integer(3));
    assert!(matches!(&empty[0].content, MessageContent::Text(t) if t.is_empty()));
}

#[test]
fn token_events_escape_json() {
    assert_eq!(token_event("a\"b\n"), b"event: token\ndata: {\"delta\":\"a\\\"b\\n\"}\n\n".to_vec());
    assert_eq!(token_event("\u{1}"), b"event: token\ndata: {\"delta\":\"\\u0001\"}\n\n".to_vec());
}

#[test]
fn gzip_magic_is_detected() {
    assert!(is_gzip(&[0x1f, 0x8b, 0]));
    assert!(!is_gzip(b"{}"));
    assert!(!is_gzip(&[0x1f]));
}

#[test]
fn provider_json_is_checked() {
    assert!(check_provider_json(&obj(vec![("id", s("x"))])).is_ok());
    assert!(check_provider_json(&JsonValue::Array(vec![])).is_ok());
    match check_provider_json(&obj(vec![("error", obj(vec![("message", s("bad"))]))])) {
        Err(NodeError::Provider(ProtocolEngineError::ProviderError { message, .. })) => {
            assert_eq!(message, "provider returned error at 2xx: {\"error\":{\"message\":\"bad\"}}")
        }
        _ => panic!("expected a provider error"),
    }
    match check_provider_json(&s("text")) {
        Err(NodeError::Provider(ProtocolEngineError::InvalidPayload { message })) => {
            assert_eq!(message, "provider returned non-object JSON response")
        }
        _ => panic!("expected an invalid payload"),
    }
}

fn chunk(content: Option<&str>, finish: Option<&str>, tool_calls: Option<Vec<ChatDeltaToolCall>>) -> ChatCompletionChunk {
    ChatCompletionChunk {
        id: "chatcmpl-1".into(),
        object: "chat.completion.chunk".into(),
        created: 0,
        model: "gpt-4".into(),
        choices: vec![ChatChunkChoice {
            index: 0,
            delta: ChatDelta { role: None, content: content.map(|c| c.into()), tool_calls },
            finish_reason: finish.map(|f| f.into()),
        }],
        usage: None,
    }
}

fn tool_delta(index: u32, id: Option<&str>, name: Option<&str>, args: Option<&str>) -> ChatDeltaToolCall {
    ChatDeltaToolCall {
        index,
        id: id.map(|i| i.into()),
        call_type: None,
        function: Some(ChatDeltaFunction { name: name.map(|n| n.into()), arguments: args.map(|a| a.into()) }),
    }
}

#[test]
fn chat_chunks_fold_into_one_response() {
    let mut fold = StreamFold::new(Protocol::OpenAiChatCompletions);
    assert_eq!(fold.fold_chat(&chunk(Some("Hel"), None, None)), vec!["Hel".to_string()]);
    assert_eq!(fold.fold_chat(&chunk(Some("lo"), None, None)), vec!["lo".to_string()]);
    fold.fold_chat(&chunk(None, None, Some(vec![tool_delta(1, None, Some("second"), Some("{}"))])));
    fold.fold_chat(&chunk(None, None, Some(vec![tool_delta(0, Some("call_a"), Some("first"), Some("{\"q\":"))])));
    fold.fold_chat(&chunk(None, None, Some(vec![tool_delta(0, None, None, Some("1}"))])));
    let mut last = chunk(None, Some("tool_calls"), None);
    last.usage = Some(ChatUsage { prompt_tokens: 3, completion_tokens: 4, total_tokens: 7 });
    fold.fold_chat(&last);
    let r = fold.into_response().unwrap();
    assert_eq!(r.id, "chatcmpl-1");
    assert_eq!(r.model, "gpt-4");
    assert_eq!(r.finish_reason, Some(FinishReason::ToolCalls));
    assert_eq!(r.usage.as_ref().and_then(|u| u.total_tokens), Some(7));
    assert_eq!(r.content.len(), 3);
    assert_eq!(r.content[0].as_text(), Some("Hello"));
    match (&r.content[1], &r.content[2]) {
        (ContentBlock::ToolUse(a), ContentBlock::ToolUse(b)) => {
            assert_eq!(a.id, "call_a");
            assert_eq!(a.name, "first");
            assert_eq!(a.input, obj(vec![("q", JsonValue::Number("1".into()))]));
            assert_eq!(b.id, "tool-use");
            assert_eq!(b.name, "second");
        }
        _ => panic!("expected tool uses"),
    }
}

fn usage(input: u32, output: u32) -> MessagesUsage {
    MessagesUsage { input_tokens: input, output_tokens: output, cache_creation_input_tokens: None, cache_read_input_tokens: None }
}

#[test]
fn anthropic_events_fold_into_one_response() {
    let mut fold = StreamFold::new(Protocol::AnthropicMessages);
    fold.fold_anthropic(&MessagesStreamEvent::MessageStart {
        message: MessagesStreamMessageInfo {
            id: "msg_1".into(),
            model: "sonnet".into(),
            role: "assistant".into(),
            content: vec![],
            stop_reason: None,
            usage: usage(1, 0),
        },
    });
    let d = fold.fold_anthropic(&MessagesStreamEvent::ContentBlockDelta {
        index: 0,
        delta: MessagesDelta::TextDelta { text: "Hi".into() },
    });
    assert_eq!(d, vec!["Hi".to_string()]);
    fold.fold_anthropic(&MessagesStreamEvent::MessageDelta {
        delta: MessagesMessageDelta { stop_reason: Some("max_tokens".into()), stop_sequence: None },
        usage: usage(5, 6),
    });
    fold.fold_anthropic(&MessagesStreamEvent::MessageStop);
    let r = fold.into_response().unwrap();
    assert_eq!(r.id, "msg_1");
    assert_eq!(r.model, "sonnet");
    assert_eq!(r.finish_reason, Some(FinishReason::Length));
    assert_eq!(r.usage.as_ref().and_then(|u| u.output_tokens), Some(6));
    assert_eq!(r.usage.as_ref().and_then(|u| u.total_tokens), None);
    assert_eq!(r.content.len(), 1);
    assert_eq!(r.content[0].as_text(), Some("Hi"));
}

#[test]
fn responses_events_fold_into_one_response() {
    let mut fold = StreamFold::new(Protocol::OpenAiResponses);
    fold.fold_responses(&ResponsesStreamEvent::ResponseCreated {
        response: Some(obj(vec![("id", s("resp_1")), ("model", s("gpt-4o"))])),
    });
    let d = fold.fold_responses(&ResponsesStreamEvent::ResponseOutputTextDelta {
        item_id: None,
        output_index: None,
        content_index: None,
        delta: Some("Yo".into()),
    });
    assert_eq!(d, vec!["Yo".to_string()]);
    let none = fold.fold_responses(&ResponsesStreamEvent::ResponseOutputTextDelta {
        item_id: None,
        output_index: None,
        content_index: None,
        delta: Some(String::new()),
    });
    assert!(none.is_empty());
    let r = fold.into_response().unwrap();
    assert_eq!(r.id, "resp_1");
    assert_eq!(r.model, "gpt-4o");
    assert_eq!(r.content[0].as_text(), Some("Yo"));
    assert_eq!(r.finish_reason, None);
}
