//! Anthropic Messages adapter.
//!
//! Translates between the Anthropic Messages wire format and the canonical
//! model.
//!
//! - System instructions are a top-level field, not a message.
//! - Messages carry arrays of content blocks.
//! - Tool definitions use `input_schema`.
//! - Tool calls are content blocks within assistant messages; tool results
//!   are content blocks within user messages.
//! - Streaming uses `content_block_start` / `content_block_delta` /
//!   `content_block_stop`.
//! - `stop_reason` stands for the finish reason.

use vstd::prelude::*;
use crate::adapters::{filter_mapped, lemma_filter_mapped_empty, lemma_filter_mapped_push, lemma_prefix_push, mapped};
use crate::canonical::{
    AudioSource, CanonicalRequest, CanonicalResponse, CanonicalStreamEvent, ContentBlock,
    FinishReason, ImageContent, ImageSource, Message, MessageContent, Protocol,
    ProtocolCapabilities, ProviderExtensions, ReasoningContent, Role, SystemBlock,
    SystemInstruction, TextContent, ToolChoice, ToolDefinition, ToolResultBlock,
    ToolResultContent, ToolUseBlock, Usage, clone_opt_string, clone_strings, join_block_texts,
    spec_block_texts, spec_blocks_of,
};
use crate::error::ProtocolEngineError;
use crate::json::{Json, JsonValue, entries_view, json_get_str, opt_json_view, spec_json_to_string, clone_opt_json};
use crate::text::join;

verus! {

// ─── Wire types ─────────────────────────────────────────────────────────────

/// Top-level Anthropic Messages request body.
#[derive(Debug, Clone)]
pub struct MessagesRequest {
    pub model: String,
    pub max_tokens: u32,
    pub system: Option<JsonValue>,
    pub messages: Vec<MessagesMessage>,
    /// Sampling temperature, as decimal text.
    pub temperature: Option<String>,
    /// Nucleus sampling threshold, as decimal text.
    pub top_p: Option<String>,
    pub stop_sequences: Option<Vec<String>>,
    pub tools: Option<Vec<AnthropicToolDefinition>>,
    pub tool_choice: Option<AnthropicToolChoice>,
    pub stream: bool,
    pub metadata: Option<JsonValue>,
    /// Fields of the body that no other field names, in order.
    pub extra: Vec<(String, JsonValue)>,
}

/// An Anthropic message.
#[derive(Debug, Clone)]
pub struct MessagesMessage {
    pub role: String,
    pub content: MessagesContent,
}

/// Content of an Anthropic message: a string shorthand or content blocks.
#[derive(Debug, Clone)]
pub enum MessagesContent {
    /// Simple text (string shorthand).
    Text(String),
    /// Array of content blocks.
    Blocks(Vec<MessagesContentBlock>),
}

/// A single content block in an Anthropic message.
#[derive(Debug, Clone)]
pub enum MessagesContentBlock {
    Text { text: String },
    Image { source: MessagesImageSource },
    Thinking { thinking: String, signature: Option<String> },
    ToolUse { id: String, name: String, input: JsonValue },
    ToolResult { tool_use_id: String, content: Option<JsonValue>, is_error: Option<bool> },
}

/// Anthropic image source.
#[derive(Debug, Clone)]
pub struct MessagesImageSource {
    /// Serialized as `type`.
    pub source_type: String,
    pub media_type: Option<String>,
    pub data: Option<String>,
    pub url: Option<String>,
}

/// Anthropic tool definition.
#[derive(Debug, Clone)]
pub struct AnthropicToolDefinition {
    pub name: String,
    pub description: Option<String>,
    pub input_schema: JsonValue,
}

/// Anthropic tool choice control.
#[derive(Debug, Clone)]
pub enum AnthropicToolChoice {
    Auto,
    Any,
    Tool { name: String },
}

/// Top-level Anthropic Messages response.
#[derive(Debug, Clone)]
pub struct MessagesResponse {
    pub id: String,
    pub model: String,
    pub role: String,
    pub content: Vec<MessagesResponseBlock>,
    pub stop_reason: Option<String>,
    pub stop_sequence: Option<String>,
    pub usage: MessagesUsage,
}

/// A content block in the response.
#[derive(Debug, Clone)]
pub enum MessagesResponseBlock {
    Text { text: String },
    Thinking { thinking: String, signature: Option<String> },
    ToolUse { id: String, name: String, input: JsonValue },
}

/// Anthropic usage information.
#[derive(Debug, Clone, Copy)]
pub struct MessagesUsage {
    pub input_tokens: u32,
    pub output_tokens: u32,
    pub cache_creation_input_tokens: Option<u32>,
    pub cache_read_input_tokens: Option<u32>,
}

/// An Anthropic streaming event.
#[derive(Debug, Clone)]
pub enum MessagesStreamEvent {
    MessageStart { message: MessagesStreamMessageInfo },
    ContentBlockStart { index: usize, content_block: MessagesResponseBlock },
    ContentBlockDelta { index: usize, delta: MessagesDelta },
    ContentBlockStop { index: usize },
    MessageDelta { delta: MessagesMessageDelta, usage: MessagesUsage },
    Ping,
    MessageStop,
    Error { error: MessagesErrorDetail },
}

/// Metadata about the message at stream start.
#[derive(Debug, Clone)]
pub struct MessagesStreamMessageInfo {
    pub id: String,
    pub model: String,
    pub role: String,
    pub content: Vec<JsonValue>,
    pub stop_reason: Option<String>,
    pub usage: MessagesUsage,
}

/// A delta within a content block.
#[derive(Debug, Clone)]
pub enum MessagesDelta {
    TextDelta { text: String },
    ThinkingDelta { thinking: String },
    InputJsonDelta { partial_json: String },
    SignatureDelta { signature: String },
}

/// Message-level delta (stop reason).
#[derive(Debug, Clone)]
pub struct MessagesMessageDelta {
    pub stop_reason: Option<String>,
    pub stop_sequence: Option<String>,
}

/// Error detail in streaming.
#[derive(Debug, Clone)]
pub struct MessagesErrorDetail {
    /// Serialized as `type`.
    pub error_type: String,
    pub message: String,
}

// ─── Stop reasons ───────────────────────────────────────────────────────────

/// The Anthropic stop reason of a canonical finish reason.
pub open spec fn spec_encode_stop_reason(r: FinishReason) -> Seq<char> {
    match r {
        FinishReason::Stop => "end_turn"@,
        FinishReason::StopSequence => "stop_sequence"@,
        FinishReason::Length => "max_tokens"@,
        FinishReason::ToolCalls => "tool_use"@,
        FinishReason::ContentFilter => "end_turn"@,
        FinishReason::Error => "end_turn"@,
        FinishReason::Other(s) => s@,
    }
}

/// The canonical finish reason of an Anthropic stop reason.
pub open spec fn spec_decode_stop_reason(s: Seq<char>, r: FinishReason) -> bool {
    if s == "end_turn"@ {
        r is Stop
    } else if s == "stop_sequence"@ {
        r is StopSequence
    } else if s == "max_tokens"@ {
        r is Length
    } else if s == "tool_use"@ {
        r is ToolCalls
    } else {
        r matches FinishReason::Other(o) && o@ == s
    }
}

/// Map a canonical finish reason to an Anthropic stop reason.
pub fn encode_stop_reason(reason: &FinishReason) -> (s: String)
    ensures
        s@ == spec_encode_stop_reason(*reason),
{
    match reason {
        FinishReason::Stop => String::from_str("end_turn"),
        FinishReason::StopSequence => String::from_str("stop_sequence"),
        FinishReason::Length => String::from_str("max_tokens"),
        FinishReason::ToolCalls => String::from_str("tool_use"),
        FinishReason::ContentFilter => String::from_str("end_turn"),
        FinishReason::Error => String::from_str("end_turn"),
        FinishReason::Other(s) => s.clone(),
    }
}

/// Map an Anthropic stop reason to a canonical finish reason.
pub fn decode_stop_reason(reason: &str) -> (r: FinishReason)
    ensures
        spec_decode_stop_reason(reason@, r),
{
    if str_is(reason, "end_turn") {
        FinishReason::Stop
    } else if str_is(reason, "stop_sequence") {
        FinishReason::StopSequence
    } else if str_is(reason, "max_tokens") {
        FinishReason::Length
    } else if str_is(reason, "tool_use") {
        FinishReason::ToolCalls
    } else {
        FinishReason::Other(String::from_str(reason))
    }
}

fn str_is(a: &str, b: &str) -> (r: bool)
    ensures
        r == (a@ == b@),
{
    crate::json::str_eq(a, b)
}

// ─── Protocol info ──────────────────────────────────────────────────────────

/// The capabilities of Anthropic Messages.
pub open spec fn spec_capabilities() -> ProtocolCapabilities {
    ProtocolCapabilities {
        streaming: true,
        tools: true,
        tool_streaming: true,
        multimodal_input: true,
        structured_output: false,
        reasoning: true,
        usage_streaming: true,
        deferred_tools: false,
    }
}

/// Return the protocol capabilities for Anthropic Messages.
pub fn capabilities() -> (c: ProtocolCapabilities)
    ensures
        c == spec_capabilities(),
{
    ProtocolCapabilities {
        streaming: true,
        tools: true,
        tool_streaming: true,
        multimodal_input: true,
        structured_output: false,
        reasoning: true,
        usage_streaming: true,
        deferred_tools: false,
    }
}

/// Return the protocol identifier.
pub fn protocol() -> (p: Protocol)
    ensures
        p == Protocol::AnthropicMessages,
{
    Protocol::AnthropicMessages
}

// ─── Request encoding (canonical → Anthropic) ──────────────────────────────

/// An image source of kind `base64` with the given media type and data.
pub open spec fn is_base64_source(s: MessagesImageSource, media_type: String, data: String) -> bool {
    s.source_type@ == "base64"@ && s.media_type == Some(media_type) && s.data == Some(data)
        && s.url is None
}

/// The JSON object `{"type": "object"}`.
pub open spec fn object_type_json() -> Json {
    Json::Object(seq![("type"@, Json::Str("object"@))])
}

/// The metadata object that stands for a tool reference in a text block.
pub open spec fn spec_tool_reference_json(tr: crate::canonical::ToolReference) -> Json {
    Json::Object(
        seq![
            ("deferred"@, Json::Bool(tr.deferred)),
            ("description"@, match tr.description {
                Some(d) => Json::Str(d@),
                None => Json::Null,
            }),
            ("id"@, Json::Str(tr.id@)),
            ("name"@, Json::Str(tr.name@)),
            ("type"@, Json::Str("tool_reference"@)),
        ],
    )
}

/// The `content` of a tool result block inside a message's blocks: the text,
/// or the block texts joined by newlines, and nothing when there is no text
/// block.
pub open spec fn spec_tool_result_json(c: ToolResultContent) -> Option<Json> {
    match c {
        ToolResultContent::Text(s) => Some(Json::Str(s@)),
        ToolResultContent::Blocks(bs) => if spec_block_texts(bs@).len() == 0 {
            None
        } else {
            Some(Json::Str(join(spec_block_texts(bs@), seq!['\n'])))
        },
    }
}

/// Whether a canonical block has an Anthropic form: all but audio given by
/// URL.
pub open spec fn block_has_form(b: ContentBlock) -> bool {
    !(b matches ContentBlock::Audio(a) && a.source is Url)
}

/// `w` is the Anthropic form of the canonical block `b`.
pub open spec fn block_encodes(b: ContentBlock, w: MessagesContentBlock) -> bool {
    match b {
        ContentBlock::Text(t) => w matches MessagesContentBlock::Text { text } && text@ == t.text@,
        ContentBlock::Image(img) => w matches MessagesContentBlock::Image { source } && match img.source {
            ImageSource::Url { url, .. } => source.source_type@ == "url"@ && source.media_type is None
                && source.data is None && source.url == Some(url),
            ImageSource::Base64 { media_type, data } => is_base64_source(source, media_type, data),
        },
        ContentBlock::Audio(a) => w matches MessagesContentBlock::Image { source } && match a.source {
            AudioSource::Base64 { media_type, data, .. } => is_base64_source(source, media_type, data),
            AudioSource::Url { .. } => false,
        },
        ContentBlock::Reasoning(r) => w matches MessagesContentBlock::Thinking { thinking, signature }
            && thinking@ == r.thinking@ && signature == r.signature,
        ContentBlock::ToolUse(tu) => w matches MessagesContentBlock::ToolUse { id, name, input }
            && id@ == tu.id@ && name@ == tu.name@ && input@ == tu.input@,
        ContentBlock::ToolResult(tr) => w matches MessagesContentBlock::ToolResult {
            tool_use_id,
            content,
            is_error,
        } && tool_use_id@ == tr.tool_use_id@ && opt_json_view(content) == spec_tool_result_json(
            tr.content,
        ) && is_error == tr.is_error,
        ContentBlock::ToolReference(tr) => if tr.input_schema is Some && !tr.deferred {
            w matches MessagesContentBlock::ToolUse { id, name, input } && id@ == tr.id@ && name@
                == tr.name@ && Some(input@) == opt_json_view(tr.input_schema)
        } else {
            w matches MessagesContentBlock::Text { text } && text@ == spec_json_to_string(
                spec_tool_reference_json(tr),
            )
        },
    }
}

/// `outs` is the Anthropic form of the canonical blocks `ins`: one block for
/// each block that has a form, in order.
pub open spec fn blocks_encode(ins: Seq<ContentBlock>, outs: Seq<MessagesContentBlock>) -> bool {
    filter_mapped(ins, outs, |b: ContentBlock| block_has_form(b), |b: ContentBlock, w: MessagesContentBlock| block_encodes(b, w))
}

/// Whether any of the blocks is a text block.
fn has_text_block(bs: &[ContentBlock]) -> (r: bool)
    ensures
        r == (spec_block_texts(bs@).len() > 0),
{
    let mut i: usize = 0;
    assert(bs@.subrange(0, 0) =~= Seq::<ContentBlock>::empty());
    while i < bs.len()
        invariant
            i <= bs.len(),
            spec_block_texts(bs@.subrange(0, i as int)).len() == 0,
        decreases bs.len() - i,
    {
        proof {
            lemma_prefix_push(bs@, i as int);
            assert(bs@.subrange(0, i + 1).drop_last() =~= bs@.subrange(0, i as int));
        }
        if let ContentBlock::Text(_) = &bs[i] {
            proof {
                lemma_block_texts_prefix(bs@, i as int + 1);
            }
            return true;
        }
        i = i + 1;
    }
    assert(bs@.subrange(0, bs@.len() as int) =~= bs@);
    false
}

proof fn lemma_block_texts_prefix(bs: Seq<ContentBlock>, n: int)
    requires
        0 <= n <= bs.len(),
    ensures
        spec_block_texts(bs.subrange(0, n)).len() <= spec_block_texts(bs).len(),
    decreases bs.len() - n,
{
    if n < bs.len() {
        lemma_block_texts_prefix(bs, n + 1);
        assert(bs.subrange(0, n + 1).drop_last() =~= bs.subrange(0, n));
    } else {
        assert(bs.subrange(0, n) =~= bs);
    }
}

/// The metadata JSON of a tool reference.
fn tool_reference_json(tr: &crate::canonical::ToolReference) -> (j: JsonValue)
    ensures
        j@ == spec_tool_reference_json(*tr),
{
    let description = match &tr.description {
        Some(d) => JsonValue::String(d.clone()),
        None => JsonValue::Null,
    };
    let mut es: Vec<(String, JsonValue)> = Vec::new();
    es.push((String::from_str("deferred"), JsonValue::Bool(tr.deferred)));
    es.push((String::from_str("description"), description));
    es.push((String::from_str("id"), JsonValue::String(tr.id.clone())));
    es.push((String::from_str("name"), JsonValue::String(tr.name.clone())));
    es.push((String::from_str("type"), JsonValue::String(String::from_str("tool_reference"))));
    proof {
        crate::json::lemma_object_view(es);
    }
    let j = JsonValue::Object(es);
    assert(j@ == spec_tool_reference_json(*tr)) by {
        let s = Seq::new(es@.len(), |i: int| (es@[i].0@, es@[i].1@));
        if let Json::Object(t) = spec_tool_reference_json(*tr) {
            assert(s =~= t);
        }
    }
    j
}

/// Encode one canonical block, if it has an Anthropic form.
fn encode_content_block(block: &ContentBlock) -> (r: Option<MessagesContentBlock>)
    ensures
        r is Some == block_has_form(*block),
        r matches Some(w) ==> block_encodes(*block, w),
{
    match block {
        ContentBlock::Text(t) => Some(MessagesContentBlock::Text { text: t.text.clone() }),
        ContentBlock::Image(img) => {
            let source = match &img.source {
                ImageSource::Url { url, .. } => MessagesImageSource {
                    source_type: String::from_str("url"),
                    media_type: None,
                    data: None,
                    url: Some(url.clone()),
                },
                ImageSource::Base64 { media_type, data } => MessagesImageSource {
                    source_type: String::from_str("base64"),
                    media_type: Some(media_type.clone()),
                    data: Some(data.clone()),
                    url: None,
                },
            };
            Some(MessagesContentBlock::Image { source })
        },
        ContentBlock::Audio(audio) => {
            // Anthropic has no audio input: inline audio is carried as a
            // base64 source, audio by URL is dropped.
            match &audio.source {
                AudioSource::Base64 { media_type, data, .. } => Some(
                    MessagesContentBlock::Image {
                        source: MessagesImageSource {
                            source_type: String::from_str("base64"),
                            media_type: Some(media_type.clone()),
                            data: Some(data.clone()),
                            url: None,
                        },
                    },
                ),
                AudioSource::Url { .. } => None,
            }
        },
        ContentBlock::Reasoning(thinking) => Some(
            MessagesContentBlock::Thinking {
                thinking: thinking.thinking.clone(),
                signature: clone_opt_string(&thinking.signature),
            },
        ),
        ContentBlock::ToolUse(tu) => Some(
            MessagesContentBlock::ToolUse {
                id: tu.id.clone(),
                name: tu.name.clone(),
                input: tu.input.deep_clone(),
            },
        ),
        ContentBlock::ToolResult(tr) => {
            let content = match &tr.content {
                ToolResultContent::Text(s) => Some(JsonValue::String(s.clone())),
                ToolResultContent::Blocks(blocks) => {
                    if has_text_block(blocks.as_slice()) {
                        Some(JsonValue::String(join_block_texts(blocks.as_slice())))
                    } else {
                        None
                    }
                },
            };
            Some(
                MessagesContentBlock::ToolResult {
                    tool_use_id: tr.tool_use_id.clone(),
                    content,
                    is_error: tr.is_error,
                },
            )
        },
        ContentBlock::ToolReference(tr) => {
            // A reference with a schema that is not deferred is materialized
            // as a tool call; any other is kept as metadata in a text block.
            match &tr.input_schema {
                Some(schema) if !tr.deferred => Some(
                    MessagesContentBlock::ToolUse {
                        id: tr.id.clone(),
                        name: tr.name.clone(),
                        input: schema.deep_clone(),
                    },
                ),
                _ => {
                    let metadata = tool_reference_json(tr);
                    Some(MessagesContentBlock::Text { text: metadata.to_json_string() })
                },
            }
        },
    }
}

/// Encode canonical content blocks into Anthropic content blocks.
fn encode_content_blocks(blocks: &[ContentBlock]) -> (out: Vec<MessagesContentBlock>)
    ensures
        blocks_encode(blocks@, out@),
{
    let mut out: Vec<MessagesContentBlock> = Vec::new();
    let mut i: usize = 0;
    assert(blocks@.subrange(0, 0) =~= Seq::<ContentBlock>::empty());
    while i < blocks.len()
        invariant
            i <= blocks.len(),
            blocks_encode(blocks@.subrange(0, i as int), out@),
        decreases blocks.len() - i,
    {
        proof {
            lemma_prefix_push(blocks@, i as int);
        }
        let r = encode_content_block(&blocks[i]);
        match r {
            Some(w) => {
                proof {
                    lemma_filter_mapped_push(
                        blocks@.subrange(0, i as int),
                        out@,
                        |b: ContentBlock| block_has_form(b),
                        |b: ContentBlock, w: MessagesContentBlock| block_encodes(b, w),
                        blocks@[i as int],
                        w,
                    );
                }
                out.push(w);
            },
            None => {
                proof {
                    lemma_filter_mapped_push(
                        blocks@.subrange(0, i as int),
                        out@,
                        |b: ContentBlock| block_has_form(b),
                        |b: ContentBlock, w: MessagesContentBlock| block_encodes(b, w),
                        blocks@[i as int],
                        arbitrary(),
                    );
                }
            },
        }
        i = i + 1;
    }
    assert(blocks@.subrange(0, blocks@.len() as int) =~= blocks@);
    out
}

/// The `content` of a tool result carried in its own user message: the text,
/// or the block texts joined by newlines.
pub open spec fn spec_tool_message_json(c: ToolResultContent) -> Json {
    match c {
        ToolResultContent::Text(s) => Json::Str(s@),
        ToolResultContent::Blocks(bs) => Json::Str(join(spec_block_texts(bs@), seq!['\n'])),
    }
}

/// `w` is the Anthropic form of the tool result block `b`.
pub open spec fn tool_result_encodes(b: ContentBlock, w: MessagesContentBlock) -> bool {
    b matches ContentBlock::ToolResult(tr) && w matches MessagesContentBlock::ToolResult {
        tool_use_id,
        content,
        is_error,
    } && tool_use_id@ == tr.tool_use_id@ && is_error == tr.is_error && (content matches Some(c)
        && c@ == spec_tool_message_json(tr.content))
}

/// `outs` holds the Anthropic form of each tool result among `ins`, in order.
pub open spec fn tool_results_encode(ins: Seq<ContentBlock>, outs: Seq<MessagesContentBlock>) -> bool {
    filter_mapped(ins, outs, |b: ContentBlock| b is ToolResult, |b: ContentBlock, w: MessagesContentBlock| tool_result_encodes(b, w))
}

/// Whether a tool message holds a tool result.
pub open spec fn has_tool_result(c: MessageContent) -> bool {
    exists|i: int| 0 <= i < spec_blocks_of(c).len() && (#[trigger] spec_blocks_of(c)[i]) is ToolResult
}

/// Whether a canonical message has an Anthropic form: system messages do
/// not (the system prompt is a field of its own), nor tool messages without
/// a tool result.
pub open spec fn message_has_form(m: Message) -> bool {
    match m.role {
        Role::System => false,
        Role::User | Role::Assistant => true,
        Role::Tool => has_tool_result(m.content),
    }
}

/// `w` is the Anthropic form of the canonical message `m`. Tool results go
/// back in a user message.
pub open spec fn message_encodes(m: Message, w: MessagesMessage) -> bool {
    match m.role {
        Role::User => w.role@ == "user"@ && (w.content matches MessagesContent::Blocks(bs)
            && blocks_encode(spec_blocks_of(m.content), bs@)),
        Role::Assistant => w.role@ == "assistant"@ && (w.content matches MessagesContent::Blocks(bs)
            && blocks_encode(spec_blocks_of(m.content), bs@)),
        Role::Tool => w.role@ == "user"@ && (w.content matches MessagesContent::Blocks(bs)
            && tool_results_encode(spec_blocks_of(m.content), bs@)),
        Role::System => false,
    }
}

/// `outs` is the Anthropic form of the canonical messages `ins`.
pub open spec fn messages_encode(ins: Seq<Message>, outs: Seq<MessagesMessage>) -> bool {
    filter_mapped(ins, outs, |m: Message| message_has_form(m), |m: Message, w: MessagesMessage| message_encodes(m, w))
}

/// Encode the content blocks of a message.
fn encode_message_content(content: &MessageContent) -> (out: Vec<MessagesContentBlock>)
    ensures
        blocks_encode(spec_blocks_of(*content), out@),
{
    match content {
        MessageContent::Text(s) => {
            let v = vec![ContentBlock::Text(TextContent { text: s.clone() })];
            assert(v@ =~= spec_blocks_of(*content));
            encode_content_blocks(v.as_slice())
        },
        MessageContent::Blocks(bs) => encode_content_blocks(bs.as_slice()),
    }
}

/// The tool results of a message, as Anthropic blocks.
fn encode_tool_results(content: &MessageContent) -> (out: Vec<MessagesContentBlock>)
    ensures
        tool_results_encode(spec_blocks_of(*content), out@),
{
    match content {
        MessageContent::Text(s) => {
            let v = vec![ContentBlock::Text(TextContent { text: s.clone() })];
            assert(v@ =~= spec_blocks_of(*content));
            encode_tool_result_blocks(v.as_slice())
        },
        MessageContent::Blocks(bs) => encode_tool_result_blocks(bs.as_slice()),
    }
}

/// The Anthropic form of each tool result among `blocks`.
fn encode_tool_result_blocks(blocks: &[ContentBlock]) -> (out: Vec<MessagesContentBlock>)
    ensures
        tool_results_encode(blocks@, out@),
{
    let mut out: Vec<MessagesContentBlock> = Vec::new();
    let mut i: usize = 0;
    assert(blocks@.subrange(0, 0) =~= Seq::<ContentBlock>::empty());
    while i < blocks.len()
        invariant
            i <= blocks.len(),
            tool_results_encode(blocks@.subrange(0, i as int), out@),
        decreases blocks.len() - i,
    {
        proof {
            lemma_prefix_push(blocks@, i as int);
        }
        if let ContentBlock::ToolResult(tr) = &blocks[i] {
            let tool_content = match &tr.content {
                ToolResultContent::Text(s) => JsonValue::String(s.clone()),
                ToolResultContent::Blocks(bs) => JsonValue::String(join_block_texts(bs.as_slice())),
            };
            let w = MessagesContentBlock::ToolResult {
                tool_use_id: tr.tool_use_id.clone(),
                content: Some(tool_content),
                is_error: tr.is_error,
            };
            proof {
                lemma_filter_mapped_push(
                    blocks@.subrange(0, i as int),
                    out@,
                    |b: ContentBlock| b is ToolResult,
                    |b: ContentBlock, w: MessagesContentBlock| tool_result_encodes(b, w),
                    blocks@[i as int],
                    w,
                );
            }
            out.push(w);
        } else {
            proof {
                lemma_filter_mapped_push(
                    blocks@.subrange(0, i as int),
                    out@,
                    |b: ContentBlock| b is ToolResult,
                    |b: ContentBlock, w: MessagesContentBlock| tool_result_encodes(b, w),
                    blocks@[i as int],
                    arbitrary(),
                );
            }
        }
        i = i + 1;
    }
    assert(blocks@.subrange(0, blocks@.len() as int) =~= blocks@);
    out
}

/// Encode a canonical tool result message into an Anthropic user message;
/// none when the message holds no tool result.
fn encode_tool_result_message(content: &MessageContent) -> (r: Option<MessagesMessage>)
    ensures
        r is Some == has_tool_result(*content),
        r matches Some(w) ==> w.role@ == "user"@ && (w.content matches MessagesContent::Blocks(bs)
            && tool_results_encode(spec_blocks_of(*content), bs@)),
{
    let out = encode_tool_results(content);
    proof {
        lemma_filter_mapped_empty(
            spec_blocks_of(*content),
            out@,
            |b: ContentBlock| b is ToolResult,
            |b: ContentBlock, w: MessagesContentBlock| tool_result_encodes(b, w),
        );
    }
    if out.len() == 0 {
        None
    } else {
        Some(MessagesMessage { role: String::from_str("user"), content: MessagesContent::Blocks(out) })
    }
}

/// Encode canonical messages into Anthropic messages.
fn encode_request_messages(messages: &[Message]) -> (out: Vec<MessagesMessage>)
    ensures
        messages_encode(messages@, out@),
{
    let mut out: Vec<MessagesMessage> = Vec::new();
    let mut i: usize = 0;
    assert(messages@.subrange(0, 0) =~= Seq::<Message>::empty());
    while i < messages.len()
        invariant
            i <= messages.len(),
            messages_encode(messages@.subrange(0, i as int), out@),
        decreases messages.len() - i,
    {
        proof {
            lemma_prefix_push(messages@, i as int);
        }
        let msg = &messages[i];
        let r: Option<MessagesMessage> = match msg.role {
            Role::System => None,
            Role::User | Role::Assistant => {
                let anthro_blocks = encode_message_content(&msg.content);
                let role = match msg.role {
                    Role::User => String::from_str("user"),
                    _ => String::from_str("assistant"),
                };
                Some(MessagesMessage { role, content: MessagesContent::Blocks(anthro_blocks) })
            },
            Role::Tool => encode_tool_result_message(&msg.content),
        };
        match r {
            Some(w) => {
                proof {
                    lemma_filter_mapped_push(
                        messages@.subrange(0, i as int),
                        out@,
                        |m: Message| message_has_form(m),
                        |m: Message, w: MessagesMessage| message_encodes(m, w),
                        messages@[i as int],
                        w,
                    );
                }
                out.push(w);
            },
            None => {
                proof {
                    lemma_filter_mapped_push(
                        messages@.subrange(0, i as int),
                        out@,
                        |m: Message| message_has_form(m),
                        |m: Message, w: MessagesMessage| message_encodes(m, w),
                        messages@[i as int],
                        arbitrary(),
                    );
                }
            },
        }
        i = i + 1;
    }
    assert(messages@.subrange(0, messages@.len() as int) =~= messages@);
    out
}

/// The JSON object `{"text": t, "type": "text"}`.
pub open spec fn text_object_json(t: Seq<char>) -> Json {
    Json::Object(seq![("text"@, Json::Str(t)), ("type"@, Json::Str("text"@))])
}

/// Anthropic's `system` field for a canonical system instruction.
pub open spec fn spec_encode_system(s: SystemInstruction) -> Json {
    match s {
        SystemInstruction::Text(t) => Json::Str(t@),
        SystemInstruction::Blocks(bs) => Json::Array(
            Seq::new(bs@.len(), |i: int| text_object_json(bs@[i].text@)),
        ),
    }
}

fn text_object(t: &String) -> (j: JsonValue)
    ensures
        j@ == text_object_json(t@),
{
    let mut es: Vec<(String, JsonValue)> = Vec::new();
    es.push((String::from_str("text"), JsonValue::String(t.clone())));
    es.push((String::from_str("type"), JsonValue::String(String::from_str("text"))));
    proof {
        crate::json::lemma_object_view(es);
    }
    let j = JsonValue::Object(es);
    assert(j@ == text_object_json(t@)) by {
        let s = Seq::new(es@.len(), |i: int| (es@[i].0@, es@[i].1@));
        if let Json::Object(o) = text_object_json(t@) {
            assert(s =~= o);
        }
    }
    j
}

/// Encode a canonical system instruction into Anthropic's system field.
fn encode_system_instruction(system: &Option<SystemInstruction>) -> (r: Option<JsonValue>)
    ensures
        match *system {
            Some(s) => r matches Some(j) && j@ == spec_encode_system(s),
            None => r is None,
        },
{
    match system {
        None => None,
        Some(SystemInstruction::Text(text)) => Some(JsonValue::String(text.clone())),
        Some(SystemInstruction::Blocks(blocks)) => {
            let mut items: Vec<JsonValue> = Vec::new();
            let mut i: usize = 0;
            while i < blocks.len()
                invariant
                    i <= blocks.len(),
                    items@.len() == i,
                    forall|k: int| 0 <= k < i ==> (#[trigger] items@[k])@ == text_object_json(blocks@[k].text@),
                decreases blocks.len() - i,
            {
                items.push(text_object(&blocks[i].text));
                i = i + 1;
            }
            proof {
                crate::json::lemma_array_view(items);
            }
            let j = JsonValue::Array(items);
            assert(j@ == spec_encode_system(system->0)) by {
                let s = Seq::new(items@.len(), |i: int| items@[i]@);
                assert(s =~= Seq::new(blocks@.len(), |i: int| text_object_json(blocks@[i].text@)));
            }
            Some(j)
        },
    }
}

/// `w` is the Anthropic form of the canonical tool definition `t`; a tool
/// without a schema takes `{"type": "object"}`.
pub open spec fn tool_def_encodes(t: ToolDefinition, w: AnthropicToolDefinition) -> bool {
    w.name@ == t.name@ && w.description == t.description && w.input_schema@ == match t.input_schema {
        Some(j) => j@,
        None => object_type_json(),
    }
}

/// `outs` is the Anthropic form of the canonical tool definitions `ins`.
pub open spec fn tools_encode(ins: Seq<ToolDefinition>, outs: Seq<AnthropicToolDefinition>) -> bool {
    mapped(ins, outs, |t: ToolDefinition, w: AnthropicToolDefinition| tool_def_encodes(t, w))
}

/// Anthropic's tool choice for a canonical one; Anthropic has no `none`, so
/// that choice leaves the field out.
pub open spec fn tool_choice_encodes(c: Option<ToolChoice>, w: Option<AnthropicToolChoice>) -> bool {
    match c {
        None => w is None,
        Some(ToolChoice::NoTools) => w is None,
        Some(ToolChoice::Auto) => w matches Some(AnthropicToolChoice::Auto),
        Some(ToolChoice::Required) => w matches Some(AnthropicToolChoice::Any),
        Some(ToolChoice::Named { name }) => w matches Some(AnthropicToolChoice::Tool { name: n }) && n@ == name@,
    }
}

fn object_type() -> (j: JsonValue)
    ensures
        j@ == object_type_json(),
{
    let mut es: Vec<(String, JsonValue)> = Vec::new();
    es.push((String::from_str("type"), JsonValue::String(String::from_str("object"))));
    proof {
        crate::json::lemma_object_view(es);
    }
    let j = JsonValue::Object(es);
    assert(j@ == object_type_json()) by {
        let s = Seq::new(es@.len(), |i: int| (es@[i].0@, es@[i].1@));
        if let Json::Object(o) = object_type_json() {
            assert(s =~= o);
        }
    }
    j
}

/// Encode tool definitions and tool choice into Anthropic form. The tools are
/// kept when the choice is `none`, so that they stay available.
fn encode_tools_and_choice(tools: &[ToolDefinition], tool_choice: &Option<ToolChoice>) -> (r: (
    Option<Vec<AnthropicToolDefinition>>,
    Option<AnthropicToolChoice>,
))
    ensures
        tools@.len() == 0 ==> r.0 is None,
        tools@.len() > 0 ==> (r.0 matches Some(ws) && tools_encode(tools@, ws@)),
        tool_choice_encodes(*tool_choice, r.1),
{
    let out_tools = if tools.len() == 0 {
        None
    } else {
        let mut ws: Vec<AnthropicToolDefinition> = Vec::new();
        let mut i: usize = 0;
        while i < tools.len()
            invariant
                i <= tools.len(),
                ws@.len() == i,
                forall|k: int| 0 <= k < i ==> tool_def_encodes(#[trigger] tools@[k], ws@[k]),
            decreases tools.len() - i,
        {
            let t = &tools[i];
            let input_schema = match &t.input_schema {
                Some(j) => j.deep_clone(),
                None => object_type(),
            };
            ws.push(
                AnthropicToolDefinition {
                    name: t.name.clone(),
                    description: clone_opt_string(&t.description),
                    input_schema,
                },
            );
            i = i + 1;
        }
        Some(ws)
    };
    let choice = match tool_choice {
        None => None,
        Some(ToolChoice::NoTools) => None,
        Some(ToolChoice::Auto) => Some(AnthropicToolChoice::Auto),
        Some(ToolChoice::Required) => Some(AnthropicToolChoice::Any),
        Some(ToolChoice::Named { name }) => Some(AnthropicToolChoice::Tool { name: name.clone() }),
    };
    (out_tools, choice)
}

/// `w` is the Anthropic form of the canonical request `req`.
pub open spec fn request_encodes(req: CanonicalRequest, w: MessagesRequest) -> bool {
    &&& w.model@ == req.model@
    &&& w.max_tokens == match req.max_tokens {
        Some(n) => n,
        None => 4096,
    }
    &&& match req.system {
        Some(s) => w.system matches Some(j) && j@ == spec_encode_system(s),
        None => w.system is None,
    }
    &&& messages_encode(req.messages@, w.messages@)
    &&& w.temperature == req.temperature
    &&& w.top_p == req.top_p
    &&& if req.stop@.len() == 0 {
        w.stop_sequences is None
    } else {
        w.stop_sequences matches Some(v) && v@ == req.stop@
    }
    &&& if req.tools@.len() == 0 {
        w.tools is None
    } else {
        w.tools matches Some(ws) && tools_encode(req.tools@, ws@)
    }
    &&& tool_choice_encodes(req.tool_choice, w.tool_choice)
    &&& w.stream == req.stream
    &&& opt_json_view(w.metadata) == opt_json_view(req.metadata)
    &&& w.extra@.len() == 0
}

/// Encode a canonical request into an Anthropic Messages request. A response
/// format has no Anthropic equivalent and is left out.
pub fn encode_request(req: &CanonicalRequest) -> (r: Result<MessagesRequest, ProtocolEngineError>)
    ensures
        r matches Ok(w) && request_encodes(*req, w),
{
    let system = encode_system_instruction(&req.system);
    let messages = encode_request_messages(req.messages.as_slice());
    let (tools, tool_choice) = encode_tools_and_choice(req.tools.as_slice(), &req.tool_choice);
    let max_tokens = match req.max_tokens {
        Some(n) => n,
        None => 4096,
    };
    let stop_sequences = if req.stop.len() == 0 {
        None
    } else {
        Some(clone_strings(&req.stop))
    };
    Ok(
        MessagesRequest {
            model: req.model.clone(),
            max_tokens,
            system,
            messages,
            temperature: clone_opt_string(&req.temperature),
            top_p: clone_opt_string(&req.top_p),
            stop_sequences,
            tools,
            tool_choice,
            stream: req.stream,
            metadata: clone_opt_json(&req.metadata),
            extra: Vec::new(),
        },
    )
}

// ─── Request decoding (Anthropic → canonical) ──────────────────────────────

/// The text of an optional string, empty when absent.
pub open spec fn opt_text(o: Option<String>) -> Seq<char> {
    match o {
        Some(s) => s@,
        None => Seq::empty(),
    }
}

/// The `text` members of those JSON items that have one, in order.
pub open spec fn json_texts(items: Seq<Json>) -> Seq<Seq<char>>
    decreases items.len(),
{
    if items.len() == 0 {
        Seq::empty()
    } else {
        let init = json_texts(items.drop_last());
        match json_get_str(items.last(), "text"@) {
            Some(t) => init.push(t),
            None => init,
        }
    }
}

/// The canonical text of an Anthropic tool result's `content`: a string as
/// is, an array as the texts of its blocks joined by newlines, another value
/// as its JSON text, and nothing as the empty text.
pub open spec fn spec_tool_content_text(c: Option<Json>) -> Seq<char> {
    match c {
        Some(Json::Str(s)) => s,
        Some(Json::Array(items)) => join(json_texts(items), seq!['\n']),
        Some(other) => spec_json_to_string(other),
        None => Seq::empty(),
    }
}

/// Why an Anthropic block cannot be decoded, if it cannot: an image source
/// of a kind other than `url` or `base64`.
pub open spec fn block_error(w: MessagesContentBlock) -> Option<Seq<char>> {
    match w {
        MessagesContentBlock::Image { source } => if source.source_type@ == "url"@
            || source.source_type@ == "base64"@ {
            None
        } else {
            Some("unknown image source type: "@ + source.source_type@)
        },
        _ => None,
    }
}

/// The error of the first block among `bs` that cannot be decoded.
pub open spec fn blocks_error(bs: Seq<MessagesContentBlock>) -> Option<Seq<char>>
    decreases bs.len(),
{
    if bs.len() == 0 {
        None
    } else {
        match blocks_error(bs.drop_last()) {
            Some(e) => Some(e),
            None => block_error(bs.last()),
        }
    }
}

/// `c` is the canonical form of the Anthropic block `w`.
pub open spec fn block_decodes(w: MessagesContentBlock, c: ContentBlock) -> bool {
    match w {
        MessagesContentBlock::Text { text } => c matches ContentBlock::Text(t) && t.text@ == text@,
        MessagesContentBlock::Image { source } => c matches ContentBlock::Image(img) && if source.source_type@
            == "url"@ {
            img.source matches ImageSource::Url { url, detail } && url@ == opt_text(source.url)
                && detail is None
        } else {
            img.source matches ImageSource::Base64 { media_type, data } && media_type@ == opt_text(
                source.media_type,
            ) && data@ == opt_text(source.data)
        },
        MessagesContentBlock::Thinking { thinking, signature } => c matches ContentBlock::Reasoning(r)
            && r.thinking@ == thinking@ && r.signature == signature,
        MessagesContentBlock::ToolUse { id, name, input } => c matches ContentBlock::ToolUse(tu)
            && tu.id@ == id@ && tu.name@ == name@ && tu.input@ == input@,
        MessagesContentBlock::ToolResult { tool_use_id, content, is_error } => c matches ContentBlock::ToolResult(
            tr,
        ) && tr.tool_use_id@ == tool_use_id@ && tr.name is None && tr.is_error == is_error && (
        tr.content matches ToolResultContent::Text(t) && t@ == spec_tool_content_text(
            opt_json_view(content),
        )),
    }
}

/// `cs` is the canonical form of the Anthropic blocks `ws`.
pub open spec fn blocks_decode(ws: Seq<MessagesContentBlock>, cs: Seq<ContentBlock>) -> bool {
    mapped(ws, cs, |w: MessagesContentBlock, c: ContentBlock| block_decodes(w, c))
}

/// The texts of JSON items, joined by newlines.
pub(crate) fn join_json_texts(items: &Vec<JsonValue>) -> (out: String)
    ensures
        out@ == join(json_texts(items@.map_values(|j: JsonValue| j@)), seq!['\n']),
{
    let ghost vs = items@.map_values(|j: JsonValue| j@);
    let mut out = String::new();
    let mut empty: bool = true;
    let mut i: usize = 0;
    assert(vs.subrange(0, 0) =~= Seq::<Json>::empty());
    while i < items.len()
        invariant
            i <= items.len(),
            vs == items@.map_values(|j: JsonValue| j@),
            empty == (json_texts(vs.subrange(0, i as int)).len() == 0),
            out@ == join(json_texts(vs.subrange(0, i as int)), seq!['\n']),
        decreases items.len() - i,
    {
        let ghost pre = json_texts(vs.subrange(0, i as int));
        proof {
            lemma_prefix_push(vs, i as int);
            assert(vs.subrange(0, i + 1).drop_last() =~= vs.subrange(0, i as int));
        }
        match items[i].get_str("text") {
            Some(t) => {
                if !empty {
                    crate::text::push_char(&mut out, '\n');
                }
                out.append(t.as_str());
                proof {
                    let post = pre.push(t@);
                    assert(post.drop_last() =~= pre);
                    if empty {
                        assert(crate::text::join(pre, seq!['\n']) =~= Seq::<char>::empty());
                        assert(crate::text::join(post, seq!['\n']) == post[0]);
                    }
                    assert(out@ =~= crate::text::join(post, seq!['\n']));
                }
                empty = false;
            },
            None => {},
        }
        i = i + 1;
    }
    assert(vs.subrange(0, vs.len() as int) =~= vs);
    out
}

/// The canonical text of a tool result's `content`.
fn tool_content_text(content: &Option<JsonValue>) -> (t: String)
    ensures
        t@ == spec_tool_content_text(opt_json_view(*content)),
{
    match content {
        Some(JsonValue::String(s)) => s.clone(),
        Some(JsonValue::Array(items)) => {
            proof {
                crate::json::lemma_array_view(*items);
                assert(items@.map_values(|j: JsonValue| j@) =~= Seq::new(items@.len(), |i: int| items@[i]@));
            }
            join_json_texts(items)
        },
        Some(other) => other.to_json_string(),
        None => String::new(),
    }
}

/// Decode Anthropic content blocks into canonical content blocks.
fn decode_content_blocks(blocks: &[MessagesContentBlock]) -> (r: Result<Vec<ContentBlock>, ProtocolEngineError>)
    ensures
        match r {
            Ok(cs) => blocks_error(blocks@) is None && blocks_decode(blocks@, cs@),
            Err(e) => blocks_error(blocks@) matches Some(m) && (e matches ProtocolEngineError::InvalidPayload { message } && message@ == m),
        },
{
    let mut result: Vec<ContentBlock> = Vec::new();
    let mut i: usize = 0;
    assert(blocks@.subrange(0, 0) =~= Seq::<MessagesContentBlock>::empty());
    while i < blocks.len()
        invariant
            i <= blocks.len(),
            blocks_error(blocks@.subrange(0, i as int)) is None,
            result@.len() == i,
            forall|k: int| 0 <= k < i ==> block_decodes(#[trigger] blocks@[k], result@[k]),
        decreases blocks.len() - i,
    {
        proof {
            lemma_prefix_push(blocks@, i as int);
            assert(blocks@.subrange(0, i + 1).drop_last() =~= blocks@.subrange(0, i as int));
        }
        let c = match &blocks[i] {
            MessagesContentBlock::Text { text } => ContentBlock::Text(TextContent { text: text.clone() }),
            MessagesContentBlock::Image { source } => {
                let img_source = if str_is(source.source_type.as_str(), "url") {
                    ImageSource::Url { url: string_or_empty(&source.url), detail: None }
                } else if str_is(source.source_type.as_str(), "base64") {
                    ImageSource::Base64 {
                        media_type: string_or_empty(&source.media_type),
                        data: string_or_empty(&source.data),
                    }
                } else {
                    let mut message = String::from_str("unknown image source type: ");
                    message.append(source.source_type.as_str());
                    proof {
                        lemma_blocks_error_prefix(blocks@, i as int + 1);
                    }
                    return Err(ProtocolEngineError::InvalidPayload { message });
                };
                ContentBlock::Image(ImageContent { source: img_source })
            },
            MessagesContentBlock::Thinking { thinking, signature } => ContentBlock::Reasoning(
                ReasoningContent { thinking: thinking.clone(), signature: clone_opt_string(signature) },
            ),
            MessagesContentBlock::ToolUse { id, name, input } => ContentBlock::ToolUse(
                ToolUseBlock { id: id.clone(), name: name.clone(), input: input.deep_clone() },
            ),
            MessagesContentBlock::ToolResult { tool_use_id, content, is_error } => ContentBlock::ToolResult(
                ToolResultBlock {
                    tool_use_id: tool_use_id.clone(),
                    name: None,
                    content: ToolResultContent::Text(tool_content_text(content)),
                    is_error: *is_error,
                },
            ),
        };
        result.push(c);
        i = i + 1;
    }
    assert(blocks@.subrange(0, blocks@.len() as int) =~= blocks@);
    Ok(result)
}

/// A first error in a prefix is the first error of the whole.
proof fn lemma_blocks_error_prefix(bs: Seq<MessagesContentBlock>, n: int)
    requires
        0 <= n <= bs.len(),
        blocks_error(bs.subrange(0, n)) is Some,
    ensures
        blocks_error(bs) == blocks_error(bs.subrange(0, n)),
    decreases bs.len() - n,
{
    if n < bs.len() {
        assert(bs.subrange(0, n + 1).drop_last() =~= bs.subrange(0, n));
        lemma_blocks_error_prefix(bs, n + 1);
    } else {
        assert(bs.subrange(0, n) =~= bs);
    }
}

/// The string, or the empty string when absent.
fn string_or_empty(o: &Option<String>) -> (s: String)
    ensures
        s@ == opt_text(*o),
{
    match o {
        Some(s) => s.clone(),
        None => String::new(),
    }
}

/// `b` is the system block of a JSON item that has a `text` member.
pub open spec fn system_block_decodes(j: Json, b: SystemBlock) -> bool {
    b.block_type@ == "text"@ && json_get_str(j, "text"@) == Some(b.text@)
}

/// `c` is the canonical system instruction of Anthropic's `system` field
/// `j`: a string as text; an array as the blocks of those items that have a
/// `text`; any other value as its JSON text.
pub open spec fn system_decodes(j: Json, c: SystemInstruction) -> bool {
    match j {
        Json::Str(t) => c matches SystemInstruction::Text(s) && s@ == t,
        Json::Array(items) => c matches SystemInstruction::Blocks(bs) && filter_mapped(
            items,
            bs@,
            |j: Json| json_get_str(j, "text"@) is Some,
            |j: Json, b: SystemBlock| system_block_decodes(j, b),
        ),
        _ => c matches SystemInstruction::Text(s) && s@ == spec_json_to_string(j),
    }
}

/// Decode Anthropic's `system` field.
pub(crate) fn decode_system(j: &JsonValue) -> (c: SystemInstruction)
    ensures
        system_decodes(j@, c),
{
    match j {
        JsonValue::String(text) => SystemInstruction::Text(text.clone()),
        JsonValue::Array(items) => {
            proof {
                crate::json::lemma_array_view(*items);
            }
            let ghost vs = Seq::new(items@.len(), |i: int| items@[i]@);
            let mut bs: Vec<SystemBlock> = Vec::new();
            let mut i: usize = 0;
            assert(vs.subrange(0, 0) =~= Seq::<Json>::empty());
            while i < items.len()
                invariant
                    i <= items.len(),
                    vs == Seq::new(items@.len(), |i: int| items@[i]@),
                    filter_mapped(
                        vs.subrange(0, i as int),
                        bs@,
                        |j: Json| json_get_str(j, "text"@) is Some,
                        |j: Json, b: SystemBlock| system_block_decodes(j, b),
                    ),
                decreases items.len() - i,
            {
                proof {
                    lemma_prefix_push(vs, i as int);
                }
                match items[i].get_str("text") {
                    Some(text) => {
                        let b = SystemBlock { block_type: String::from_str("text"), text };
                        proof {
                            lemma_filter_mapped_push(
                                vs.subrange(0, i as int),
                                bs@,
                                |j: Json| json_get_str(j, "text"@) is Some,
                                |j: Json, b: SystemBlock| system_block_decodes(j, b),
                                vs[i as int],
                                b,
                            );
                        }
                        bs.push(b);
                    },
                    None => {
                        proof {
                            lemma_filter_mapped_push(
                                vs.subrange(0, i as int),
                                bs@,
                                |j: Json| json_get_str(j, "text"@) is Some,
                                |j: Json, b: SystemBlock| system_block_decodes(j, b),
                                vs[i as int],
                                arbitrary(),
                            );
                        }
                    },
                }
                i = i + 1;
            }
            assert(vs.subrange(0, vs.len() as int) =~= vs);
            SystemInstruction::Blocks(bs)
        },
        _ => SystemInstruction::Text(j.to_json_string()),
    }
}

/// The error of the first message among `ms` whose blocks cannot be decoded.
pub open spec fn messages_error(ms: Seq<MessagesMessage>) -> Option<Seq<char>>
    decreases ms.len(),
{
    if ms.len() == 0 {
        None
    } else {
        match messages_error(ms.drop_last()) {
            Some(e) => Some(e),
            None => message_error(ms.last()),
        }
    }
}

/// Why an Anthropic message cannot be decoded, if it cannot.
pub open spec fn message_error(m: MessagesMessage) -> Option<Seq<char>> {
    match m.content {
        MessagesContent::Blocks(bs) => blocks_error(bs@),
        MessagesContent::Text(_) => None,
    }
}

/// `m` is the canonical form of the Anthropic message `w`: an unknown role
/// is taken as the user's.
pub open spec fn message_decodes(w: MessagesMessage, m: Message) -> bool {
    &&& m.role == if w.role@ == "assistant"@ {
        Role::Assistant
    } else {
        Role::User
    }
    &&& m.content matches MessageContent::Blocks(bs) && match w.content {
        MessagesContent::Text(t) => bs@.len() == 1 && (bs@[0] matches ContentBlock::Text(tc) && tc.text@ == t@),
        MessagesContent::Blocks(wbs) => blocks_decode(wbs@, bs@),
    }
}

/// `t` is the canonical form of the Anthropic tool definition `w`.
pub open spec fn tool_def_decodes(w: AnthropicToolDefinition, t: ToolDefinition) -> bool {
    &&& t.name@ == w.name@
    &&& t.description == w.description
    &&& t.input_schema matches Some(j) && j@ == w.input_schema@
    &&& t.deferred is None
    &&& t.extra@.len() == 0
}

/// The canonical tool choice of an Anthropic one.
pub open spec fn tool_choice_decodes(w: Option<AnthropicToolChoice>, c: Option<ToolChoice>) -> bool {
    match w {
        None => c is None,
        Some(AnthropicToolChoice::Auto) => c matches Some(ToolChoice::Auto),
        Some(AnthropicToolChoice::Any) => c matches Some(ToolChoice::Required),
        Some(AnthropicToolChoice::Tool { name }) => c matches Some(ToolChoice::Named { name: n }) && n@ == name@,
    }
}

/// `c` is the canonical form of the Anthropic request `w`.
///
/// Fields of the body that no other field names are kept as the Anthropic
/// extension, an object of those fields in order; with no such fields there
/// is no Anthropic extension.
pub open spec fn request_decodes(w: MessagesRequest, c: CanonicalRequest) -> bool {
    &&& c.model@ == w.model@
    &&& match w.system {
        Some(j) => c.system matches Some(s) && system_decodes(j@, s),
        None => c.system is None,
    }
    &&& mapped(w.messages@, c.messages@, |w: MessagesMessage, m: Message| message_decodes(w, m))
    &&& c.temperature == w.temperature
    &&& c.top_p == w.top_p
    &&& c.max_tokens == Some(w.max_tokens)
    &&& c.stop@ == match w.stop_sequences {
        Some(v) => v@,
        None => Seq::empty(),
    }
    &&& mapped(match w.tools {
        Some(v) => v@,
        None => Seq::empty(),
    }, c.tools@, |w: AnthropicToolDefinition, t: ToolDefinition| tool_def_decodes(w, t))
    &&& tool_choice_decodes(w.tool_choice, c.tool_choice)
    &&& c.stream == w.stream
    &&& c.response_format is None
    &&& opt_json_view(c.metadata) == opt_json_view(w.metadata)
    &&& c.extensions.openai is None
    &&& if w.extra@.len() == 0 {
        c.extensions.anthropic is None
    } else {
        c.extensions.anthropic matches Some(j) && j@ == Json::Object(entries_view(w.extra@))
    }
}

/// Decode an Anthropic message.
fn decode_message(msg: &MessagesMessage) -> (r: Result<Message, ProtocolEngineError>)
    ensures
        match r {
            Ok(m) => message_error(*msg) is None && message_decodes(*msg, m),
            Err(e) => message_error(*msg) matches Some(t) && (e matches ProtocolEngineError::InvalidPayload { message } && message@ == t),
        },
{
    let role = if str_is(msg.role.as_str(), "assistant") {
        Role::Assistant
    } else {
        // "user", and any role Anthropic does not define.
        Role::User
    };
    let blocks = match &msg.content {
        MessagesContent::Text(text) => vec![ContentBlock::Text(TextContent { text: text.clone() })],
        MessagesContent::Blocks(anthro_blocks) => {
            match decode_content_blocks(anthro_blocks.as_slice()) {
                Ok(v) => v,
                Err(e) => {
                    return Err(e);
                },
            }
        },
    };
    Ok(Message { role, content: MessageContent::Blocks(blocks) })
}

/// The first message error of `ms` is that of its first `n` messages, when
/// they have one.
proof fn lemma_messages_error_prefix(ms: Seq<MessagesMessage>, n: int)
    requires
        0 <= n <= ms.len(),
        messages_error(ms.subrange(0, n)) is Some,
    ensures
        messages_error(ms) == messages_error(ms.subrange(0, n)),
    decreases ms.len() - n,
{
    if n < ms.len() {
        assert(ms.subrange(0, n + 1).drop_last() =~= ms.subrange(0, n));
        lemma_messages_error_prefix(ms, n + 1);
    } else {
        assert(ms.subrange(0, n) =~= ms);
    }
}

/// Decode an Anthropic Messages request into a canonical request. It fails
/// exactly when a message holds an image whose source is of an unknown kind;
/// the error names the first such kind.
pub fn decode_request(req: MessagesRequest) -> (r: Result<CanonicalRequest, ProtocolEngineError>)
    ensures
        match r {
            Ok(c) => messages_error(req.messages@) is None && request_decodes(req, c),
            Err(e) => messages_error(req.messages@) matches Some(t) && (e matches ProtocolEngineError::InvalidPayload { message } && message@ == t),
        },
{
    let system = match &req.system {
        Some(j) => Some(decode_system(j)),
        None => None,
    };

    let mut messages: Vec<Message> = Vec::new();
    let mut i: usize = 0;
    assert(req.messages@.subrange(0, 0) =~= Seq::<MessagesMessage>::empty());
    while i < req.messages.len()
        invariant
            i <= req.messages@.len(),
            messages_error(req.messages@.subrange(0, i as int)) is None,
            messages@.len() == i,
            forall|k: int| 0 <= k < i ==> message_decodes(#[trigger] req.messages@[k], messages@[k]),
        decreases req.messages@.len() - i,
    {
        proof {
            lemma_prefix_push(req.messages@, i as int);
            assert(req.messages@.subrange(0, i + 1).drop_last() =~= req.messages@.subrange(0, i as int));
        }
        match decode_message(&req.messages[i]) {
            Ok(m) => {
                messages.push(m);
            },
            Err(e) => {
                proof {
                    lemma_messages_error_prefix(req.messages@, i as int + 1);
                }
                return Err(e);
            },
        }
        i = i + 1;
    }
    assert(req.messages@.subrange(0, req.messages@.len() as int) =~= req.messages@);

    let mut tools: Vec<ToolDefinition> = Vec::new();
    match &req.tools {
        Some(ws) => {
            let mut k: usize = 0;
            while k < ws.len()
                invariant
                    k <= ws@.len(),
                    tools@.len() == k,
                    forall|j: int| 0 <= j < k ==> tool_def_decodes(#[trigger] ws@[j], tools@[j]),
                decreases ws@.len() - k,
            {
                let t = &ws[k];
                tools.push(
                    ToolDefinition {
                        name: t.name.clone(),
                        description: clone_opt_string(&t.description),
                        input_schema: Some(t.input_schema.deep_clone()),
                        deferred: None,
                        extra: Vec::new(),
                    },
                );
                k = k + 1;
            }
        },
        None => {},
    }

    let tool_choice = match &req.tool_choice {
        None => None,
        Some(AnthropicToolChoice::Auto) => Some(ToolChoice::Auto),
        Some(AnthropicToolChoice::Any) => Some(ToolChoice::Required),
        Some(AnthropicToolChoice::Tool { name }) => Some(ToolChoice::Named { name: name.clone() }),
    };

    let stop = match &req.stop_sequences {
        Some(v) => clone_strings(v),
        None => Vec::new(),
    };

    let anthropic = if req.extra.len() == 0 {
        None
    } else {
        let mut es: Vec<(String, JsonValue)> = Vec::new();
        let mut i: usize = 0;
        while i < req.extra.len()
            invariant
                i <= req.extra@.len(),
                es@.len() == i,
                forall|q: int| 0 <= q < i ==> es@[q].0@ == #[trigger] req.extra@[q].0@ && es@[q].1@ == req.extra@[q].1@,
            decreases req.extra@.len() - i,
        {
            es.push((req.extra[i].0.clone(), req.extra[i].1.deep_clone()));
            i = i + 1;
        }
        assert(entries_view(es@) =~= entries_view(req.extra@));
        Some(crate::json::object_of(es))
    };

    Ok(
        CanonicalRequest {
            model: req.model.clone(),
            messages,
            system,
            temperature: clone_opt_string(&req.temperature),
            top_p: clone_opt_string(&req.top_p),
            max_tokens: Some(req.max_tokens),
            stop,
            tools,
            tool_choice,
            stream: req.stream,
            response_format: None,
            metadata: clone_opt_json(&req.metadata),
            extensions: ProviderExtensions { anthropic, openai: None },
        },
    )
}

// ─── Responses ──────────────────────────────────────────────────────────────

/// `c` is the canonical form of the Anthropic response block `w`.
pub open spec fn response_block_decodes(w: MessagesResponseBlock, c: ContentBlock) -> bool {
    match w {
        MessagesResponseBlock::Text { text } => c matches ContentBlock::Text(t) && t.text@ == text@,
        MessagesResponseBlock::Thinking { thinking, signature } => c matches ContentBlock::Reasoning(r)
            && r.thinking@ == thinking@ && r.signature == signature,
        MessagesResponseBlock::ToolUse { id, name, input } => c matches ContentBlock::ToolUse(tu)
            && tu.id@ == id@ && tu.name@ == name@ && tu.input@ == input@,
    }
}

/// The JSON object `{"stop_sequence": s}`.
pub open spec fn stop_sequence_json(s: Seq<char>) -> Json {
    Json::Object(seq![("stop_sequence"@, Json::Str(s))])
}

/// `c` is the canonical form of the Anthropic response `w`.
pub open spec fn response_decodes(w: MessagesResponse, c: CanonicalResponse) -> bool {
    &&& c.id@ == w.id@
    &&& c.model@ == w.model@
    &&& mapped(w.content@, c.content@, |w: MessagesResponseBlock, c: ContentBlock| response_block_decodes(w, c))
    &&& match w.stop_reason {
        Some(s) => c.finish_reason matches Some(f) && spec_decode_stop_reason(s@, f),
        None => c.finish_reason is None,
    }
    &&& c.usage == Some(
        Usage {
            input_tokens: Some(w.usage.input_tokens),
            output_tokens: Some(w.usage.output_tokens),
            total_tokens: Some((w.usage.input_tokens + w.usage.output_tokens) as u32),
            cache_creation_input_tokens: w.usage.cache_creation_input_tokens,
            cache_read_input_tokens: w.usage.cache_read_input_tokens,
        },
    )
    &&& match w.stop_sequence {
        Some(s) => c.extensions.anthropic matches Some(j) && j@ == stop_sequence_json(s@),
        None => c.extensions.anthropic is None,
    }
    &&& c.extensions.openai is None
}

/// Decode an Anthropic Messages response into a canonical response. The
/// total token count is the sum of the input and output counts.
pub fn decode_response(resp: MessagesResponse) -> (r: Result<CanonicalResponse, ProtocolEngineError>)
    requires
        resp.usage.input_tokens + resp.usage.output_tokens <= u32::MAX,
    ensures
        r matches Ok(c) && response_decodes(resp, c),
{
    let mut content: Vec<ContentBlock> = Vec::new();
    let mut i: usize = 0;
    while i < resp.content.len()
        invariant
            i <= resp.content@.len(),
            content@.len() == i,
            forall|k: int| 0 <= k < i ==> response_block_decodes(#[trigger] resp.content@[k], content@[k]),
        decreases resp.content@.len() - i,
    {
        let c = match &resp.content[i] {
            MessagesResponseBlock::Text { text } => ContentBlock::Text(TextContent { text: text.clone() }),
            MessagesResponseBlock::Thinking { thinking, signature } => ContentBlock::Reasoning(
                ReasoningContent { thinking: thinking.clone(), signature: clone_opt_string(signature) },
            ),
            MessagesResponseBlock::ToolUse { id, name, input } => ContentBlock::ToolUse(
                ToolUseBlock { id: id.clone(), name: name.clone(), input: input.deep_clone() },
            ),
        };
        content.push(c);
        i = i + 1;
    }

    let finish_reason = match &resp.stop_reason {
        Some(s) => Some(decode_stop_reason(s.as_str())),
        None => None,
    };

    let usage = Some(
        Usage {
            input_tokens: Some(resp.usage.input_tokens),
            output_tokens: Some(resp.usage.output_tokens),
            total_tokens: Some(resp.usage.input_tokens + resp.usage.output_tokens),
            cache_creation_input_tokens: resp.usage.cache_creation_input_tokens,
            cache_read_input_tokens: resp.usage.cache_read_input_tokens,
        },
    );

    let anthropic = match &resp.stop_sequence {
        Some(s) => {
            let mut es: Vec<(String, JsonValue)> = Vec::new();
            es.push((String::from_str("stop_sequence"), JsonValue::String(s.clone())));
            proof {
                crate::json::lemma_object_view(es);
            }
            let j = JsonValue::Object(es);
            assert(j@ == stop_sequence_json(s@)) by {
                let t = Seq::new(es@.len(), |i: int| (es@[i].0@, es@[i].1@));
                if let Json::Object(o) = stop_sequence_json(s@) {
                    assert(t =~= o);
                }
            }
            Some(j)
        },
        None => None,
    };

    Ok(
        CanonicalResponse {
            id: resp.id.clone(),
            model: resp.model.clone(),
            content,
            finish_reason,
            usage,
            extensions: ProviderExtensions { anthropic, openai: None },
        },
    )
}

/// Why a canonical response block cannot be sent in an Anthropic response:
/// images and audio cannot be model output.
pub open spec fn response_block_error(b: ContentBlock) -> Option<(Seq<char>, Seq<char>)> {
    match b {
        ContentBlock::Image(_) => Some(
            ("image_output"@, "Anthropic Messages does not support image output"@),
        ),
        ContentBlock::Audio(_) => Some(
            ("audio_output"@, "Anthropic Messages does not support audio output"@),
        ),
        _ => None,
    }
}

/// The error of the first block among `bs` that cannot be sent.
pub open spec fn response_blocks_error(bs: Seq<ContentBlock>) -> Option<(Seq<char>, Seq<char>)>
    decreases bs.len(),
{
    if bs.len() == 0 {
        None
    } else {
        match response_blocks_error(bs.drop_last()) {
            Some(e) => Some(e),
            None => response_block_error(bs.last()),
        }
    }
}

/// Whether a canonical block appears in an Anthropic response: tool results
/// and tool references do not.
pub open spec fn response_block_has_form(b: ContentBlock) -> bool {
    b is Text || b is ToolUse || b is Reasoning
}

/// `w` is the Anthropic form of the canonical response block `b`.
pub open spec fn response_block_encodes(b: ContentBlock, w: MessagesResponseBlock) -> bool {
    match b {
        ContentBlock::Text(t) => w matches MessagesResponseBlock::Text { text } && text@ == t.text@,
        ContentBlock::ToolUse(tu) => w matches MessagesResponseBlock::ToolUse { id, name, input }
            && id@ == tu.id@ && name@ == tu.name@ && input@ == tu.input@,
        ContentBlock::Reasoning(r) => w matches MessagesResponseBlock::Thinking { thinking, signature }
            && thinking@ == r.thinking@ && signature == r.signature,
        _ => false,
    }
}

/// The Anthropic usage of canonical usage: absent counts are zero.
pub open spec fn usage_encodes(u: Option<Usage>, w: MessagesUsage) -> bool {
    match u {
        Some(u) => w.input_tokens == (match u.input_tokens {
            Some(n) => n,
            None => 0,
        }) && w.output_tokens == (match u.output_tokens {
            Some(n) => n,
            None => 0,
        }) && w.cache_creation_input_tokens == u.cache_creation_input_tokens
            && w.cache_read_input_tokens == u.cache_read_input_tokens,
        None => w.input_tokens == 0 && w.output_tokens == 0 && w.cache_creation_input_tokens is None
            && w.cache_read_input_tokens is None,
    }
}

/// `w` is the Anthropic form of the canonical response `c`; the stop
/// sequence comes from the Anthropic extension's `stop_sequence` string.
pub open spec fn response_encodes(c: CanonicalResponse, w: MessagesResponse) -> bool {
    &&& w.id@ == c.id@
    &&& w.model@ == c.model@
    &&& w.role@ == "assistant"@
    &&& filter_mapped(c.content@, w.content@, |b: ContentBlock| response_block_has_form(b), |b: ContentBlock, w: MessagesResponseBlock| response_block_encodes(b, w))
    &&& match c.finish_reason {
        Some(f) => w.stop_reason matches Some(s) && s@ == spec_encode_stop_reason(f),
        None => w.stop_reason is None,
    }
    &&& usage_encodes(c.usage, w.usage)
    &&& match c.extensions.anthropic {
        Some(j) => match json_get_str(j@, "stop_sequence"@) {
            Some(s) => w.stop_sequence matches Some(t) && t@ == s,
            None => w.stop_sequence is None,
        },
        None => w.stop_sequence is None,
    }
}

proof fn lemma_response_blocks_error_prefix(bs: Seq<ContentBlock>, n: int)
    requires
        0 <= n <= bs.len(),
        response_blocks_error(bs.subrange(0, n)) is Some,
    ensures
        response_blocks_error(bs) == response_blocks_error(bs.subrange(0, n)),
    decreases bs.len() - n,
{
    if n < bs.len() {
        assert(bs.subrange(0, n + 1).drop_last() =~= bs.subrange(0, n));
        lemma_response_blocks_error_prefix(bs, n + 1);
    } else {
        assert(bs.subrange(0, n) =~= bs);
    }
}

/// Encode a canonical response into an Anthropic Messages response. It
/// fails exactly when the content holds an image or audio, with the error of
/// the first such block.
pub fn encode_response(resp: &CanonicalResponse) -> (r: Result<MessagesResponse, ProtocolEngineError>)
    ensures
        match r {
            Ok(w) => response_blocks_error(resp.content@) is None && response_encodes(*resp, w),
            Err(e) => response_blocks_error(resp.content@) matches Some(fr) && (e matches ProtocolEngineError::UnsupportedFeature { feature, reason } && feature@ == fr.0 && reason@ == fr.1),
        },
{
    let mut content: Vec<MessagesResponseBlock> = Vec::new();
    let mut i: usize = 0;
    assert(resp.content@.subrange(0, 0) =~= Seq::<ContentBlock>::empty());
    while i < resp.content.len()
        invariant
            i <= resp.content@.len(),
            response_blocks_error(resp.content@.subrange(0, i as int)) is None,
            filter_mapped(resp.content@.subrange(0, i as int), content@, |b: ContentBlock| response_block_has_form(b), |b: ContentBlock, w: MessagesResponseBlock| response_block_encodes(b, w)),
        decreases resp.content@.len() - i,
    {
        proof {
            lemma_prefix_push(resp.content@, i as int);
            assert(resp.content@.subrange(0, i + 1).drop_last() =~= resp.content@.subrange(0, i as int));
        }
        let w: Option<MessagesResponseBlock> = match &resp.content[i] {
            ContentBlock::Text(t) => Some(MessagesResponseBlock::Text { text: t.text.clone() }),
            ContentBlock::ToolUse(tu) => Some(
                MessagesResponseBlock::ToolUse {
                    id: tu.id.clone(),
                    name: tu.name.clone(),
                    input: tu.input.deep_clone(),
                },
            ),
            ContentBlock::Reasoning(thinking) => Some(
                MessagesResponseBlock::Thinking {
                    thinking: thinking.thinking.clone(),
                    signature: clone_opt_string(&thinking.signature),
                },
            ),
            ContentBlock::Image(_) => {
                proof {
                    lemma_response_blocks_error_prefix(resp.content@, i as int + 1);
                }
                return Err(
                    ProtocolEngineError::UnsupportedFeature {
                        feature: String::from_str("image_output"),
                        reason: String::from_str("Anthropic Messages does not support image output"),
                    },
                );
            },
            ContentBlock::ToolResult(_) | ContentBlock::ToolReference(_) => None,
            ContentBlock::Audio(_) => {
                proof {
                    lemma_response_blocks_error_prefix(resp.content@, i as int + 1);
                }
                return Err(
                    ProtocolEngineError::UnsupportedFeature {
                        feature: String::from_str("audio_output"),
                        reason: String::from_str("Anthropic Messages does not support audio output"),
                    },
                );
            },
        };
        match w {
            Some(w) => {
                proof {
                    lemma_filter_mapped_push(
                        resp.content@.subrange(0, i as int),
                        content@,
                        |b: ContentBlock| response_block_has_form(b),
                        |b: ContentBlock, w: MessagesResponseBlock| response_block_encodes(b, w),
                        resp.content@[i as int],
                        w,
                    );
                }
                content.push(w);
            },
            None => {
                proof {
                    lemma_filter_mapped_push(
                        resp.content@.subrange(0, i as int),
                        content@,
                        |b: ContentBlock| response_block_has_form(b),
                        |b: ContentBlock, w: MessagesResponseBlock| response_block_encodes(b, w),
                        resp.content@[i as int],
                        arbitrary(),
                    );
                }
            },
        }
        i = i + 1;
    }
    assert(resp.content@.subrange(0, resp.content@.len() as int) =~= resp.content@);

    let stop_reason = match &resp.finish_reason {
        Some(f) => Some(encode_stop_reason(f)),
        None => None,
    };
    let usage = match &resp.usage {
        Some(u) => MessagesUsage {
            input_tokens: match u.input_tokens {
                Some(n) => n,
                None => 0,
            },
            output_tokens: match u.output_tokens {
                Some(n) => n,
                None => 0,
            },
            cache_creation_input_tokens: u.cache_creation_input_tokens,
            cache_read_input_tokens: u.cache_read_input_tokens,
        },
        None => MessagesUsage {
            input_tokens: 0,
            output_tokens: 0,
            cache_creation_input_tokens: None,
            cache_read_input_tokens: None,
        },
    };
    let stop_sequence = match &resp.extensions.anthropic {
        Some(j) => j.get_str("stop_sequence"),
        None => None,
    };
    Ok(
        MessagesResponse {
            id: resp.id.clone(),
            model: resp.model.clone(),
            role: String::from_str("assistant"),
            content,
            stop_reason,
            stop_sequence,
            usage,
        },
    )
}

// ─── Stream events ──────────────────────────────────────────────────────────

/// Anthropic usage with every count zero and no cache counts.
pub open spec fn is_zero_usage(u: MessagesUsage) -> bool {
    u.input_tokens == 0 && u.output_tokens == 0 && u.cache_creation_input_tokens is None
        && u.cache_read_input_tokens is None
}

/// `out` is the Anthropic stream event for the canonical event `e` in the
/// response `response_id` of `model`, or none when `e` has no Anthropic
/// equivalent.
pub open spec fn stream_event_encodes(
    e: CanonicalStreamEvent,
    response_id: Seq<char>,
    model: Seq<char>,
    out: Option<MessagesStreamEvent>,
) -> bool {
    match e {
        CanonicalStreamEvent::MessageStart { .. } => out matches Some(
            MessagesStreamEvent::MessageStart { message },
        ) && message.id@ == response_id && message.model@ == model && message.role@ == "assistant"@
            && message.content@.len() == 0 && message.stop_reason is None && is_zero_usage(
            message.usage,
        ),
        CanonicalStreamEvent::ContentBlockStart { index, content_block } => match content_block {
            ContentBlock::Text(_) | ContentBlock::ToolUse(_) | ContentBlock::Reasoning(_) => out matches Some(
                MessagesStreamEvent::ContentBlockStart { index: i, content_block: w },
            ) && i == index && response_block_encodes(content_block, w),
            _ => out is None,
        },
        CanonicalStreamEvent::TextDelta { index, text } => out matches Some(
            MessagesStreamEvent::ContentBlockDelta { index: i, delta: MessagesDelta::TextDelta { text: t } },
        ) && i == index && t@ == text@,
        CanonicalStreamEvent::ToolCallDelta { index, input_json_delta, .. } => match input_json_delta {
            Some(d) => out matches Some(
                MessagesStreamEvent::ContentBlockDelta {
                    index: i,
                    delta: MessagesDelta::InputJsonDelta { partial_json },
                },
            ) && i == index && partial_json@ == d@,
            None => out is None,
        },
        CanonicalStreamEvent::AudioDelta { .. } => out is None,
        CanonicalStreamEvent::ReasoningDelta { index, thinking } => out matches Some(
            MessagesStreamEvent::ContentBlockDelta {
                index: i,
                delta: MessagesDelta::ThinkingDelta { thinking: t },
            },
        ) && i == index && t@ == thinking@,
        CanonicalStreamEvent::ReasoningSignature { index, signature } => out matches Some(
            MessagesStreamEvent::ContentBlockDelta {
                index: i,
                delta: MessagesDelta::SignatureDelta { signature: sg },
            },
        ) && i == index && sg@ == signature@,
        CanonicalStreamEvent::ContentBlockStop { index } => out matches Some(
            MessagesStreamEvent::ContentBlockStop { index: i },
        ) && i == index,
        CanonicalStreamEvent::MessageDelta { stop_reason, .. } => out matches Some(
            MessagesStreamEvent::MessageDelta { delta, usage },
        ) && is_zero_usage(usage) && delta.stop_sequence is None && match stop_reason {
            Some(f) => delta.stop_reason matches Some(s) && s@ == spec_encode_stop_reason(f),
            None => delta.stop_reason is None,
        },
        CanonicalStreamEvent::Usage { usage } => out matches Some(
            MessagesStreamEvent::MessageDelta { delta, usage: w },
        ) && delta.stop_reason is None && delta.stop_sequence is None && usage_encodes(Some(usage), w),
        CanonicalStreamEvent::MessageStop => out matches Some(MessagesStreamEvent::MessageStop),
        CanonicalStreamEvent::Ping => out matches Some(MessagesStreamEvent::Ping),
        CanonicalStreamEvent::Error { message, .. } => out matches Some(
            MessagesStreamEvent::Error { error },
        ) && error.error_type@ == "api_error"@ && error.message@ == message@,
    }
}

fn zero_usage() -> (u: MessagesUsage)
    ensures
        is_zero_usage(u),
{
    MessagesUsage {
        input_tokens: 0,
        output_tokens: 0,
        cache_creation_input_tokens: None,
        cache_read_input_tokens: None,
    }
}

/// Translate a canonical stream event to an Anthropic Messages stream event;
/// none for events that have no Anthropic equivalent (audio, and the start
/// of a block other than text, tool use or reasoning).
pub fn encode_stream_event(event: &CanonicalStreamEvent, response_id: &str, model: &str) -> (r: Result<
    Option<MessagesStreamEvent>,
    ProtocolEngineError,
>)
    ensures
        r matches Ok(out) && stream_event_encodes(*event, response_id@, model@, out),
{
    let out = match event {
        CanonicalStreamEvent::MessageStart { .. } => Some(
            MessagesStreamEvent::MessageStart {
                message: MessagesStreamMessageInfo {
                    id: String::from_str(response_id),
                    model: String::from_str(model),
                    role: String::from_str("assistant"),
                    content: Vec::new(),
                    stop_reason: None,
                    usage: zero_usage(),
                },
            },
        ),
        CanonicalStreamEvent::ContentBlockStart { index, content_block } => match content_block {
            ContentBlock::Text(t) => Some(
                MessagesStreamEvent::ContentBlockStart {
                    index: *index,
                    content_block: MessagesResponseBlock::Text { text: t.text.clone() },
                },
            ),
            ContentBlock::ToolUse(tu) => Some(
                MessagesStreamEvent::ContentBlockStart {
                    index: *index,
                    content_block: MessagesResponseBlock::ToolUse {
                        id: tu.id.clone(),
                        name: tu.name.clone(),
                        input: tu.input.deep_clone(),
                    },
                },
            ),
            ContentBlock::Reasoning(thinking) => Some(
                MessagesStreamEvent::ContentBlockStart {
                    index: *index,
                    content_block: MessagesResponseBlock::Thinking {
                        thinking: thinking.thinking.clone(),
                        signature: clone_opt_string(&thinking.signature),
                    },
                },
            ),
            _ => None,
        },
        CanonicalStreamEvent::TextDelta { index, text } => Some(
            MessagesStreamEvent::ContentBlockDelta {
                index: *index,
                delta: MessagesDelta::TextDelta { text: text.clone() },
            },
        ),
        CanonicalStreamEvent::ToolCallDelta { index, input_json_delta, .. } => match input_json_delta {
            Some(delta) => Some(
                MessagesStreamEvent::ContentBlockDelta {
                    index: *index,
                    delta: MessagesDelta::InputJsonDelta { partial_json: delta.clone() },
                },
            ),
            None => None,
        },
        CanonicalStreamEvent::AudioDelta { .. } => None,
        CanonicalStreamEvent::ReasoningDelta { index, thinking } => Some(
            MessagesStreamEvent::ContentBlockDelta {
                index: *index,
                delta: MessagesDelta::ThinkingDelta { thinking: thinking.clone() },
            },
        ),
        CanonicalStreamEvent::ReasoningSignature { index, signature } => Some(
            MessagesStreamEvent::ContentBlockDelta {
                index: *index,
                delta: MessagesDelta::SignatureDelta { signature: signature.clone() },
            },
        ),
        CanonicalStreamEvent::ContentBlockStop { index } => Some(
            MessagesStreamEvent::ContentBlockStop { index: *index },
        ),
        CanonicalStreamEvent::MessageDelta { stop_reason, .. } => {
            let stop_reason_str = match stop_reason {
                Some(f) => Some(encode_stop_reason(f)),
                None => None,
            };
            Some(
                MessagesStreamEvent::MessageDelta {
                    delta: MessagesMessageDelta { stop_reason: stop_reason_str, stop_sequence: None },
                    usage: zero_usage(),
                },
            )
        },
        CanonicalStreamEvent::Usage { usage } => Some(
            MessagesStreamEvent::MessageDelta {
                delta: MessagesMessageDelta { stop_reason: None, stop_sequence: None },
                usage: MessagesUsage {
                    input_tokens: match usage.input_tokens {
                        Some(n) => n,
                        None => 0,
                    },
                    output_tokens: match usage.output_tokens {
                        Some(n) => n,
                        None => 0,
                    },
                    cache_creation_input_tokens: usage.cache_creation_input_tokens,
                    cache_read_input_tokens: usage.cache_read_input_tokens,
                },
            },
        ),
        CanonicalStreamEvent::MessageStop => Some(MessagesStreamEvent::MessageStop),
        CanonicalStreamEvent::Ping => Some(MessagesStreamEvent::Ping),
        CanonicalStreamEvent::Error { message, .. } => Some(
            MessagesStreamEvent::Error {
                error: MessagesErrorDetail {
                    error_type: String::from_str("api_error"),
                    message: message.clone(),
                },
            },
        ),
    };
    Ok(out)
}

// ─── Laws ───────────────────────────────────────────────────────────────────

/// Two canonical blocks hold the same text, tool call or reasoning.
pub open spec fn same_block(a: ContentBlock, b: ContentBlock) -> bool {
    match (a, b) {
        (ContentBlock::Text(x), ContentBlock::Text(y)) => x.text@ == y.text@,
        (ContentBlock::ToolUse(x), ContentBlock::ToolUse(y)) => x.id@ == y.id@ && x.name@ == y.name@ && x.input@ == y.input@,
        (ContentBlock::Reasoning(x), ContentBlock::Reasoning(y)) => x.thinking@ == y.thinking@ && x.signature == y.signature,
        _ => false,
    }
}

/// The stop reasons Anthropic names.
pub open spec fn is_anthropic_stop_name(s: Seq<char>) -> bool {
    s == "end_turn"@ || s == "stop_sequence"@ || s == "max_tokens"@ || s == "tool_use"@
}

/// A finish reason survives a trip through an Anthropic stop reason,
/// except content filtering and errors (both sent as `end_turn`) and an
/// other reason spelled like one of Anthropic's own.
pub proof fn stop_reason_round_trip(r: FinishReason, d: FinishReason)
    requires
        spec_decode_stop_reason(spec_encode_stop_reason(r), d),
        !(r is ContentFilter),
        !(r is Error),
        r matches FinishReason::Other(s) ==> !is_anthropic_stop_name(s@),
    ensures
        match r {
            FinishReason::Other(s) => d matches FinishReason::Other(t) && t@ == s@,
            _ => d == r,
        },
{
    reveal_strlit("end_turn");
    reveal_strlit("stop_sequence");
    reveal_strlit("max_tokens");
    reveal_strlit("tool_use");
    assert("end_turn"@.len() == 8 && "stop_sequence"@.len() == 13 && "max_tokens"@.len() == 10 && "tool_use"@.len() == 8);
    assert("end_turn"@[0] != "tool_use"@[0]);
}

/// A tool choice survives a trip through Anthropic, except `none`, which
/// Anthropic cannot say and which comes back as no choice.
pub proof fn tool_choice_round_trip(c: Option<ToolChoice>, w: Option<AnthropicToolChoice>, d: Option<ToolChoice>)
    requires
        tool_choice_encodes(c, w),
        tool_choice_decodes(w, d),
    ensures
        match c {
            None => d is None,
            Some(ToolChoice::NoTools) => d is None,
            Some(ToolChoice::Auto) => d matches Some(ToolChoice::Auto),
            Some(ToolChoice::Required) => d matches Some(ToolChoice::Required),
            Some(ToolChoice::Named { name }) => d matches Some(ToolChoice::Named { name: n }) && n@ == name@,
        },
{
}

/// A response whose content is text, tool calls and reasoning keeps its
/// identity and its content, block for block, through an Anthropic
/// response.
pub proof fn response_round_trip(c: CanonicalResponse, w: MessagesResponse, d: CanonicalResponse)
    requires
        forall|i: int| 0 <= i < c.content@.len() ==> response_block_has_form(#[trigger] c.content@[i]),
        response_encodes(c, w),
        response_decodes(w, d),
    ensures
        d.id@ == c.id@,
        d.model@ == c.model@,
        d.content@.len() == c.content@.len(),
        forall|i: int| 0 <= i < c.content@.len() ==> same_block(#[trigger] c.content@[i], d.content@[i]),
{
    crate::adapters::lemma_filter_mapped_all(
        c.content@,
        w.content@,
        |b: ContentBlock| response_block_has_form(b),
        |b: ContentBlock, w: MessagesResponseBlock| response_block_encodes(b, w),
    );
    assert forall|i: int| 0 <= i < c.content@.len() implies same_block(#[trigger] c.content@[i], d.content@[i]) by {
        assert(response_block_encodes(c.content@[i], w.content@[i]));
        crate::adapters::lemma_mapped_at(w.content@, d.content@, |w: MessagesResponseBlock, c: ContentBlock| response_block_decodes(w, c), i);
    }
}

/// A request's tool definitions come back through an Anthropic request in
/// order, with their names and descriptions, and with their schemas where
/// they have one (a tool without a schema comes back with the empty object
/// schema that Anthropic requires).
pub proof fn tools_round_trip(req: CanonicalRequest, w: MessagesRequest, d: CanonicalRequest)
    requires
        request_encodes(req, w),
        request_decodes(w, d),
    ensures
        d.tools@.len() == req.tools@.len(),
        forall|i: int| 0 <= i < req.tools@.len() ==> (#[trigger] d.tools@[i]).name@ == req.tools@[i].name@
            && d.tools@[i].description == req.tools@[i].description
            && (req.tools@[i].input_schema is Some ==> opt_json_view(d.tools@[i].input_schema) == opt_json_view(
            req.tools@[i].input_schema,
        )),
{
    if req.tools@.len() > 0 {
        let ws = w.tools->0@;
        assert forall|i: int| 0 <= i < req.tools@.len() implies (#[trigger] d.tools@[i]).name@ == req.tools@[i].name@
            && d.tools@[i].description == req.tools@[i].description
            && (req.tools@[i].input_schema is Some ==> opt_json_view(d.tools@[i].input_schema) == opt_json_view(
            req.tools@[i].input_schema,
        )) by {
            crate::adapters::lemma_mapped_at(req.tools@, ws, |t: ToolDefinition, w: AnthropicToolDefinition| tool_def_encodes(t, w), i);
            crate::adapters::lemma_mapped_at(ws, d.tools@, |w: AnthropicToolDefinition, t: ToolDefinition| tool_def_decodes(w, t), i);
        }
    }
}

/// No block of a list has an error, then the list has none.
proof fn lemma_blocks_error_none(bs: Seq<MessagesContentBlock>)
    requires
        forall|k: int| 0 <= k < bs.len() ==> (#[trigger] block_error(bs[k])) is None,
    ensures
        blocks_error(bs) is None,
    decreases bs.len(),
{
    if bs.len() > 0 {
        assert forall|k: int| 0 <= k < bs.drop_last().len() implies (#[trigger] block_error(bs.drop_last()[k])) is None by {
            assert(bs.drop_last()[k] == bs[k]);
        }
        lemma_blocks_error_none(bs.drop_last());
        assert(block_error(bs[bs.len() - 1]) is None);
    }
}

/// No message of a list has an error, then the list has none.
proof fn lemma_messages_error_none(ms: Seq<MessagesMessage>)
    requires
        forall|k: int| 0 <= k < ms.len() ==> (#[trigger] message_error(ms[k])) is None,
    ensures
        messages_error(ms) is None,
    decreases ms.len(),
{
    if ms.len() > 0 {
        assert forall|k: int| 0 <= k < ms.drop_last().len() implies (#[trigger] message_error(ms.drop_last()[k])) is None by {
            assert(ms.drop_last()[k] == ms[k]);
        }
        lemma_messages_error_none(ms.drop_last());
        assert(message_error(ms[ms.len() - 1]) is None);
    }
}

/// An encoded message's blocks all decode.
proof fn lemma_encoded_message_decodes(m: Message, w: MessagesMessage)
    requires
        message_encodes(m, w),
    ensures
        message_error(w) is None,
{
    reveal_strlit("url");
    reveal_strlit("base64");
    if let MessagesContent::Blocks(bs) = w.content {
        if m.role == Role::Tool {
            assert forall|k: int| 0 <= k < bs@.len() implies (#[trigger] block_error(bs@[k])) is None by {
                let i = crate::adapters::lemma_filter_mapped_outputs(
                    spec_blocks_of(m.content),
                    bs@,
                    |b: ContentBlock| b is ToolResult,
                    |b: ContentBlock, w: MessagesContentBlock| tool_result_encodes(b, w),
                    k,
                );
            }
        } else {
            assert forall|k: int| 0 <= k < bs@.len() implies (#[trigger] block_error(bs@[k])) is None by {
                let i = crate::adapters::lemma_filter_mapped_outputs(
                    spec_blocks_of(m.content),
                    bs@,
                    |b: ContentBlock| block_has_form(b),
                    |b: ContentBlock, w: MessagesContentBlock| block_encodes(b, w),
                    k,
                );
            }
        }
        lemma_blocks_error_none(bs@);
    }
}

/// A request that the encoder builds always decodes: every Anthropic
/// message it holds has a known form.
pub proof fn encoded_request_decodes(req: CanonicalRequest, w: MessagesRequest)
    requires
        request_encodes(req, w),
    ensures
        messages_error(w.messages@) is None,
{
    assert forall|k: int| 0 <= k < w.messages@.len() implies (#[trigger] message_error(w.messages@[k])) is None by {
        let i = crate::adapters::lemma_filter_mapped_outputs(
            req.messages@,
            w.messages@,
            |m: Message| message_has_form(m),
            |m: Message, w: MessagesMessage| message_encodes(m, w),
            k,
        );
        lemma_encoded_message_decodes(req.messages@[i], w.messages@[k]);
    }
    lemma_messages_error_none(w.messages@);
}

} // verus!
