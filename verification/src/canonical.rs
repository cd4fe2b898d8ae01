//! Canonical protocol model.
//!
//! The provider-agnostic representation of LLM requests, responses and
//! stream events. Every adapter converts between one wire format and these
//! types. Provider-specific data that has no typed home is kept in explicit
//! extension fields, so translation is lossless by default.

use vstd::prelude::*;
use crate::json::JsonValue;

verus! {

// ─── Protocol identification ────────────────────────────────────────────────

/// Identifies a wire protocol family.
#[derive(Debug, Clone, Copy, PartialEq, Eq, Hash, Structural)]
pub enum Protocol {
    /// OpenAI Chat Completions API (`/v1/chat/completions`).
    OpenAiChatCompletions,
    /// Anthropic Messages API (`/v1/messages`).
    AnthropicMessages,
    /// OpenAI Responses API (`/v1/responses`).
    OpenAiResponses,
}

pub open spec fn spec_protocol_name(p: Protocol) -> Seq<char> {
    match p {
        Protocol::OpenAiChatCompletions => "openai_chat_completions"@,
        Protocol::AnthropicMessages => "anthropic_messages"@,
        Protocol::OpenAiResponses => "openai_responses"@,
    }
}

impl Protocol {
    /// The protocol's name in `snake_case` (its display form).
    pub fn to_string(&self) -> (s: String)
        ensures
            s@ == spec_protocol_name(*self),
    {
        match self {
            Protocol::OpenAiChatCompletions => String::from_str("openai_chat_completions"),
            Protocol::AnthropicMessages => String::from_str("anthropic_messages"),
            Protocol::OpenAiResponses => String::from_str("openai_responses"),
        }
    }
}

// ─── Role ───────────────────────────────────────────────────────────────────

/// Message role in a conversation.
#[derive(Debug, Clone, Copy, PartialEq, Eq, Hash, Structural)]
pub enum Role {
    System,
    User,
    Assistant,
    Tool,
}

// ─── Content blocks ─────────────────────────────────────────────────────────

/// A single content block within a message.
#[derive(Debug)]
pub enum ContentBlock {
    /// Text content.
    Text(TextContent),
    /// Image content (URL or inline base64).
    Image(ImageContent),
    /// Audio content (URL or inline base64).
    Audio(AudioContent),
    /// Model's internal reasoning/thinking content; the `signature` must be
    /// preserved for multi-turn tool-use continuation.
    Reasoning(ReasoningContent),
    /// Model is requesting to call a tool.
    ToolUse(ToolUseBlock),
    /// Client is providing the result of a tool call.
    ToolResult(ToolResultBlock),
    /// A deferred tool reference — not fully materialized.
    ToolReference(ToolReference),
}

impl ContentBlock {
    /// Return the text content if this is a text block.
    pub fn as_text(&self) -> (r: Option<&str>)
        ensures
            match self {
                ContentBlock::Text(t) => r matches Some(s) && s@ == t.text@,
                _ => r is None,
            },
    {
        match self {
            ContentBlock::Text(t) => Some(t.text.as_str()),
            _ => None,
        }
    }
}

/// `b` is a copy of the block `a`: the same fields, JSON compared by value.
pub open spec fn same_block(a: ContentBlock, b: ContentBlock) -> bool
    decreases a,
{
    match (a, b) {
        (ContentBlock::Text(x), ContentBlock::Text(y)) => x == y,
        (ContentBlock::Image(x), ContentBlock::Image(y)) => x == y,
        (ContentBlock::Audio(x), ContentBlock::Audio(y)) => x == y,
        (ContentBlock::Reasoning(x), ContentBlock::Reasoning(y)) => x == y,
        (ContentBlock::ToolUse(x), ContentBlock::ToolUse(y)) => x.id == y.id && x.name == y.name && x.input@ == y.input@,
        (ContentBlock::ToolReference(x), ContentBlock::ToolReference(y)) => x.id == y.id && x.name == y.name
            && x.description == y.description && crate::json::opt_json_view(x.input_schema)
            == crate::json::opt_json_view(y.input_schema) && x.deferred == y.deferred,
        (ContentBlock::ToolResult(x), ContentBlock::ToolResult(y)) => x.tool_use_id == y.tool_use_id && x.name == y.name
            && x.is_error == y.is_error && match (x.content, y.content) {
            (ToolResultContent::Text(s), ToolResultContent::Text(t)) => s == t,
            (ToolResultContent::Blocks(u), ToolResultContent::Blocks(w)) => u@.len() == w@.len() && forall|k: int|
                0 <= k < u@.len() ==> same_block(u@[k], #[trigger] w@[k]),
            _ => false,
        },
        _ => false,
    }
}

impl ContentBlock {
    /// A copy of this block.
    #[verifier::loop_isolation(false)]
    pub fn deep_clone(&self) -> (r: ContentBlock)
        ensures
            same_block(*self, r),
        decreases self,
    {
        match self {
            ContentBlock::Text(t) => ContentBlock::Text(TextContent { text: t.text.clone() }),
            ContentBlock::Image(i) => {
                let source = match &i.source {
                    ImageSource::Url { url, detail } => ImageSource::Url { url: url.clone(), detail: clone_opt_string(detail) },
                    ImageSource::Base64 { media_type, data } => ImageSource::Base64 {
                        media_type: media_type.clone(),
                        data: data.clone(),
                    },
                };
                ContentBlock::Image(ImageContent { source })
            },
            ContentBlock::Audio(a) => {
                let source = match &a.source {
                    AudioSource::Url { url } => AudioSource::Url { url: url.clone() },
                    AudioSource::Base64 { media_type, data, format } => AudioSource::Base64 {
                        media_type: media_type.clone(),
                        data: data.clone(),
                        format: clone_opt_string(format),
                    },
                };
                ContentBlock::Audio(AudioContent { source })
            },
            ContentBlock::Reasoning(r) => ContentBlock::Reasoning(
                ReasoningContent { thinking: r.thinking.clone(), signature: clone_opt_string(&r.signature) },
            ),
            ContentBlock::ToolUse(t) => ContentBlock::ToolUse(
                ToolUseBlock { id: t.id.clone(), name: t.name.clone(), input: t.input.deep_clone() },
            ),
            ContentBlock::ToolReference(t) => ContentBlock::ToolReference(
                ToolReference {
                    id: t.id.clone(),
                    name: t.name.clone(),
                    description: clone_opt_string(&t.description),
                    input_schema: crate::json::clone_opt_json(&t.input_schema),
                    deferred: t.deferred,
                },
            ),
            ContentBlock::ToolResult(tr) => {
                let content = match &tr.content {
                    ToolResultContent::Text(s) => ToolResultContent::Text(s.clone()),
                    ToolResultContent::Blocks(v) => {
                        let mut out: Vec<ContentBlock> = Vec::new();
                        let mut i: usize = 0;
                        while i < v.len()
                            invariant
                                i <= v.len(),
                                out@.len() == i,
                                forall|k: int| 0 <= k < i ==> same_block(v@[k], #[trigger] out@[k]),
                            decreases v.len() - i,
                        {
                            out.push(v[i].deep_clone());
                            i = i + 1;
                        }
                        ToolResultContent::Blocks(out)
                    },
                };
                ContentBlock::ToolResult(
                    ToolResultBlock {
                        tool_use_id: tr.tool_use_id.clone(),
                        name: clone_opt_string(&tr.name),
                        content,
                        is_error: tr.is_error,
                    },
                )
            },
        }
    }
}

impl Clone for ContentBlock {
    fn clone(&self) -> Self {
        self.deep_clone()
    }
}

impl Clone for ToolResultContent {
    fn clone(&self) -> Self {
        match self {
            ToolResultContent::Text(s) => ToolResultContent::Text(s.clone()),
            ToolResultContent::Blocks(v) => {
                let mut out: Vec<ContentBlock> = Vec::new();
                let mut i: usize = 0;
                while i < v.len()
                    invariant
                        i <= v.len(),
                    decreases v.len() - i,
                {
                    out.push(v[i].deep_clone());
                    i = i + 1;
                }
                ToolResultContent::Blocks(out)
            },
        }
    }
}

impl Clone for ToolResultBlock {
    fn clone(&self) -> Self {
        ToolResultBlock {
            tool_use_id: self.tool_use_id.clone(),
            name: self.name.clone(),
            content: self.content.clone(),
            is_error: self.is_error,
        }
    }
}

/// Plain text content.
#[derive(Debug, Clone)]
pub struct TextContent {
    /// The text content.
    pub text: String,
}

/// An inline image (URL or base64-encoded data).
#[derive(Debug, Clone)]
pub struct ImageContent {
    /// The image source.
    pub source: ImageSource,
}

/// An audio clip (URL or inline base64-encoded data).
#[derive(Debug, Clone)]
pub struct AudioContent {
    /// The audio source.
    pub source: AudioSource,
}

/// Source of audio — either a URL or inline base64 data.
#[derive(Debug, Clone)]
pub enum AudioSource {
    /// Audio accessible via URL.
    Url { url: String },
    /// Inline base64-encoded audio.
    Base64 {
        /// MIME type of the audio (e.g., "audio/wav").
        media_type: String,
        /// Base64-encoded audio data.
        data: String,
        /// Provider-specific format hint (e.g., "wav", "mp3").
        format: Option<String>,
    },
}

/// Model's internal reasoning or thinking content.
#[derive(Debug, Clone)]
pub struct ReasoningContent {
    /// The reasoning text content.
    pub thinking: String,
    /// Opaque signature that must be passed back unmodified.
    pub signature: Option<String>,
}

/// Source of an image — either a URL or inline base64 data.
#[derive(Debug, Clone)]
pub enum ImageSource {
    /// Image accessible via URL.
    Url {
        /// The image URL.
        url: String,
        /// Optional detail level (e.g., "auto", "low", "high").
        detail: Option<String>,
    },
    /// Inline base64-encoded image.
    Base64 {
        /// MIME type of the image (e.g., "image/png").
        media_type: String,
        /// Base64-encoded image data.
        data: String,
    },
}

/// A tool call initiated by the model.
#[derive(Debug, Clone)]
pub struct ToolUseBlock {
    /// Unique identifier for this tool call.
    pub id: String,
    /// Name of the tool to call.
    pub name: String,
    /// Arguments to pass to the tool (a JSON object).
    pub input: JsonValue,
}

/// The result of a tool call, provided by the client.
#[derive(Debug)]
pub struct ToolResultBlock {
    /// The tool call ID this result corresponds to.
    pub tool_use_id: String,
    /// Name of the tool that was called.
    pub name: Option<String>,
    /// Content of the tool result.
    pub content: ToolResultContent,
    /// Whether the tool call resulted in an error.
    pub is_error: Option<bool>,
}

/// Content of a tool result — either text or structured content blocks.
#[derive(Debug)]
pub enum ToolResultContent {
    /// Simple text result.
    Text(String),
    /// Structured content blocks.
    Blocks(Vec<ContentBlock>),
}

/// A deferred tool reference — not fully materialized into a schema.
#[derive(Debug, Clone)]
pub struct ToolReference {
    /// Unique identifier for this tool reference.
    pub id: String,
    /// Name of the tool.
    pub name: String,
    /// Optional human-readable description.
    pub description: Option<String>,
    /// Optional JSON schema for the tool's input (absent if deferred).
    pub input_schema: Option<JsonValue>,
    /// Whether this reference is deferred (not fully loaded).
    pub deferred: bool,
}

// ─── Tool definitions ───────────────────────────────────────────────────────

/// A tool definition included in a request.
#[derive(Debug, Clone)]
pub struct ToolDefinition {
    /// Name of the tool.
    pub name: String,
    /// Human-readable description of what the tool does.
    pub description: Option<String>,
    /// JSON Schema describing the tool's input parameters.
    pub input_schema: Option<JsonValue>,
    /// Whether this is a deferred reference (not fully loaded).
    pub deferred: Option<bool>,
    /// Provider-specific tool metadata, keyed by field name.
    pub extra: Vec<(String, JsonValue)>,
}

// ─── Tool choice ────────────────────────────────────────────────────────────

/// Controls how the model selects tool calls.
#[derive(Debug, Clone)]
pub enum ToolChoice {
    /// Model decides whether to call tools.
    Auto,
    /// Model must call a tool.
    Required,
    /// Model must not call any tools (the wire value `none`).
    NoTools,
    /// Model must call a specific tool by name.
    Named { name: String },
}

// ─── Messages ───────────────────────────────────────────────────────────────

/// A single message in a conversation.
#[derive(Debug, Clone)]
pub struct Message {
    /// The role of the message sender.
    pub role: Role,
    /// Content of the message.
    pub content: MessageContent,
}

/// Content of a message — either a single string or structured blocks.
#[derive(Debug, Clone)]
pub enum MessageContent {
    /// Simple text content.
    Text(String),
    /// Structured content blocks.
    Blocks(Vec<ContentBlock>),
}

impl MessageContent {
    /// Create text-only content.
    pub fn text(s: &str) -> (c: Self)
        ensures
            c matches MessageContent::Text(t) && t@ == s@,
    {
        MessageContent::Text(String::from_str(s))
    }

    /// Create structured content from blocks.
    pub fn blocks(blocks: Vec<ContentBlock>) -> (c: Self)
        ensures
            c matches MessageContent::Blocks(b) && b == blocks,
    {
        MessageContent::Blocks(blocks)
    }

    /// Normalize to content blocks.
    pub fn into_blocks(self) -> (blocks: Vec<ContentBlock>)
        ensures
            match self {
                MessageContent::Text(s) => blocks@ == seq![ContentBlock::Text(TextContent { text: s })],
                MessageContent::Blocks(b) => blocks == b,
            },
    {
        match self {
            MessageContent::Text(s) => {
                let mut v = Vec::new();
                v.push(ContentBlock::Text(TextContent { text: s }));
                v
            },
            MessageContent::Blocks(blocks) => blocks,
        }
    }

    /// Check if content is empty.
    pub fn is_empty(&self) -> (b: bool)
        ensures
            b == match self {
                MessageContent::Text(s) => s@.len() == 0,
                MessageContent::Blocks(blocks) => blocks@.len() == 0,
            },
    {
        match self {
            MessageContent::Text(s) => s.as_str().is_empty(),
            MessageContent::Blocks(blocks) => blocks.len() == 0,
        }
    }
}

// ─── System instructions ────────────────────────────────────────────────────

/// System-level instructions: a single string or structured blocks.
#[derive(Debug, Clone)]
pub enum SystemInstruction {
    /// Simple text instruction.
    Text(String),
    /// Structured instruction blocks.
    Blocks(Vec<SystemBlock>),
}

/// A single block in a system instruction.
#[derive(Debug, Clone)]
pub struct SystemBlock {
    /// Type of the block (currently only "text").
    pub block_type: String,
    /// Text content of the block.
    pub text: String,
}

// ─── Request ────────────────────────────────────────────────────────────────

/// A canonical LLM request: everything a client sends to an LLM provider.
///
/// Sampling parameters are carried as the decimal text they were written
/// with (`"0.7"`), so that they pass through translation unchanged.
#[derive(Debug, Clone)]
pub struct CanonicalRequest {
    /// The target model.
    pub model: String,
    /// Messages in the conversation.
    pub messages: Vec<Message>,
    /// Optional system instructions.
    pub system: Option<SystemInstruction>,
    /// Sampling temperature, as decimal text.
    pub temperature: Option<String>,
    /// Nucleus sampling threshold, as decimal text.
    pub top_p: Option<String>,
    /// Maximum tokens to generate.
    pub max_tokens: Option<u32>,
    /// Stop sequences.
    pub stop: Vec<String>,
    /// Available tools.
    pub tools: Vec<ToolDefinition>,
    /// Tool selection strategy.
    pub tool_choice: Option<ToolChoice>,
    /// Whether to stream the response.
    pub stream: bool,
    /// Response format constraints (e.g., JSON mode).
    pub response_format: Option<ResponseFormat>,
    /// Optional metadata.
    pub metadata: Option<JsonValue>,
    /// Provider-specific extensions.
    pub extensions: ProviderExtensions,
}

/// Response format constraints.
#[derive(Debug, Clone)]
pub struct ResponseFormat {
    /// Format type (e.g., "text", "json_object", "json_schema").
    pub format_type: String,
    /// JSON schema (when format_type is "json_schema").
    pub json_schema: Option<JsonValue>,
}

// ─── Usage ──────────────────────────────────────────────────────────────────

/// Token usage information: the union of the providers' counters.
#[derive(Debug, Clone, Copy, PartialEq, Eq, Structural)]
pub struct Usage {
    pub input_tokens: Option<u32>,
    pub output_tokens: Option<u32>,
    pub total_tokens: Option<u32>,
    pub cache_creation_input_tokens: Option<u32>,
    pub cache_read_input_tokens: Option<u32>,
}

impl Default for Usage {
    fn default() -> (u: Self)
        ensures
            u == (Usage {
                input_tokens: None,
                output_tokens: None,
                total_tokens: None,
                cache_creation_input_tokens: None,
                cache_read_input_tokens: None,
            }),
    {
        Usage {
            input_tokens: None,
            output_tokens: None,
            total_tokens: None,
            cache_creation_input_tokens: None,
            cache_read_input_tokens: None,
        }
    }
}

// ─── Finish reasons ─────────────────────────────────────────────────────────

/// Why the model stopped generating.
#[derive(Debug, Clone, PartialEq, Eq, Hash)]
pub enum FinishReason {
    Stop,
    StopSequence,
    Length,
    ToolCalls,
    ContentFilter,
    Error,
    /// Provider-specific finish reason.
    Other(String),
}

pub open spec fn spec_finish_reason_name(r: FinishReason) -> Seq<char> {
    match r {
        FinishReason::Stop => "stop"@,
        FinishReason::StopSequence => "stop_sequence"@,
        FinishReason::Length => "length"@,
        FinishReason::ToolCalls => "tool_calls"@,
        FinishReason::ContentFilter => "content_filter"@,
        FinishReason::Error => "error"@,
        FinishReason::Other(s) => s@,
    }
}

impl FinishReason {
    /// The reason's display form.
    pub fn to_string(&self) -> (s: String)
        ensures
            s@ == spec_finish_reason_name(*self),
    {
        match self {
            FinishReason::Stop => String::from_str("stop"),
            FinishReason::StopSequence => String::from_str("stop_sequence"),
            FinishReason::Length => String::from_str("length"),
            FinishReason::ToolCalls => String::from_str("tool_calls"),
            FinishReason::ContentFilter => String::from_str("content_filter"),
            FinishReason::Error => String::from_str("error"),
            FinishReason::Other(s) => s.clone(),
        }
    }
}

// ─── Response ───────────────────────────────────────────────────────────────

/// A canonical (non-streaming) LLM response.
#[derive(Debug, Clone)]
pub struct CanonicalResponse {
    /// Unique identifier for this response.
    pub id: String,
    /// The model that generated this response.
    pub model: String,
    /// Response content blocks.
    pub content: Vec<ContentBlock>,
    /// Why the model stopped generating.
    pub finish_reason: Option<FinishReason>,
    /// Token usage information.
    pub usage: Option<Usage>,
    /// Provider-specific extensions.
    pub extensions: ProviderExtensions,
}

// ─── Provider extensions ────────────────────────────────────────────────────

/// Provider-specific extensions, kept as JSON.
#[derive(Debug, Clone)]
pub struct ProviderExtensions {
    /// OpenAI-specific extensions.
    pub openai: Option<JsonValue>,
    /// Anthropic-specific extensions.
    pub anthropic: Option<JsonValue>,
}

impl Default for ProviderExtensions {
    fn default() -> (e: Self)
        ensures
            e.openai is None,
            e.anthropic is None,
    {
        ProviderExtensions { openai: None, anthropic: None }
    }
}

// ─── Stream events ──────────────────────────────────────────────────────────

/// A canonical streaming event.
#[derive(Debug, Clone)]
pub enum CanonicalStreamEvent {
    /// Streaming response is starting.
    MessageStart { message: StreamMessageInfo },
    /// A new content block is starting.
    ContentBlockStart { index: usize, content_block: ContentBlock },
    /// Incremental text delta.
    TextDelta { index: usize, text: String },
    /// Incremental audio data delta (base64-encoded chunk).
    AudioDelta { index: usize, data: String },
    /// Incremental reasoning/thinking delta.
    ReasoningDelta { index: usize, thinking: String },
    /// Opaque signature for a reasoning block.
    ReasoningSignature { index: usize, signature: String },
    /// Incremental tool call data.
    ToolCallDelta {
        index: usize,
        tool_use_id: Option<String>,
        name: Option<String>,
        input_json_delta: Option<String>,
    },
    /// A content block has ended.
    ContentBlockStop { index: usize },
    /// Updated message-level metadata (stop reason, usage delta).
    MessageDelta { stop_reason: Option<FinishReason>, usage: Option<Usage> },
    /// Cumulative usage information.
    Usage { usage: Usage },
    /// The streaming response has ended.
    MessageStop,
    /// An error occurred during streaming.
    Error { message: String, code: Option<String> },
    /// Keep-alive ping.
    Ping,
}

/// Metadata about the message being streamed, provided at stream start.
#[derive(Debug, Clone)]
pub struct StreamMessageInfo {
    /// Unique identifier for this response.
    pub id: String,
    /// The model generating this response.
    pub model: String,
    /// The role (always "assistant" for responses).
    pub role: Role,
}

// ─── Capability matrix ──────────────────────────────────────────────────────

/// Declares what a protocol adapter supports.
#[derive(Debug, Clone, Copy, PartialEq, Eq, Structural)]
pub struct ProtocolCapabilities {
    /// Supports streaming responses.
    pub streaming: bool,
    /// Supports tool/function calling.
    pub tools: bool,
    /// Supports streaming tool call deltas.
    pub tool_streaming: bool,
    /// Supports multimodal input (images, audio).
    pub multimodal_input: bool,
    /// Supports structured output / JSON mode.
    pub structured_output: bool,
    /// Supports reasoning/thinking tokens.
    pub reasoning: bool,
    /// Supports usage information in streaming events.
    pub usage_streaming: bool,
    /// Supports deferred tool references.
    pub deferred_tools: bool,
}

impl Default for ProtocolCapabilities {
    fn default() -> (c: Self)
        ensures
            c == no_capabilities(),
    {
        ProtocolCapabilities {
            streaming: false,
            tools: false,
            tool_streaming: false,
            multimodal_input: false,
            structured_output: false,
            reasoning: false,
            usage_streaming: false,
            deferred_tools: false,
        }
    }
}

pub open spec fn no_capabilities() -> ProtocolCapabilities {
    ProtocolCapabilities {
        streaming: false,
        tools: false,
        tool_streaming: false,
        multimodal_input: false,
        structured_output: false,
        reasoning: false,
        usage_streaming: false,
        deferred_tools: false,
    }
}

/// Describes a single potentially lossy translation.
#[derive(Debug, Clone)]
pub struct LossyTranslation {
    /// The feature being lost.
    pub feature: String,
    /// How the loss is handled.
    pub policy: LossPolicy,
    /// Human-readable explanation.
    pub reason: String,
}

/// Policy for handling a feature that the target protocol cannot represent.
#[derive(Debug, Clone, Copy, PartialEq, Eq, Hash, Structural)]
pub enum LossPolicy {
    /// Reject the translation entirely.
    Reject,
    /// Warn but proceed.
    Warn,
    /// Silently drop the feature.
    Drop,
    /// Best-effort approximation.
    Approximate,
    /// Encode in an extension field.
    EncodeAsExtension,
}

/// The value of a [`LossyTranslation`].
pub struct LossModel {
    pub feature: Seq<char>,
    pub policy: LossPolicy,
    pub reason: Seq<char>,
}

impl View for LossyTranslation {
    type V = LossModel;

    open spec fn view(&self) -> LossModel {
        LossModel { feature: self.feature@, policy: self.policy, reason: self.reason@ }
    }
}

pub open spec fn losses_view(ls: Seq<LossyTranslation>) -> Seq<LossModel> {
    ls.map_values(|l: LossyTranslation| l@)
}

pub open spec fn loss_if(lost: bool, feature: Seq<char>, policy: LossPolicy, reason: Seq<char>) -> Seq<
    LossModel,
> {
    if lost {
        seq![LossModel { feature, policy, reason }]
    } else {
        Seq::empty()
    }
}

/// The losses of a request carried from `source` to `target`: one per feature that
/// the source has and the target lacks, in a fixed order.
pub open spec fn spec_translation_losses(
    target: ProtocolCapabilities,
    source: ProtocolCapabilities,
) -> Seq<LossModel> {
    loss_if(
        source.streaming && !target.streaming,
        "streaming"@,
        LossPolicy::Reject,
        "target protocol does not support streaming; a streaming request cannot be relayed"@,
    ) + loss_if(
        source.tools && !target.tools,
        "tools"@,
        LossPolicy::Reject,
        "target protocol does not support tools; tool calls cannot be preserved"@,
    ) + loss_if(
        source.tool_streaming && !target.tool_streaming,
        "tool_call_streaming"@,
        LossPolicy::Approximate,
        "target does not support incremental tool call deltas; full tool call text will be buffered before sending"@,
    ) + loss_if(
        source.multimodal_input && !target.multimodal_input,
        "multimodal_input"@,
        LossPolicy::Drop,
        "target protocol does not support multimodal input; image/audio content blocks would be lost"@,
    ) + loss_if(
        source.structured_output && !target.structured_output,
        "structured_output"@,
        LossPolicy::Drop,
        "target does not support structured output format constraints"@,
    ) + loss_if(
        source.reasoning && !target.reasoning,
        "reasoning"@,
        LossPolicy::EncodeAsExtension,
        "target does not support reasoning tokens; reasoning content will be included as extension metadata"@,
    ) + loss_if(
        source.usage_streaming && !target.usage_streaming,
        "usage_streaming"@,
        LossPolicy::Drop,
        "target does not report usage in streaming events; streaming usage counts will be lost"@,
    ) + loss_if(
        source.deferred_tools && !target.deferred_tools,
        "deferred_tools"@,
        LossPolicy::Approximate,
        "target does not support deferred tool references; tool definitions will be fully materialized"@,
    )
}

/// Whether a policy refuses the translation.
pub open spec fn is_refusing(p: LossPolicy) -> bool {
    p == LossPolicy::Reject || p == LossPolicy::Drop
}

/// Index of the first refusing loss, if any.
pub open spec fn first_refusal(ls: Seq<LossModel>) -> Option<int>
    decreases ls.len(),
{
    if ls.len() == 0 {
        None
    } else {
        match first_refusal(ls.drop_last()) {
            Some(i) => Some(i),
            None => if is_refusing(ls.last().policy) {
                Some(ls.len() - 1)
            } else {
                None
            },
        }
    }
}

fn push_loss(
    losses: &mut Vec<LossyTranslation>,
    lost: bool,
    feature: &str,
    policy: LossPolicy,
    reason: &str,
)
    ensures
        losses_view(final(losses)@) == losses_view(old(losses)@) + loss_if(
            lost,
            feature@,
            policy,
            reason@,
        ),
{
    let ghost before = losses@;
    if lost {
        losses.push(
            LossyTranslation {
                feature: String::from_str(feature),
                policy,
                reason: String::from_str(reason),
            },
        );
        assert(losses_view(losses@) =~= losses_view(before) + loss_if(
            lost,
            feature@,
            policy,
            reason@,
        ));
    } else {
        assert(losses_view(losses@) =~= losses_view(before) + loss_if(
            lost,
            feature@,
            policy,
            reason@,
        ));
    }
}

proof fn lemma_first_refusal(ls: Seq<LossModel>)
    ensures
        first_refusal(ls) matches Some(i) ==> 0 <= i < ls.len() && is_refusing(ls[i].policy)
            && forall|k: int| 0 <= k < i ==> !is_refusing(#[trigger] ls[k].policy),
        first_refusal(ls) is None ==> forall|k: int|
            0 <= k < ls.len() ==> !is_refusing(#[trigger] ls[k].policy),
    decreases ls.len(),
{
    if ls.len() > 0 {
        lemma_first_refusal(ls.drop_last());
        assert forall|k: int| 0 <= k < ls.len() - 1 implies ls[k] == ls.drop_last()[k] by {}
    }
}

impl ProtocolCapabilities {
    /// The translations from `source` to `self` (the target) that lose a
    /// feature.
    pub fn translation_losses(&self, source: &ProtocolCapabilities) -> (losses: Vec<
        LossyTranslation,
    >)
        ensures
            losses_view(losses@) == spec_translation_losses(*self, *source),
    {
        let mut losses: Vec<LossyTranslation> = Vec::new();
        assert(losses_view(losses@) =~= Seq::<LossModel>::empty());
        push_loss(
            &mut losses,
            source.streaming && !self.streaming,
            "streaming",
            LossPolicy::Reject,
            "target protocol does not support streaming; a streaming request cannot be relayed",
        );
        push_loss(
            &mut losses,
            source.tools && !self.tools,
            "tools",
            LossPolicy::Reject,
            "target protocol does not support tools; tool calls cannot be preserved",
        );
        push_loss(
            &mut losses,
            source.tool_streaming && !self.tool_streaming,
            "tool_call_streaming",
            LossPolicy::Approximate,
            "target does not support incremental tool call deltas; full tool call text will be buffered before sending",
        );
        push_loss(
            &mut losses,
            source.multimodal_input && !self.multimodal_input,
            "multimodal_input",
            LossPolicy::Drop,
            "target protocol does not support multimodal input; image/audio content blocks would be lost",
        );
        push_loss(
            &mut losses,
            source.structured_output && !self.structured_output,
            "structured_output",
            LossPolicy::Drop,
            "target does not support structured output format constraints",
        );
        push_loss(
            &mut losses,
            source.reasoning && !self.reasoning,
            "reasoning",
            LossPolicy::EncodeAsExtension,
            "target does not support reasoning tokens; reasoning content will be included as extension metadata",
        );
        push_loss(
            &mut losses,
            source.usage_streaming && !self.usage_streaming,
            "usage_streaming",
            LossPolicy::Drop,
            "target does not report usage in streaming events; streaming usage counts will be lost",
        );
        push_loss(
            &mut losses,
            source.deferred_tools && !self.deferred_tools,
            "deferred_tools",
            LossPolicy::Approximate,
            "target does not support deferred tool references; tool definitions will be fully materialized",
        );
        assert(losses_view(losses@) =~= spec_translation_losses(*self, *source));
        losses
    }

    /// Refuse carrying a request from `source` to `self` (the target) that would
    /// reject or drop a feature: the first such loss is the error. Losses
    /// that are only approximated, warned about or carried as extensions
    /// are accepted.
    pub fn enforce_translation_losses(&self, source: &ProtocolCapabilities) -> (r: Result<
        (),
        crate::error::ProtocolEngineError,
    >)
        ensures
            match first_refusal(spec_translation_losses(*self, *source)) {
                None => r is Ok,
                Some(i) => r matches Err(crate::error::ProtocolEngineError::LossyTranslation {
                    feature,
                    reason,
                    policy,
                }) && feature@ == spec_translation_losses(*self, *source)[i].feature && reason@
                    == spec_translation_losses(*self, *source)[i].reason && policy
                    == spec_translation_losses(*self, *source)[i].policy,
            },
    {
        let losses = self.translation_losses(source);
        let ghost ls = losses_view(losses@);
        proof {
            lemma_first_refusal(ls);
        }
        let mut i: usize = 0;
        while i < losses.len()
            invariant
                i <= losses.len(),
                ls == losses_view(losses@),
                ls == spec_translation_losses(*self, *source),
                forall|k: int| 0 <= k < i ==> !is_refusing(#[trigger] ls[k].policy),
                first_refusal(ls) matches Some(j) ==> 0 <= j < ls.len() && is_refusing(
                    ls[j].policy,
                ) && forall|k: int| 0 <= k < j ==> !is_refusing(#[trigger] ls[k].policy),
                first_refusal(ls) is None ==> forall|k: int|
                    0 <= k < ls.len() ==> !is_refusing(#[trigger] ls[k].policy),
            decreases losses.len() - i,
        {
            let loss = &losses[i];
            assert(ls[i as int] == loss@);
            match loss.policy {
                LossPolicy::Reject | LossPolicy::Drop => {
                    assert(is_refusing(ls[i as int].policy));
                    assert(first_refusal(ls) == Some(i as int));
                    return Err(
                        crate::error::ProtocolEngineError::LossyTranslation {
                            feature: loss.feature.clone(),
                            reason: loss.reason.clone(),
                            policy: loss.policy,
                        },
                    );
                },
                _ => {},
            }
            i = i + 1;
        }
        Ok(())
    }
}

/// Every capability of `source` is also a capability of `target`.
pub open spec fn covers(target: ProtocolCapabilities, source: ProtocolCapabilities) -> bool {
    &&& source.streaming ==> target.streaming
    &&& source.tools ==> target.tools
    &&& source.tool_streaming ==> target.tool_streaming
    &&& source.multimodal_input ==> target.multimodal_input
    &&& source.structured_output ==> target.structured_output
    &&& source.reasoning ==> target.reasoning
    &&& source.usage_streaming ==> target.usage_streaming
    &&& source.deferred_tools ==> target.deferred_tools
}

/// A translation loses nothing exactly when the target supports every
/// capability of the source; in particular translating between equal
/// capability sets is lossless.
pub proof fn losses_empty_iff_covered(target: ProtocolCapabilities, source: ProtocolCapabilities)
    ensures
        spec_translation_losses(target, source).len() == 0 <==> covers(target, source),
        spec_translation_losses(source, source).len() == 0,
{
}

pub open spec fn refusal_free(ls: Seq<LossModel>) -> bool {
    forall|k: int| 0 <= k < ls.len() ==> !is_refusing(#[trigger] ls[k].policy)
}

proof fn lemma_refusal_free_concat(a: Seq<LossModel>, b: Seq<LossModel>)
    ensures
        refusal_free(a + b) <==> refusal_free(a) && refusal_free(b),
{
    if refusal_free(a + b) {
        assert forall|k: int| 0 <= k < a.len() implies !is_refusing(#[trigger] a[k].policy) by {
            assert((a + b)[k] == a[k]);
        }
        assert forall|k: int| 0 <= k < b.len() implies !is_refusing(#[trigger] b[k].policy) by {
            assert((a + b)[k + a.len()] == b[k]);
        }
    }
    if refusal_free(a) && refusal_free(b) {
        assert forall|k: int| 0 <= k < (a + b).len() implies !is_refusing(
            #[trigger] (a + b)[k].policy,
        ) by {
            if k < a.len() {
                assert((a + b)[k] == a[k]);
            } else {
                assert((a + b)[k] == b[k - a.len()]);
            }
        }
    }
}

proof fn lemma_loss_if_refusal_free(lost: bool, f: Seq<char>, p: LossPolicy, r: Seq<char>)
    ensures
        refusal_free(loss_if(lost, f, p, r)) <==> !(lost && is_refusing(p)),
{
    if lost {
        assert(loss_if(lost, f, p, r)[0].policy == p);
    }
}

/// A translation is refused exactly when the source streams, uses tools,
/// multimodal input, structured output or streaming usage and the target
/// does not; approximated features (tool-call streaming, deferred tools)
/// and reasoning never refuse it.
pub proof fn refusal_iff_hard_loss(target: ProtocolCapabilities, source: ProtocolCapabilities)
    ensures
        first_refusal(spec_translation_losses(target, source)) is None <==> (
        (source.streaming ==> target.streaming) && (source.tools ==> target.tools) && (
        source.multimodal_input ==> target.multimodal_input) && (source.structured_output
            ==> target.structured_output) && (source.usage_streaming ==> target.usage_streaming)),
{
    let t = target;
    let s = source;
    let a1 = loss_if(s.streaming && !t.streaming, "streaming"@, LossPolicy::Reject, "target protocol does not support streaming; a streaming request cannot be relayed"@);
    let a2 = loss_if(s.tools && !t.tools, "tools"@, LossPolicy::Reject, "target protocol does not support tools; tool calls cannot be preserved"@);
    let a3 = loss_if(s.tool_streaming && !t.tool_streaming, "tool_call_streaming"@, LossPolicy::Approximate, "target does not support incremental tool call deltas; full tool call text will be buffered before sending"@);
    let a4 = loss_if(s.multimodal_input && !t.multimodal_input, "multimodal_input"@, LossPolicy::Drop, "target protocol does not support multimodal input; image/audio content blocks would be lost"@);
    let a5 = loss_if(s.structured_output && !t.structured_output, "structured_output"@, LossPolicy::Drop, "target does not support structured output format constraints"@);
    let a6 = loss_if(s.reasoning && !t.reasoning, "reasoning"@, LossPolicy::EncodeAsExtension, "target does not support reasoning tokens; reasoning content will be included as extension metadata"@);
    let a7 = loss_if(s.usage_streaming && !t.usage_streaming, "usage_streaming"@, LossPolicy::Drop, "target does not report usage in streaming events; streaming usage counts will be lost"@);
    let a8 = loss_if(s.deferred_tools && !t.deferred_tools, "deferred_tools"@, LossPolicy::Approximate, "target does not support deferred tool references; tool definitions will be fully materialized"@);
    let ls = spec_translation_losses(t, s);
    assert(ls == a1 + a2 + a3 + a4 + a5 + a6 + a7 + a8);
    lemma_refusal_free_concat(a1, a2);
    lemma_refusal_free_concat(a1 + a2, a3);
    lemma_refusal_free_concat(a1 + a2 + a3, a4);
    lemma_refusal_free_concat(a1 + a2 + a3 + a4, a5);
    lemma_refusal_free_concat(a1 + a2 + a3 + a4 + a5, a6);
    lemma_refusal_free_concat(a1 + a2 + a3 + a4 + a5 + a6, a7);
    lemma_refusal_free_concat(a1 + a2 + a3 + a4 + a5 + a6 + a7, a8);
    lemma_loss_if_refusal_free(s.streaming && !t.streaming, "streaming"@, LossPolicy::Reject, "target protocol does not support streaming; a streaming request cannot be relayed"@);
    lemma_loss_if_refusal_free(s.tools && !t.tools, "tools"@, LossPolicy::Reject, "target protocol does not support tools; tool calls cannot be preserved"@);
    lemma_loss_if_refusal_free(s.tool_streaming && !t.tool_streaming, "tool_call_streaming"@, LossPolicy::Approximate, "target does not support incremental tool call deltas; full tool call text will be buffered before sending"@);
    lemma_loss_if_refusal_free(s.multimodal_input && !t.multimodal_input, "multimodal_input"@, LossPolicy::Drop, "target protocol does not support multimodal input; image/audio content blocks would be lost"@);
    lemma_loss_if_refusal_free(s.structured_output && !t.structured_output, "structured_output"@, LossPolicy::Drop, "target does not support structured output format constraints"@);
    lemma_loss_if_refusal_free(s.reasoning && !t.reasoning, "reasoning"@, LossPolicy::EncodeAsExtension, "target does not support reasoning tokens; reasoning content will be included as extension metadata"@);
    lemma_loss_if_refusal_free(s.usage_streaming && !t.usage_streaming, "usage_streaming"@, LossPolicy::Drop, "target does not report usage in streaming events; streaming usage counts will be lost"@);
    lemma_loss_if_refusal_free(s.deferred_tools && !t.deferred_tools, "deferred_tools"@, LossPolicy::Approximate, "target does not support deferred tool references; tool definitions will be fully materialized"@);
    lemma_first_refusal(ls);
}

// ─── Helpers shared by the adapters ─────────────────────────────────────────

/// The blocks a message content stands for (`into_blocks`).
pub open spec fn spec_blocks_of(c: MessageContent) -> Seq<ContentBlock> {
    match c {
        MessageContent::Text(s) => seq![ContentBlock::Text(TextContent { text: s })],
        MessageContent::Blocks(b) => b@,
    }
}

/// The texts of the text blocks among `bs`, in order.
pub open spec fn spec_block_texts(bs: Seq<ContentBlock>) -> Seq<Seq<char>>
    decreases bs.len(),
{
    if bs.len() == 0 {
        Seq::empty()
    } else {
        let init = spec_block_texts(bs.drop_last());
        match bs.last() {
            ContentBlock::Text(t) => init.push(t.text@),
            _ => init,
        }
    }
}

/// The texts of the text blocks among `bs`, joined with newlines.
pub fn join_block_texts(bs: &[ContentBlock]) -> (out: String)
    ensures
        out@ == crate::text::join(spec_block_texts(bs@), seq!['\n']),
{
    let mut out = String::new();
    let mut empty: bool = true;
    let mut i: usize = 0;
    assert(bs@.subrange(0, 0) =~= Seq::<ContentBlock>::empty());
    while i < bs.len()
        invariant
            i <= bs.len(),
            empty == (spec_block_texts(bs@.subrange(0, i as int)).len() == 0),
            out@ == crate::text::join(spec_block_texts(bs@.subrange(0, i as int)), seq!['\n']),
        decreases bs.len() - i,
    {
        let ghost pre = spec_block_texts(bs@.subrange(0, i as int));
        assert(bs@.subrange(0, i + 1).drop_last() =~= bs@.subrange(0, i as int));
        assert(bs@.subrange(0, i + 1).last() == bs@[i as int]);
        match &bs[i] {
            ContentBlock::Text(t) => {
                if !empty {
                    crate::text::push_char(&mut out, '\n');
                }
                out.append(t.text.as_str());
                proof {
                    let post = pre.push(t.text@);
                    assert(post.drop_last() =~= pre);
                    if empty {
                        assert(crate::text::join(pre, seq!['\n']) =~= Seq::<char>::empty());
                        assert(crate::text::join(post, seq!['\n']) == post[0]);
                    }
                    assert(out@ =~= crate::text::join(post, seq!['\n']));
                }
                empty = false;
            },
            _ => {},
        }
        i = i + 1;
    }
    assert(bs@.subrange(0, bs@.len() as int) =~= bs@);
    out
}

/// Copy of an optional string.
pub fn clone_opt_string(o: &Option<String>) -> (r: Option<String>)
    ensures
        r == *o,
{
    match o {
        Some(s) => Some(s.clone()),
        None => None,
    }
}

/// Copy of a list of strings.
pub fn clone_strings(v: &Vec<String>) -> (r: Vec<String>)
    ensures
        r@ == v@,
{
    let mut r: Vec<String> = Vec::new();
    let mut i: usize = 0;
    while i < v.len()
        invariant
            i <= v.len(),
            r@ == v@.subrange(0, i as int),
        decreases v.len() - i,
    {
        r.push(v[i].clone());
        i = i + 1;
    }
    assert(v@.subrange(0, v@.len() as int) =~= v@);
    r
}

} // verus!
