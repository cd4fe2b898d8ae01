//! OpenAI Chat Completions wire types.
//!
//! Request and response structures of the Chat Completions API, one field
//! per JSON member. Sampling parameters are carried as their decimal text.

use vstd::prelude::*;
use crate::json::JsonValue;

verus! {

// ─── Request wire types ─────────────────────────────────────────────────────

/// Top-level OpenAI Chat Completions request body.
#[derive(Debug, Clone)]
pub struct ChatCompletionRequest {
    pub model: String,
    pub messages: Vec<ChatMessage>,
    pub temperature: Option<String>,
    pub top_p: Option<String>,
    pub max_tokens: Option<u32>,
    pub stream: bool,
    pub stop: Option<Vec<String>>,
    pub tools: Option<Vec<ChatToolDefinition>>,
    pub tool_choice: Option<ChatToolChoice>,
    pub response_format: Option<ChatResponseFormat>,
    pub metadata: Option<JsonValue>,
    /// Provider-specific fields that no other field names, in key order.
    pub extra: Vec<(String, JsonValue)>,
}

/// An OpenAI chat message.
#[derive(Debug, Clone)]
pub struct ChatMessage {
    pub role: String,
    pub content: Option<JsonValue>,
    pub name: Option<String>,
    pub tool_calls: Option<Vec<ChatToolCall>>,
    pub tool_call_id: Option<String>,
}

/// A tool call in an OpenAI message.
#[derive(Debug, Clone)]
pub struct ChatToolCall {
    pub id: String,
    /// Serialized as `type`.
    pub call_type: String,
    pub function: ChatFunctionCall,
}

/// Function call data within a tool call.
#[derive(Debug, Clone)]
pub struct ChatFunctionCall {
    pub name: String,
    /// The arguments, as JSON text.
    pub arguments: String,
}

/// A tool definition in the request.
#[derive(Debug, Clone)]
pub struct ChatToolDefinition {
    /// Serialized as `type`.
    pub tool_type: String,
    pub function: ChatFunctionDefinition,
}

/// Function definition within a tool.
#[derive(Debug, Clone)]
pub struct ChatFunctionDefinition {
    pub name: String,
    pub description: Option<String>,
    pub parameters: Option<JsonValue>,
    /// Strict mode (OpenAI-specific).
    pub strict: Option<bool>,
}

/// Tool choice control: a mode string, or an object naming a function.
#[derive(Debug, Clone)]
pub enum ChatToolChoice {
    String(String),
    Object(ChatToolChoiceObject),
}

/// Tool choice object for named tool selection.
#[derive(Debug, Clone)]
pub struct ChatToolChoiceObject {
    /// Serialized as `type`.
    pub choice_type: String,
    pub function: ChatToolChoiceFunction,
}

/// Function reference inside a tool choice object.
#[derive(Debug, Clone)]
pub struct ChatToolChoiceFunction {
    pub name: String,
}

/// Response format specification.
#[derive(Debug, Clone)]
pub struct ChatResponseFormat {
    /// Serialized as `type`.
    pub format_type: String,
    pub json_schema: Option<JsonValue>,
}

// ─── Response wire types ────────────────────────────────────────────────────

/// Top-level OpenAI Chat Completions response.
#[derive(Debug, Clone)]
pub struct ChatCompletionResponse {
    pub id: String,
    pub object: String,
    pub created: u64,
    pub model: String,
    pub choices: Vec<ChatChoice>,
    pub usage: Option<ChatUsage>,
}

/// A single choice in the response.
#[derive(Debug, Clone)]
pub struct ChatChoice {
    pub index: u32,
    pub message: ChatResponseMessage,
    pub finish_reason: Option<String>,
}

/// A response message.
#[derive(Debug, Clone)]
pub struct ChatResponseMessage {
    pub role: String,
    pub content: Option<String>,
    pub tool_calls: Option<Vec<ChatToolCallResponse>>,
}

/// A tool call in the response.
#[derive(Debug, Clone)]
pub struct ChatToolCallResponse {
    pub id: String,
    /// Serialized as `type`.
    pub call_type: String,
    pub function: ChatFunctionCallResponse,
}

/// Function call data in a response tool call.
#[derive(Debug, Clone)]
pub struct ChatFunctionCallResponse {
    pub name: String,
    /// The arguments, as JSON text.
    pub arguments: String,
}

/// Usage information.
#[derive(Debug, Clone, Copy)]
pub struct ChatUsage {
    pub prompt_tokens: u32,
    pub completion_tokens: u32,
    pub total_tokens: u32,
}

// ─── Streaming wire types ───────────────────────────────────────────────────

/// A streaming chunk.
#[derive(Debug, Clone)]
pub struct ChatCompletionChunk {
    pub id: String,
    pub object: String,
    pub created: u64,
    pub model: String,
    pub choices: Vec<ChatChunkChoice>,
    pub usage: Option<ChatUsage>,
}

/// A choice within a streaming chunk.
#[derive(Debug, Clone)]
pub struct ChatChunkChoice {
    pub index: u32,
    pub delta: ChatDelta,
    pub finish_reason: Option<String>,
}

/// The delta (incremental change) in a streaming chunk.
#[derive(Debug, Clone)]
pub struct ChatDelta {
    pub role: Option<String>,
    pub content: Option<String>,
    pub tool_calls: Option<Vec<ChatDeltaToolCall>>,
}

/// A tool call delta in streaming.
#[derive(Debug, Clone)]
pub struct ChatDeltaToolCall {
    pub index: u32,
    pub id: Option<String>,
    /// Serialized as `type`.
    pub call_type: Option<String>,
    pub function: Option<ChatDeltaFunction>,
}

/// Function delta in a streaming tool call.
#[derive(Debug, Clone)]
pub struct ChatDeltaFunction {
    pub name: Option<String>,
    pub arguments: Option<String>,
}

} // verus!
