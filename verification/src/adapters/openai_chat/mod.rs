//! OpenAI Chat Completions adapter.
//!
//! Translates between the OpenAI Chat Completions wire format and the
//! canonical model, for requests, responses and stream chunks.
//!
//! Request body (`POST /v1/chat/completions`):
//!
//! ```json
//! {
//!   "model": "gpt-4",
//!   "messages": [
//!     {"role": "system", "content": "You are helpful."},
//!     {"role": "user", "content": "Hello!"},
//!     {"role": "assistant", "content": "Hi!", "tool_calls": [...]},
//!     {"role": "tool", "tool_call_id": "call_123", "content": "42"}
//!   ],
//!   "temperature": 0.7,
//!   "max_tokens": 1024,
//!   "stream": true
//! }
//! ```

pub mod decode;
pub mod encode;
pub mod wire;

pub use decode::{decode_request, decode_response, decode_tool_choice};
pub use encode::{encode_request, encode_response, encode_stream_event, encode_tool_choice, finish_reason_to_openai, usage_to_chat};
pub use wire::{
    ChatChoice, ChatChunkChoice, ChatCompletionChunk, ChatCompletionRequest, ChatCompletionResponse,
    ChatDelta, ChatDeltaFunction, ChatDeltaToolCall, ChatFunctionCall, ChatFunctionCallResponse,
    ChatFunctionDefinition, ChatMessage, ChatResponseFormat, ChatResponseMessage, ChatToolCall,
    ChatToolCallResponse, ChatToolChoice, ChatToolChoiceFunction, ChatToolChoiceObject,
    ChatToolDefinition, ChatUsage,
};

use vstd::prelude::*;
use crate::canonical::{Protocol, ProtocolCapabilities};

verus! {

/// The capabilities of OpenAI Chat Completions.
pub open spec fn spec_capabilities() -> ProtocolCapabilities {
    ProtocolCapabilities {
        streaming: true,
        tools: true,
        tool_streaming: true,
        multimodal_input: true,
        structured_output: true,
        reasoning: false,
        usage_streaming: true,
        deferred_tools: false,
    }
}

/// Return the protocol capabilities for OpenAI Chat Completions.
pub fn capabilities() -> (c: ProtocolCapabilities)
    ensures
        c == spec_capabilities(),
{
    ProtocolCapabilities {
        streaming: true,
        tools: true,
        tool_streaming: true,
        multimodal_input: true,
        structured_output: true,
        reasoning: false,
        usage_streaming: true,
        deferred_tools: false,
    }
}

/// Return the protocol identifier.
pub fn protocol() -> (p: Protocol)
    ensures
        p == Protocol::OpenAiChatCompletions,
{
    Protocol::OpenAiChatCompletions
}

} // verus!
