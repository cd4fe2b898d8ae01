//! The LLM node's decisions: which protocol and lane a call uses, the
//! canonical request built from the node's input, and the folding of a
//! streamed response into one canonical response.
//!
//! The HTTP exchange itself is the application's.

use vstd::prelude::*;
use vstd::utf8::encode_utf8;
use crate::adapters::{filter_mapped, lemma_filter_mapped_push, lemma_prefix_push};
use crate::adapters::openai_chat::decode::{get_str_or, str_is};
use crate::canonical::{
    AudioContent, AudioSource, CanonicalRequest, ContentBlock, ImageContent, ImageSource, Message,
    MessageContent, Protocol, ProviderExtensions, Role, TextContent,
};
use crate::json::{Json, JsonValue, json_get, json_get_str, spec_json_to_string};
use crate::text::opt_view;
use crate::workflow::context::LaneRegistry;
use crate::workflow::error::NodeError;
use crate::workflow::nodes::RuntimeValue;
use crate::workflow::schema::LlmConfig;
use crate::adapters::anthropic_messages::{MessagesDelta, MessagesStreamEvent};
use crate::adapters::openai_chat::wire::{ChatChunkChoice, ChatCompletionChunk, ChatDeltaToolCall};
use crate::adapters::openai_responses::ResponsesStreamEvent;
use crate::canonical::{CanonicalResponse, FinishReason, ToolUseBlock, Usage};
use crate::json::{opt_json_view, parse_json, spec_parse_json};

verus! {

// ─── Protocol and lane ──────────────────────────────────────────────────────

/// The protocol an LLM node speaks: the one its configuration names, and
/// OpenAI Chat Completions when it names none or one it does not know.
pub open spec fn spec_resolve_protocol(p: Option<Seq<char>>) -> Protocol {
    match p {
        Some(s) => if s == "openai_chat"@ || s == "openai_chat_completions"@ {
            Protocol::OpenAiChatCompletions
        } else if s == "anthropic"@ || s == "anthropic_messages"@ {
            Protocol::AnthropicMessages
        } else if s == "openai_responses"@ {
            Protocol::OpenAiResponses
        } else {
            Protocol::OpenAiChatCompletions
        },
        None => Protocol::OpenAiChatCompletions,
    }
}

/// Resolve the protocol from configuration.
pub fn resolve_protocol(config: &LlmConfig) -> (r: Option<Protocol>)
    ensures
        r == Some(spec_resolve_protocol(opt_view(config.protocol))),
{
    match &config.protocol {
        Some(p) => {
            let p = p.as_str();
            if str_is(p, "openai_chat") || str_is(p, "openai_chat_completions") {
                Some(Protocol::OpenAiChatCompletions)
            } else if str_is(p, "anthropic") || str_is(p, "anthropic_messages") {
                Some(Protocol::AnthropicMessages)
            } else if str_is(p, "openai_responses") {
                Some(Protocol::OpenAiResponses)
            } else {
                Some(Protocol::OpenAiChatCompletions)
            }
        },
        None => Some(Protocol::OpenAiChatCompletions),
    }
}

/// The protocol the provider (target) speaks: the node's own.
pub fn protocol_target(source: &Protocol) -> (p: Protocol)
    ensures
        p == *source,
{
    *source
}

/// The message of a lane-less node when several lanes exist.
pub open spec fn many_lanes_message(n: nat) -> Seq<char> {
    "LLM node has no lane_id but "@ + crate::text::spec_decimal(n) + " lanes exist; a lane_id is required"@
}

/// `r` is the lane a call goes through: the configured one, or else the
/// only registered lane; with no lane configured, none or several
/// registered lanes are an error.
pub open spec fn resolves_lane(config: LlmConfig, lanes: LaneRegistry, r: Result<String, NodeError>) -> bool {
    match config.lane_id {
        Some(id) => r matches Ok(x) && x == id,
        None => if lanes.spec_lanes().len() == 1 {
            r matches Ok(x) && x@ == lanes.spec_lanes()[0].id@
        } else if lanes.spec_lanes().len() == 0 {
            r matches Err(NodeError::Internal(m)) && m@ == "LLM node has no lane_id and no lane is registered"@
        } else {
            r matches Err(NodeError::Internal(m)) && m@ == many_lanes_message(lanes.spec_lanes().len())
        },
    }
}

/// Resolve the lane a call goes through: the configured one, or else the
/// only registered lane.
pub fn resolve_lane_id(config: &LlmConfig, lanes: &LaneRegistry) -> (r: Result<String, NodeError>)
    ensures
        resolves_lane(*config, *lanes, r),
{
    match &config.lane_id {
        Some(id) => Ok(id.clone()),
        None => {
            let entries = lanes.entries();
            if entries.len() == 1 {
                Ok(entries[0].id.clone())
            } else if entries.len() == 0 {
                Err(NodeError::Internal(String::from_str("LLM node has no lane_id and no lane is registered")))
            } else {
                let mut m = String::from_str("LLM node has no lane_id but ");
                crate::text::write_decimal(&mut m, entries.len() as u64);
                m.append(" lanes exist; a lane_id is required");
                Err(NodeError::Internal(m))
            }
        },
    }
}

/// The path of the provider endpoint for a protocol.
pub open spec fn spec_upstream_path(p: Protocol) -> Seq<char> {
    match p {
        Protocol::OpenAiChatCompletions => "/v1/chat/completions"@,
        Protocol::AnthropicMessages => "/v1/messages"@,
        Protocol::OpenAiResponses => "/v1/responses"@,
    }
}

/// The path of the provider endpoint for a protocol.
pub fn upstream_path(p: Protocol) -> (s: &'static str)
    ensures
        s@ == spec_upstream_path(p),
{
    match p {
        Protocol::OpenAiChatCompletions => "/v1/chat/completions",
        Protocol::AnthropicMessages => "/v1/messages",
        Protocol::OpenAiResponses => "/v1/responses",
    }
}

// ─── Building the request ───────────────────────────────────────────────────

/// `json_get_str` on an optional value.
pub open spec fn opt_get_str(o: Option<Json>, key: Seq<char>) -> Option<Seq<char>> {
    match o {
        Some(j) => json_get_str(j, key),
        None => None,
    }
}

/// The text of an optional string, or empty.
pub open spec fn or_empty(o: Option<Seq<char>>) -> Seq<char> {
    match o {
        Some(s) => s,
        None => Seq::empty(),
    }
}

/// The image or audio source object of a block: the first of the two
/// members it has.
pub open spec fn source_of(j: Json, first: Seq<char>) -> Option<Json> {
    match json_get(j, first) {
        Some(s) => Some(s),
        None => json_get(j, "source"@),
    }
}

/// What a JSON content block of a node's input becomes, if anything: text,
/// an image by URL or inline data, or inline audio. Blocks of other types,
/// and images or audio without their payload, are skipped.
pub open spec fn block_decodes(j: Json, r: Option<ContentBlock>) -> bool {
    match json_get_str(j, "type"@) {
        None => r is None,
        Some(t) => if t == "text"@ {
            r matches Some(ContentBlock::Text(x)) && x.text@ == get_str_or(j, "text"@, Seq::empty())
        } else if t == "image_url"@ {
            r matches Some(ContentBlock::Image(img)) && (img.source matches ImageSource::Url { url, detail }
                && url@ == or_empty(opt_get_str(json_get(j, "image_url"@), "url"@)) && opt_view(detail)
                == opt_get_str(json_get(j, "image_url"@), "detail"@))
        } else if t == "input_image"@ || t == "image"@ {
            let src = source_of(j, "image_url"@);
            match opt_get_str(src, "url"@) {
                Some(u) => r matches Some(ContentBlock::Image(img)) && (img.source matches ImageSource::Url { url, detail }
                    && url@ == u && detail is None),
                None => match opt_get_str(src, "data"@) {
                    Some(d) => r matches Some(ContentBlock::Image(img)) && (img.source matches ImageSource::Base64 {
                        media_type,
                        data,
                    } && media_type@ == or_empty(opt_get_str(src, "media_type"@)) && data@ == d),
                    None => r is None,
                },
            }
        } else if t == "input_audio"@ || t == "audio"@ {
            let src = source_of(j, "input_audio"@);
            match opt_get_str(src, "data"@) {
                Some(d) => r matches Some(ContentBlock::Audio(a)) && (a.source matches AudioSource::Base64 {
                    media_type,
                    data,
                    format,
                } && data@ == d && opt_view(format) == opt_get_str(src, "format"@) && media_type@ == match opt_get_str(src, "format"@) {
                    Some(f) => f,
                    None => "audio/wav"@,
                }),
                None => r is None,
            }
        } else {
            r is None
        },
    }
}

/// Whether a JSON content block maps to a canonical block.
pub open spec fn block_emits(j: Json) -> bool {
    match json_get_str(j, "type"@) {
        None => false,
        Some(t) => if t == "text"@ || t == "image_url"@ {
            true
        } else if t == "input_image"@ || t == "image"@ {
            opt_get_str(source_of(j, "image_url"@), "url"@) is Some || opt_get_str(source_of(j, "image_url"@), "data"@) is Some
        } else if t == "input_audio"@ || t == "audio"@ {
            opt_get_str(source_of(j, "input_audio"@), "data"@) is Some
        } else {
            false
        },
    }
}

/// The string at `key` of an optional object.
fn opt_get_string(o: Option<&JsonValue>, key: &str) -> (r: Option<String>)
    ensures
        opt_view(r) == opt_get_str(match o {
            Some(j) => Some(j@),
            None => None,
        }, key@),
{
    match o {
        Some(j) => j.get_str(key),
        None => None,
    }
}

/// Map a JSON content block of a node's input to a canonical block.
pub fn parse_content_block(block: &JsonValue) -> (r: Option<ContentBlock>)
    ensures
        block_decodes(block@, r),
        r is Some == block_emits(block@),
{
    let block_type = match block.get_str("type") {
        Some(t) => t,
        None => {
            return None;
        },
    };
    let t = block_type.as_str();
    if str_is(t, "text") {
        let text = match block.get_str("text") {
            Some(s) => s,
            None => String::new(),
        };
        Some(ContentBlock::Text(TextContent { text }))
    } else if str_is(t, "image_url") {
        let u = block.get("image_url");
        let url = match opt_get_string(u, "url") {
            Some(s) => s,
            None => String::new(),
        };
        let detail = opt_get_string(u, "detail");
        Some(ContentBlock::Image(ImageContent { source: ImageSource::Url { url, detail } }))
    } else if str_is(t, "input_image") || str_is(t, "image") {
        let source = match block.get("image_url") {
            Some(s) => Some(s),
            None => block.get("source"),
        };
        match opt_get_string(source, "url") {
            Some(url) => Some(ContentBlock::Image(ImageContent { source: ImageSource::Url { url, detail: None } })),
            None => match opt_get_string(source, "data") {
                Some(data) => {
                    let media_type = match opt_get_string(source, "media_type") {
                        Some(m) => m,
                        None => String::new(),
                    };
                    Some(ContentBlock::Image(ImageContent { source: ImageSource::Base64 { media_type, data } }))
                },
                None => None,
            },
        }
    } else if str_is(t, "input_audio") || str_is(t, "audio") {
        let source = match block.get("input_audio") {
            Some(s) => Some(s),
            None => block.get("source"),
        };
        match opt_get_string(source, "data") {
            Some(data) => {
                let format = opt_get_string(source, "format");
                let media_type = match &format {
                    Some(f) => f.clone(),
                    None => String::from_str("audio/wav"),
                };
                Some(ContentBlock::Audio(AudioContent { source: AudioSource::Base64 { media_type, data, format } }))
            },
            None => None,
        }
    } else {
        None
    }
}

/// The canonical role of a role name in a node's input; anything else is
/// the user's.
pub open spec fn role_named(r: Option<Seq<char>>) -> Role {
    match r {
        Some(s) => if s == "system"@ {
            Role::System
        } else if s == "assistant"@ {
            Role::Assistant
        } else if s == "tool"@ {
            Role::Tool
        } else {
            Role::User
        },
        None => Role::User,
    }
}

/// `c` is the content of an input message with the JSON `content` member
/// `c_json`: a string as text, an array as the blocks it maps to, another
/// value as its JSON text, and no content as empty text.
pub open spec fn message_content_decodes(c_json: Option<Json>, c: MessageContent) -> bool {
    match c_json {
        Some(Json::Str(s)) => c matches MessageContent::Text(t) && t@ == s,
        Some(Json::Array(items)) => c matches MessageContent::Blocks(bs) && filter_mapped(
            items,
            bs@,
            |j: Json| block_emits(j),
            |j: Json, b: ContentBlock| block_decodes(j, Some(b)),
        ),
        Some(other) => c matches MessageContent::Text(t) && t@ == spec_json_to_string(other),
        None => c matches MessageContent::Text(t) && t@.len() == 0,
    }
}

/// The content of an input message.
fn message_content(c: Option<&JsonValue>) -> (r: MessageContent)
    ensures
        message_content_decodes(match c {
            Some(j) => Some(j@),
            None => None,
        }, r),
{
    match c {
        Some(JsonValue::String(s)) => MessageContent::Text(s.clone()),
        Some(JsonValue::Array(items)) => {
            proof {
                crate::json::lemma_array_view(*items);
            }
            let ghost vs = Seq::new(items@.len(), |i: int| items@[i]@);
            let mut bs: Vec<ContentBlock> = Vec::new();
            let mut i: usize = 0;
            assert(vs.subrange(0, 0) =~= Seq::<Json>::empty());
            while i < items.len()
                invariant
                    i <= items@.len(),
                    vs == Seq::new(items@.len(), |i: int| items@[i]@),
                    filter_mapped(vs.subrange(0, i as int), bs@, |j: Json| block_emits(j), |j: Json, b: ContentBlock| block_decodes(j, Some(b))),
                decreases items@.len() - i,
            {
                proof {
                    lemma_prefix_push(vs, i as int);
                }
                match parse_content_block(&items[i]) {
                    Some(b) => {
                        proof {
                            lemma_filter_mapped_push(vs.subrange(0, i as int), bs@, |j: Json| block_emits(j), |j: Json, b: ContentBlock| block_decodes(j, Some(b)), vs[i as int], b);
                        }
                        bs.push(b);
                    },
                    None => {
                        proof {
                            lemma_filter_mapped_push(vs.subrange(0, i as int), bs@, |j: Json| block_emits(j), |j: Json, b: ContentBlock| block_decodes(j, Some(b)), vs[i as int], arbitrary());
                        }
                    },
                }
                i = i + 1;
            }
            assert(vs.subrange(0, vs.len() as int) =~= vs);
            MessageContent::Blocks(bs)
        },
        Some(other) => MessageContent::Text(other.to_json_string()),
        None => MessageContent::Text(String::new()),
    }
}

/// `m` is the canonical message of a JSON message of a node's input.
pub open spec fn input_message_decodes(j: Json, m: Message) -> bool {
    m.role == role_named(json_get_str(j, "role"@)) && message_content_decodes(json_get(j, "content"@), m.content)
}

/// The messages of a node's input: those of its `messages` array when it is
/// JSON with one, else one user message with its text (empty when it has
/// none).
pub open spec fn messages_extracted(input: RuntimeValue, ms: Seq<Message>) -> bool {
    match input {
        RuntimeValue::Json(j) => match json_get(j@, "messages"@) {
            Some(Json::Array(items)) => crate::adapters::mapped(items, ms, |j: Json, m: Message| input_message_decodes(j, m)),
            _ => ms.len() == 1 && ms[0].role == Role::User && (ms[0].content matches MessageContent::Text(t) && t@ == match j@ {
                Json::Str(s) => s,
                _ => Seq::empty(),
            }),
        },
        RuntimeValue::String(s) => ms.len() == 1 && ms[0].role == Role::User && (ms[0].content matches MessageContent::Text(t) && t@ == s@),
        _ => ms.len() == 1 && ms[0].role == Role::User && (ms[0].content matches MessageContent::Text(t) && t@.len() == 0),
    }
}

/// Extract canonical messages from a node's input.
pub fn extract_messages(input: &RuntimeValue) -> (ms: Vec<Message>)
    ensures
        messages_extracted(*input, ms@),
{
    if let RuntimeValue::Json(json) = input {
        if let Some(JsonValue::Array(items)) = json.get("messages") {
            proof {
                crate::json::lemma_array_view(*items);
            }
            let ghost vs = Seq::new(items@.len(), |i: int| items@[i]@);
            let mut parsed: Vec<Message> = Vec::new();
            let mut i: usize = 0;
            while i < items.len()
                invariant
                    i <= items@.len(),
                    vs == Seq::new(items@.len(), |i: int| items@[i]@),
                    parsed@.len() == i,
                    forall|k: int| 0 <= k < i ==> input_message_decodes(#[trigger] vs[k], parsed@[k]),
                decreases items@.len() - i,
            {
                let m = &items[i];
                let role = match m.get_str("role") {
                    Some(r) => {
                        if str_is(r.as_str(), "system") {
                            Role::System
                        } else if str_is(r.as_str(), "assistant") {
                            Role::Assistant
                        } else if str_is(r.as_str(), "tool") {
                            Role::Tool
                        } else {
                            Role::User
                        }
                    },
                    None => Role::User,
                };
                let content = message_content(m.get("content"));
                parsed.push(Message { role, content });
                i = i + 1;
            }
            return parsed;
        }
    }
    // Otherwise the whole input is one user message.
    let text = match input.as_text() {
        Some(s) => String::from_str(s),
        None => String::new(),
    };
    let ms = vec![Message { role: Role::User, content: MessageContent::Text(text) }];
    ms
}

/// The canonical request of an LLM node: its input's messages, with the
/// configured temperature and token limit.
pub open spec fn request_built(config: LlmConfig, model: Seq<char>, input: RuntimeValue, r: CanonicalRequest) -> bool {
    &&& r.model@ == model
    &&& messages_extracted(input, r.messages@)
    &&& r.system is None
    &&& r.temperature == config.temperature
    &&& r.top_p is None
    &&& r.max_tokens == config.max_tokens
    &&& r.stop@.len() == 0
    &&& r.tools@.len() == 0
    &&& r.tool_choice is None
    &&& !r.stream
    &&& r.response_format is None
    &&& r.metadata is None
    &&& r.extensions.openai is None
    &&& r.extensions.anthropic is None
}

/// Build a canonical request from configuration and input.
pub fn build_canonical_request(config: &LlmConfig, model: String, input: &RuntimeValue) -> (r: Result<CanonicalRequest, NodeError>)
    ensures
        r matches Ok(c) && request_built(*config, model@, *input, c),
{
    let messages = extract_messages(input);
    Ok(
        CanonicalRequest {
            model,
            messages,
            system: None,
            temperature: crate::canonical::clone_opt_string(&config.temperature),
            top_p: None,
            max_tokens: config.max_tokens,
            stop: Vec::new(),
            tools: Vec::new(),
            tool_choice: None,
            stream: false,
            response_format: None,
            metadata: None,
            extensions: ProviderExtensions { openai: None, anthropic: None },
        },
    )
}

// ─── The call ───────────────────────────────────────────────────────────────

/// What an LLM node sends, decided before any I/O.
#[derive(Debug)]
pub struct PreparedCall {
    /// The protocol the provider speaks.
    pub target: Protocol,
    /// The lane the call goes through.
    pub lane_id: String,
    /// The canonical request.
    pub request: CanonicalRequest,
}

/// The configured model, or `default`.
pub open spec fn model_or_default(m: Option<String>) -> Seq<char> {
    match m {
        Some(x) => x@,
        None => "default"@,
    }
}

/// Decide an LLM node's call: its protocol, its lane (which must be
/// registered) and its canonical request, streamed as configured.
pub fn prepare_call(config: &LlmConfig, lanes: &LaneRegistry, input: &RuntimeValue) -> (r: Result<PreparedCall, NodeError>)
    ensures
        match config.lane_id {
            Some(id) => if lanes.has_lane(id@) {
                r is Ok
            } else {
                r matches Err(NodeError::Internal(m)) && m@ == "lane not found: "@ + id@
            },
            None => if lanes.spec_lanes().len() == 1 {
                r is Ok
            } else {
                r matches Err(e) && resolves_lane(*config, *lanes, Err::<String, NodeError>(e))
            },
        },
        r matches Ok(c) ==> {
            &&& c.target == spec_resolve_protocol(opt_view(config.protocol))
            &&& resolves_lane(*config, *lanes, Ok(c.lane_id))
            &&& lanes.has_lane(c.lane_id@)
            &&& request_built(*config, model_or_default(config.model), *input, CanonicalRequest { stream: false, ..c.request })
            &&& c.request.stream == config.stream
        },
{
    let protocol = match resolve_protocol(config) {
        Some(p) => p,
        None => {
            return Err(NodeError::Internal(String::from_str("unknown protocol")));
        },
    };
    let model = match &config.model {
        Some(m) => m.clone(),
        None => String::from_str("default"),
    };
    let lane_id = match resolve_lane_id(config, lanes) {
        Ok(id) => id,
        Err(e) => {
            return Err(e);
        },
    };
    if lanes.get(lane_id.as_str()).is_none() {
        let mut m = String::from_str("lane not found: ");
        m.append(lane_id.as_str());
        return Err(NodeError::Internal(m));
    }
    let mut request = match build_canonical_request(config, model, input) {
        Ok(c) => c,
        Err(e) => {
            return Err(e);
        },
    };
    let ghost built = request;
    request.stream = config.stream;
    assert(CanonicalRequest { stream: false, ..request } == built);
    Ok(PreparedCall { target: protocol_target(&protocol), lane_id, request })
}

/// An HTTP request to a provider, in plain values.
#[derive(Debug)]
pub struct UpstreamRequest {
    /// The absolute URL.
    pub url: String,
    /// Header names and values, in order.
    pub headers: Vec<(String, String)>,
    /// The request body.
    pub body: Vec<u8>,
}

/// What joining `path` onto the URL with text `base` gives: the joined
/// URL's text, or the message of the `ParseError` of the parse or the join.
pub uninterp spec fn spec_url_join(base: Seq<char>, path: Seq<char>) -> Result<Seq<char>, Seq<char>>;

/// `Url::join` on the URL whose text is `base` (read back with
/// `Url::parse`), the result and the error shown as text. Claimed: the
/// outcome depends on `base` and `path` alone and is named by
/// `spec_url_join`.
#[verifier::external_body]
fn join_url(base: &str, path: &str) -> (r: Result<String, String>)
    ensures
        match r {
            Ok(u) => spec_url_join(base@, path@) == Ok::<Seq<char>, Seq<char>>(u@),
            Err(m) => spec_url_join(base@, path@) == Err::<Seq<char>, Seq<char>>(m@),
        },
{
    match url::Url::parse(base).and_then(|b| b.join(path)) {
        Ok(u) => Ok(u.to_string()),
        Err(e) => Err(e.to_string()),
    }
}

/// The headers of a provider request: JSON content, the API version for
/// Anthropic Messages, and the lane's authorization where it has one.
pub open spec fn upstream_headers(target: Protocol, auth: Option<Seq<char>>) -> Seq<(Seq<char>, Seq<char>)> {
    seq![("content-type"@, "application/json"@)] + (if target == Protocol::AnthropicMessages {
        seq![("anthropic-version"@, "2023-06-01"@)]
    } else {
        Seq::empty()
    }) + match auth {
        Some(a) => seq![("authorization"@, a)],
        None => Seq::empty(),
    }
}

/// The views of header pairs.
pub open spec fn header_views(hs: Seq<(String, String)>) -> Seq<(Seq<char>, Seq<char>)> {
    hs.map_values(|h: (String, String)| (h.0@, h.1@))
}

/// The HTTP request that carries `wire` to the lane's endpoint for the
/// target protocol: a POST of the body with its headers, to the lane's base
/// URL joined with the protocol's path; a base URL that does not join is
/// an error.
pub fn build_http_request(wire: Vec<u8>, lane: &crate::workflow::context::LaneEntry, target: Protocol) -> (r: Result<UpstreamRequest, NodeError>)
    ensures
        match spec_url_join(lane.base_url@, spec_upstream_path(target)) {
            Ok(u) => r matches Ok(q) && q.url@ == u && q.body == wire
                && header_views(q.headers@) == upstream_headers(target, opt_view(lane.authorization)),
            Err(e) => r matches Err(NodeError::Internal(m)) && m@ == "invalid lane URL: "@ + e,
        },
{
    let url = match join_url(lane.base_url.as_str(), upstream_path(target)) {
        Ok(u) => u,
        Err(e) => {
            let mut m = String::from_str("invalid lane URL: ");
            m.append(e.as_str());
            return Err(NodeError::Internal(m));
        },
    };
    let mut headers: Vec<(String, String)> = Vec::new();
    headers.push((String::from_str("content-type"), String::from_str("application/json")));
    if target == Protocol::AnthropicMessages {
        headers.push((String::from_str("anthropic-version"), String::from_str("2023-06-01")));
    }
    match &lane.authorization {
        Some(a) => {
            headers.push((String::from_str("authorization"), a.clone()));
        },
        None => {},
    }
    assert(header_views(headers@) =~= upstream_headers(target, opt_view(lane.authorization)));
    Ok(UpstreamRequest { url, headers, body: wire })
}

// ─── Token events ───────────────────────────────────────────────────────────

/// A lowercase hexadecimal digit.
pub open spec fn hex_lower(n: u8) -> u8 {
    if n < 10 {
        (48 + n) as u8
    } else {
        (87 + n) as u8
    }
}

/// The JSON-string form of one byte of a token.
pub open spec fn escape_byte(b: u8) -> Seq<u8> {
    if b == 34 {
        seq![92u8, 34u8]
    } else if b == 92 {
        seq![92u8, 92u8]
    } else if b == 10 {
        seq![92u8, 110u8]
    } else if b == 13 {
        seq![92u8, 114u8]
    } else if b == 9 {
        seq![92u8, 116u8]
    } else if b < 32 {
        seq![92u8, 117u8, 48u8, 48u8, hex_lower(b / 16), hex_lower(b % 16)]
    } else {
        seq![b]
    }
}

/// The JSON-string form of a token's bytes.
pub open spec fn escape_bytes(bs: Seq<u8>) -> Seq<u8>
    decreases bs.len(),
{
    if bs.len() == 0 {
        Seq::empty()
    } else {
        escape_bytes(bs.drop_last()) + escape_byte(bs.last())
    }
}

/// `event: token\ndata: {"delta":"`
pub open spec fn token_prefix() -> Seq<u8> {
    seq![
        101u8, 118u8, 101u8, 110u8, 116u8, 58u8, 32u8, 116u8, 111u8, 107u8, 101u8, 110u8, 10u8,
        100u8, 97u8, 116u8, 97u8, 58u8, 32u8, 123u8, 34u8, 100u8, 101u8, 108u8, 116u8, 97u8, 34u8,
        58u8, 34u8,
    ]
}

/// `"}` and a blank line.
pub open spec fn token_suffix() -> Seq<u8> {
    seq![34u8, 125u8, 10u8, 10u8]
}

fn push_bytes(out: &mut Vec<u8>, bs: &[u8])
    ensures
        final(out)@ == old(out)@ + bs@,
{
    let mut i: usize = 0;
    while i < bs.len()
        invariant
            i <= bs@.len(),
            out@ == old(out)@ + bs@.subrange(0, i as int),
        decreases bs@.len() - i,
    {
        out.push(bs[i]);
        assert(out@ =~= old(out)@ + bs@.subrange(0, i + 1));
        i = i + 1;
    }
    assert(bs@.subrange(0, bs@.len() as int) =~= bs@);
}

fn hex_digit_byte(n: u8) -> (b: u8)
    requires
        n < 16,
    ensures
        b == hex_lower(n),
{
    if n < 10 {
        48 + n
    } else {
        87 + n
    }
}

/// The SSE event that forwards one streamed token: `event: token` with
/// the delta as a JSON string.
pub fn token_event(delta: &str) -> (wire: Vec<u8>)
    ensures
        wire@ == token_prefix() + escape_bytes(encode_utf8(delta@)) + token_suffix(),
{
    let mut wire: Vec<u8> = Vec::new();
    let prefix: [u8; 29] = [101, 118, 101, 110, 116, 58, 32, 116, 111, 107, 101, 110, 10, 100, 97, 116, 97, 58, 32, 123, 34, 100, 101, 108, 116, 97, 34, 58, 34];
    assert(prefix@ =~= token_prefix());
    push_bytes(&mut wire, &prefix);
    let bytes = delta.as_bytes();
    let ghost bv = bytes@;
    let mut i: usize = 0;
    assert(bv.subrange(0, 0) =~= Seq::<u8>::empty());
    assert(wire@ =~= token_prefix() + escape_bytes(bv.subrange(0, 0)));
    while i < bytes.len()
        invariant
            i <= bv.len(),
            bv == bytes@,
            wire@ == token_prefix() + escape_bytes(bv.subrange(0, i as int)),
        decreases bv.len() - i,
    {
        let b = bytes[i];
        let ghost pre = wire@;
        if b == 34 {
            wire.push(92);
            wire.push(34);
        } else if b == 92 {
            wire.push(92);
            wire.push(92);
        } else if b == 10 {
            wire.push(92);
            wire.push(110);
        } else if b == 13 {
            wire.push(92);
            wire.push(114);
        } else if b == 9 {
            wire.push(92);
            wire.push(116);
        } else if b < 32 {
            wire.push(92);
            wire.push(117);
            wire.push(48);
            wire.push(48);
            wire.push(hex_digit_byte(b / 16));
            wire.push(hex_digit_byte(b % 16));
        } else {
            wire.push(b);
        }
        proof {
            assert(bv.subrange(0, i + 1).drop_last() =~= bv.subrange(0, i as int));
            assert(wire@ =~= pre + escape_byte(b));
            assert(wire@ =~= token_prefix() + escape_bytes(bv.subrange(0, i + 1)));
        }
        i = i + 1;
    }
    assert(bv.subrange(0, bv.len() as int) =~= bv);
    let suffix: [u8; 4] = [34, 125, 10, 10];
    assert(suffix@ =~= token_suffix());
    push_bytes(&mut wire, &suffix);
    wire
}

// ─── Folding a streamed response ────────────────────────────────────────────

/// One tool call being assembled from stream deltas.
#[derive(Debug, Clone)]
pub struct ToolAccum {
    pub id: String,
    pub name: String,
    /// The argument JSON received so far.
    pub args: String,
}

/// The state of a streamed response being folded into one canonical
/// response.
#[derive(Debug)]
pub struct StreamFold {
    pub protocol: Protocol,
    pub response_id: String,
    pub model: String,
    /// The text received so far.
    pub text: String,
    pub stop_reason: Option<FinishReason>,
    pub usage: Option<Usage>,
    /// Tool calls by stream index, in increasing index order.
    pub tool_slots: Vec<(u32, ToolAccum)>,
}

/// A tool call being assembled, as text.
pub struct SlotView {
    pub id: Seq<char>,
    pub name: Seq<char>,
    pub args: Seq<char>,
}

/// The tool calls being assembled, as text.
pub open spec fn slots_view(v: Seq<(u32, ToolAccum)>) -> Seq<(u32, SlotView)> {
    v.map_values(|e: (u32, ToolAccum)| (e.0, SlotView { id: e.1.id@, name: e.1.name@, args: e.1.args@ }))
}

/// The slots are in strictly increasing index order.
pub open spec fn slots_sorted(s: Seq<(u32, SlotView)>) -> bool {
    forall|i: int, j: int| 0 <= i < j < s.len() ==> s[i].0 < s[j].0
}

/// The position of the slot with index `idx`, or where it would go.
pub open spec fn slot_position(s: Seq<(u32, SlotView)>, idx: u32) -> int
    decreases s.len(),
{
    if s.len() == 0 || idx <= s[0].0 {
        0
    } else {
        1 + slot_position(s.drop_first(), idx)
    }
}

/// The slots after one tool-call delta: a new slot (named by the delta's
/// id, else `tool-use`) when its index is new, then its name replaced and
/// its arguments extended by what the delta carries.
pub open spec fn apply_call(s: Seq<(u32, SlotView)>, tc: ChatDeltaToolCall) -> Seq<(u32, SlotView)> {
    let p = slot_position(s, tc.index);
    let base = if p < s.len() && s[p].0 == tc.index {
        s
    } else {
        s.insert(p, (tc.index, SlotView {
            id: match tc.id {
                Some(x) => x@,
                None => "tool-use"@,
            },
            name: Seq::empty(),
            args: Seq::empty(),
        }))
    };
    let old_slot = base[p].1;
    let name = match tc.function {
        Some(f) => match f.name {
            Some(n) => n@,
            None => old_slot.name,
        },
        None => old_slot.name,
    };
    let args = match tc.function {
        Some(f) => match f.arguments {
            Some(a) => old_slot.args + a@,
            None => old_slot.args,
        },
        None => old_slot.args,
    };
    base.update(p, (tc.index, SlotView { id: old_slot.id, name, args }))
}

/// The slots after a list of tool-call deltas.
pub open spec fn apply_calls(s: Seq<(u32, SlotView)>, tcs: Seq<ChatDeltaToolCall>) -> Seq<(u32, SlotView)>
    decreases tcs.len(),
{
    if tcs.len() == 0 {
        s
    } else {
        apply_call(apply_calls(s, tcs.drop_last()), tcs.last())
    }
}

/// The canonical finish reason of a streamed Chat Completions one.
pub open spec fn spec_chat_stop(s: String) -> FinishReason {
    if s@ == "stop"@ {
        FinishReason::Stop
    } else if s@ == "length"@ {
        FinishReason::Length
    } else if s@ == "tool_calls"@ {
        FinishReason::ToolCalls
    } else {
        FinishReason::Other(s)
    }
}

/// The fold's text, finish reason and tool calls as text.
pub struct FoldView {
    pub text: Seq<char>,
    pub stop_reason: Option<FinishReason>,
    pub slots: Seq<(u32, SlotView)>,
}

/// What a fold in state `s` holds after one choice: the finish reason it
/// names, its text delta added, its tool-call deltas applied.
pub open spec fn fold_choice(s: FoldView, c: ChatChunkChoice) -> FoldView {
    FoldView {
        stop_reason: match c.finish_reason {
            Some(f) => Some(spec_chat_stop(f)),
            None => s.stop_reason,
        },
        text: s.text + match c.delta.content {
            Some(t) => t@,
            None => Seq::empty(),
        },
        slots: match c.delta.tool_calls {
            Some(tcs) => apply_calls(s.slots, tcs@),
            None => s.slots,
        },
    }
}

/// What a fold in state `s` holds after the choices `cs`, in order.
pub open spec fn fold_choices(s: FoldView, cs: Seq<ChatChunkChoice>) -> FoldView
    decreases cs.len(),
{
    if cs.len() == 0 {
        s
    } else {
        fold_choice(fold_choices(s, cs.drop_last()), cs.last())
    }
}

/// The text deltas of the choices, in order.
pub open spec fn choice_deltas(cs: Seq<ChatChunkChoice>) -> Seq<Seq<char>>
    decreases cs.len(),
{
    if cs.len() == 0 {
        Seq::empty()
    } else {
        match cs.last().delta.content {
            Some(t) => choice_deltas(cs.drop_last()).push(t@),
            None => choice_deltas(cs.drop_last()),
        }
    }
}

impl StreamFold {
    /// The fold's text, finish reason and tool calls.
    pub open spec fn fold_view(&self) -> FoldView {
        FoldView { text: self.text@, stop_reason: self.stop_reason, slots: slots_view(self.tool_slots@) }
    }

    /// An empty fold for a response in `protocol`.
    pub fn new(protocol: Protocol) -> (f: Self)
        ensures
            f.protocol == protocol,
            f.response_id@.len() == 0,
            f.model@.len() == 0,
            f.text@.len() == 0,
            f.stop_reason is None,
            f.usage is None,
            f.tool_slots@.len() == 0,
    {
        StreamFold {
            protocol,
            response_id: String::new(),
            model: String::new(),
            text: String::new(),
            stop_reason: None,
            usage: None,
            tool_slots: Vec::new(),
        }
    }
}

proof fn lemma_slot_position(s: Seq<(u32, SlotView)>, idx: u32, p: int)
    requires
        0 <= p <= s.len(),
        forall|k: int| 0 <= k < p ==> s[k].0 < idx,
        p == s.len() || idx <= s[p].0,
    ensures
        slot_position(s, idx) == p,
    decreases p,
{
    if p > 0 {
        assert(s[0].0 < idx);
        let t = s.drop_first();
        assert forall|k: int| 0 <= k < p - 1 implies t[k].0 < idx by {
            assert(t[k] == s[k + 1]);
        }
        if p < s.len() {
            assert(t[p - 1] == s[p]);
        }
        lemma_slot_position(t, idx, p - 1);
    }
}

/// Apply one tool-call delta to the slots.
fn apply_call_exec(slots: &mut Vec<(u32, ToolAccum)>, tc: &ChatDeltaToolCall)
    requires
        slots_sorted(slots_view(old(slots)@)),
    ensures
        slots_sorted(slots_view(final(slots)@)),
        slots_view(final(slots)@) == apply_call(slots_view(old(slots)@), *tc),
{
    let ghost sv = slots_view(slots@);
    let idx = tc.index;
    let mut p: usize = 0;
    while p < slots.len() && slots[p].0 < idx
        invariant
            p <= slots@.len(),
            sv == slots_view(slots@),
            slots@ == old(slots)@,
            forall|k: int| 0 <= k < p ==> sv[k].0 < idx,
        decreases slots@.len() - p,
    {
        p = p + 1;
    }
    proof {
        lemma_slot_position(sv, idx, p as int);
    }
    let exists_already = p < slots.len() && slots[p].0 == idx;
    if !exists_already {
        let id = match &tc.id {
            Some(x) => x.clone(),
            None => String::from_str("tool-use"),
        };
        let ghost before = slots@;
        slots.insert(p, (idx, ToolAccum { id, name: String::new(), args: String::new() }));
        proof {
            assert(slots_view(slots@) =~= sv.insert(p as int, (idx, SlotView { id: slots@[p as int].1.id@, name: Seq::empty(), args: Seq::empty() })));
        }
    }
    let ghost base = slots_view(slots@);
    assert(base[p as int].0 == idx);
    let (i0, old_acc) = slots.remove(p);
    let mut acc = old_acc;
    match &tc.function {
        Some(f) => {
            match &f.name {
                Some(n) => {
                    acc.name = n.clone();
                },
                None => {},
            }
            match &f.arguments {
                Some(a) => {
                    acc.args.append(a.as_str());
                },
                None => {},
            }
        },
        None => {},
    }
    slots.insert(p, (i0, acc));
    proof {
        assert(slots_view(slots@) =~= apply_call(sv, *tc));
        assert forall|i: int, j: int| 0 <= i < j < slots_view(slots@).len() implies slots_view(slots@)[i].0 < slots_view(slots@)[j].0 by {
            assert(slots_view(slots@)[i].0 == base[i].0);
            assert(slots_view(slots@)[j].0 == base[j].0);
            if !exists_already {
                // The new slot sits between the smaller and the larger ones.
                if i < p && j > p {
                    assert(base[i].0 == sv[i].0 && base[j].0 == sv[j - 1].0);
                }
            }
        }
    }
}

/// The canonical finish reason of a streamed Anthropic stop reason.
pub open spec fn spec_anthropic_stop(s: String) -> FinishReason {
    if s@ == "end_turn"@ {
        FinishReason::Stop
    } else if s@ == "max_tokens"@ {
        FinishReason::Length
    } else if s@ == "tool_use"@ {
        FinishReason::ToolCalls
    } else {
        FinishReason::Other(s)
    }
}

fn chat_stop(s: &String) -> (f: FinishReason)
    ensures
        f == spec_chat_stop(*s),
{
    if str_is(s.as_str(), "stop") {
        FinishReason::Stop
    } else if str_is(s.as_str(), "length") {
        FinishReason::Length
    } else if str_is(s.as_str(), "tool_calls") {
        FinishReason::ToolCalls
    } else {
        FinishReason::Other(s.clone())
    }
}

fn anthropic_stop(s: &String) -> (f: FinishReason)
    ensures
        f == spec_anthropic_stop(*s),
{
    if str_is(s.as_str(), "end_turn") {
        FinishReason::Stop
    } else if str_is(s.as_str(), "max_tokens") {
        FinishReason::Length
    } else if str_is(s.as_str(), "tool_use") {
        FinishReason::ToolCalls
    } else {
        FinishReason::Other(s.clone())
    }
}

/// The views of a list of strings.
pub open spec fn texts_of(v: Seq<String>) -> Seq<Seq<char>> {
    v.map_values(|s: String| s@)
}

/// The input of a streamed tool call: its arguments parsed as JSON, or the
/// arguments as a JSON string when they are not JSON.
pub open spec fn streamed_input(args: Seq<char>) -> Json {
    match spec_parse_json(args) {
        Some(j) => j,
        None => Json::Str(args),
    }
}

/// `b` is the tool use of an assembled tool call.
pub open spec fn slot_block(b: ContentBlock, sl: SlotView) -> bool {
    b matches ContentBlock::ToolUse(tu) && tu.id@ == sl.id && tu.name@ == sl.name && tu.input@ == streamed_input(sl.args)
}

impl StreamFold {
    /// Fold one Chat Completions chunk; the text deltas it carried are
    /// returned, in order, to be forwarded.
    pub fn fold_chat(&mut self, chunk: &ChatCompletionChunk) -> (deltas: Vec<String>)
        requires
            slots_sorted(slots_view(old(self).tool_slots@)),
        ensures
            slots_sorted(slots_view(final(self).tool_slots@)),
            final(self).protocol == old(self).protocol,
            final(self).response_id@ == if chunk.id@.len() > 0 { chunk.id@ } else { old(self).response_id@ },
            final(self).model@ == if chunk.model@.len() > 0 { chunk.model@ } else { old(self).model@ },
            final(self).usage == match chunk.usage {
                Some(u) => Some(Usage {
                    input_tokens: Some(u.prompt_tokens),
                    output_tokens: Some(u.completion_tokens),
                    total_tokens: Some(u.total_tokens),
                    cache_creation_input_tokens: None,
                    cache_read_input_tokens: None,
                }),
                None => old(self).usage,
            },
            final(self).fold_view() == fold_choices(old(self).fold_view(), chunk.choices@),
            texts_of(deltas@) == choice_deltas(chunk.choices@),
    {
        if !chunk.id.as_str().is_empty() {
            self.response_id = chunk.id.clone();
        }
        if !chunk.model.as_str().is_empty() {
            self.model = chunk.model.clone();
        }
        match &chunk.usage {
            Some(u) => {
                self.usage = Some(Usage {
                    input_tokens: Some(u.prompt_tokens),
                    output_tokens: Some(u.completion_tokens),
                    total_tokens: Some(u.total_tokens),
                    cache_creation_input_tokens: None,
                    cache_read_input_tokens: None,
                });
            },
            None => {},
        }
        let ghost start = self.fold_view();
        let mut deltas: Vec<String> = Vec::new();
        let mut i: usize = 0;
        assert(chunk.choices@.subrange(0, 0) =~= Seq::<ChatChunkChoice>::empty());
        assert(texts_of(deltas@) =~= Seq::<Seq<char>>::empty());
        while i < chunk.choices.len()
            invariant
                i <= chunk.choices@.len(),
                slots_sorted(slots_view(self.tool_slots@)),
                self.protocol == old(self).protocol,
                self.response_id@ == if chunk.id@.len() > 0 { chunk.id@ } else { old(self).response_id@ },
                self.model@ == if chunk.model@.len() > 0 { chunk.model@ } else { old(self).model@ },
                self.usage == match chunk.usage {
                    Some(u) => Some(Usage {
                        input_tokens: Some(u.prompt_tokens),
                        output_tokens: Some(u.completion_tokens),
                        total_tokens: Some(u.total_tokens),
                        cache_creation_input_tokens: None,
                        cache_read_input_tokens: None,
                    }),
                    None => old(self).usage,
                },
                start == old(self).fold_view(),
                self.fold_view() == fold_choices(start, chunk.choices@.subrange(0, i as int)),
                texts_of(deltas@) == choice_deltas(chunk.choices@.subrange(0, i as int)),
            decreases chunk.choices@.len() - i,
        {
            let choice = &chunk.choices[i];
            let ghost before = self.fold_view();
            let ghost dbefore = texts_of(deltas@);
            proof {
                assert(chunk.choices@.subrange(0, i + 1).drop_last() =~= chunk.choices@.subrange(0, i as int));
                assert(chunk.choices@.subrange(0, i + 1).last() == chunk.choices@[i as int]);
            }
            match &choice.finish_reason {
                Some(r) => {
                    self.stop_reason = Some(chat_stop(r));
                },
                None => {},
            }
            match &choice.delta.content {
                Some(d) => {
                    self.text.append(d.as_str());
                    deltas.push(d.clone());
                    assert(texts_of(deltas@) =~= dbefore.push(d@));
                },
                None => {},
            }
            match &choice.delta.tool_calls {
                Some(tcs) => {
                    let ghost s0 = slots_view(self.tool_slots@);
                    let mut k: usize = 0;
                    assert(tcs@.subrange(0, 0) =~= Seq::<ChatDeltaToolCall>::empty());
                    while k < tcs.len()
                        invariant
                            k <= tcs@.len(),
                            slots_sorted(slots_view(self.tool_slots@)),
                            slots_view(self.tool_slots@) == apply_calls(s0, tcs@.subrange(0, k as int)),
                            self.protocol == old(self).protocol,
                            self.response_id@ == if chunk.id@.len() > 0 { chunk.id@ } else { old(self).response_id@ },
                            self.model@ == if chunk.model@.len() > 0 { chunk.model@ } else { old(self).model@ },
                            self.usage == match chunk.usage {
                                Some(u) => Some(Usage {
                                    input_tokens: Some(u.prompt_tokens),
                                    output_tokens: Some(u.completion_tokens),
                                    total_tokens: Some(u.total_tokens),
                                    cache_creation_input_tokens: None,
                                    cache_read_input_tokens: None,
                                }),
                                None => old(self).usage,
                            },
                            self.text@ == fold_choice(before, *choice).text,
                            self.stop_reason == fold_choice(before, *choice).stop_reason,
                        decreases tcs@.len() - k,
                    {
                        proof {
                            assert(tcs@.subrange(0, k + 1).drop_last() =~= tcs@.subrange(0, k as int));
                            assert(tcs@.subrange(0, k + 1).last() == tcs@[k as int]);
                        }
                        apply_call_exec(&mut self.tool_slots, &tcs[k]);
                        k = k + 1;
                    }
                    assert(tcs@.subrange(0, tcs@.len() as int) =~= tcs@);
                },
                None => {},
            }
            assert(self.fold_view() == fold_choice(before, *choice));
            i = i + 1;
        }
        assert(chunk.choices@.subrange(0, chunk.choices@.len() as int) =~= chunk.choices@);
        deltas
    }

    /// Fold one Anthropic stream event; the text delta it carried, if any,
    /// is returned to be forwarded.
    pub fn fold_anthropic(&mut self, event: &MessagesStreamEvent) -> (deltas: Vec<String>)
        requires
            slots_sorted(slots_view(old(self).tool_slots@)),
        ensures
            slots_sorted(slots_view(final(self).tool_slots@)),
            final(self).protocol == old(self).protocol,
            match *event {
                MessagesStreamEvent::MessageStart { message } => final(self).response_id@ == message.id@
                    && final(self).model@ == message.model@ && final(self).text@ == old(self).text@
                    && final(self).stop_reason == old(self).stop_reason && final(self).usage == old(self).usage
                    && slots_view(final(self).tool_slots@) == slots_view(old(self).tool_slots@) && deltas@.len() == 0,
                MessagesStreamEvent::ContentBlockDelta { delta, .. } => final(self).response_id@ == old(self).response_id@
                    && final(self).model@ == old(self).model@ && final(self).stop_reason == old(self).stop_reason
                    && final(self).usage == old(self).usage && match delta {
                        MessagesDelta::TextDelta { text } => final(self).text@ == old(self).text@ + text@
                            && texts_of(deltas@) == seq![text@] && slots_view(final(self).tool_slots@) == slots_view(old(self).tool_slots@),
                        MessagesDelta::InputJsonDelta { partial_json } => final(self).text@ == old(self).text@ && deltas@.len() == 0
                            && slots_view(final(self).tool_slots@) == if old(self).tool_slots@.len() == 0 {
                                slots_view(old(self).tool_slots@)
                            } else {
                                let s = slots_view(old(self).tool_slots@);
                                let last = s.last();
                                s.update(s.len() - 1, (last.0, SlotView { id: last.1.id, name: last.1.name, args: last.1.args + partial_json@ }))
                            },
                        _ => final(self).text@ == old(self).text@ && deltas@.len() == 0 && slots_view(final(self).tool_slots@) == slots_view(old(self).tool_slots@),
                    },
                MessagesStreamEvent::MessageDelta { delta, usage } => final(self).response_id@ == old(self).response_id@
                    && final(self).model@ == old(self).model@ && final(self).text@ == old(self).text@
                    && slots_view(final(self).tool_slots@) == slots_view(old(self).tool_slots@) && deltas@.len() == 0
                    && final(self).stop_reason == match delta.stop_reason {
                        Some(r) => Some(spec_anthropic_stop(r)),
                        None => old(self).stop_reason,
                    } && final(self).usage == Some(Usage {
                        input_tokens: Some(usage.input_tokens),
                        output_tokens: Some(usage.output_tokens),
                        total_tokens: None,
                        cache_creation_input_tokens: usage.cache_creation_input_tokens,
                        cache_read_input_tokens: usage.cache_read_input_tokens,
                    }),
                _ => final(self).response_id@ == old(self).response_id@ && final(self).model@ == old(self).model@
                    && final(self).text@ == old(self).text@ && final(self).stop_reason == old(self).stop_reason
                    && final(self).usage == old(self).usage && slots_view(final(self).tool_slots@) == slots_view(old(self).tool_slots@)
                    && deltas@.len() == 0,
            },
    {
        let mut deltas: Vec<String> = Vec::new();
        match event {
            MessagesStreamEvent::MessageStart { message } => {
                self.response_id = message.id.clone();
                self.model = message.model.clone();
            },
            MessagesStreamEvent::ContentBlockDelta { delta, .. } => match delta {
                MessagesDelta::TextDelta { text } => {
                    self.text.append(text.as_str());
                    deltas.push(text.clone());
                    assert(texts_of(deltas@) =~= seq![text@]);
                },
                MessagesDelta::InputJsonDelta { partial_json } => {
                    let n = self.tool_slots.len();
                    if n > 0 {
                        let ghost before = self.tool_slots@;
                        let (idx, mut acc) = self.tool_slots.pop().unwrap();
                        acc.args.append(partial_json.as_str());
                        self.tool_slots.push((idx, acc));
                        proof {
                            assert(slots_view(self.tool_slots@) =~= {
                                let s = slots_view(before);
                                let last = s.last();
                                s.update(s.len() - 1, (last.0, SlotView { id: last.1.id, name: last.1.name, args: last.1.args + partial_json@ }))
                            });
                        }
                    }
                },
                _ => {},
            },
            MessagesStreamEvent::MessageDelta { delta, usage } => {
                match &delta.stop_reason {
                    Some(r) => {
                        self.stop_reason = Some(anthropic_stop(r));
                    },
                    None => {},
                }
                self.usage = Some(Usage {
                    input_tokens: Some(usage.input_tokens),
                    output_tokens: Some(usage.output_tokens),
                    total_tokens: None,
                    cache_creation_input_tokens: usage.cache_creation_input_tokens,
                    cache_read_input_tokens: usage.cache_read_input_tokens,
                });
            },
            _ => {},
        }
        deltas
    }

    /// Fold one Responses stream event; a non-empty text delta is returned
    /// to be forwarded.
    pub fn fold_responses(&mut self, event: &ResponsesStreamEvent) -> (deltas: Vec<String>)
        ensures
            final(self).protocol == old(self).protocol,
            final(self).stop_reason == old(self).stop_reason,
            final(self).usage == old(self).usage,
            final(self).tool_slots == old(self).tool_slots,
            match *event {
                ResponsesStreamEvent::ResponseCreated { response } => final(self).text@ == old(self).text@ && deltas@.len() == 0
                    && final(self).response_id@ == match opt_get_str(opt_json_view(response), "id"@) {
                        Some(id) => id,
                        None => old(self).response_id@,
                    } && final(self).model@ == match opt_get_str(opt_json_view(response), "model"@) {
                        Some(m) => m,
                        None => old(self).model@,
                    },
                ResponsesStreamEvent::ResponseOutputTextDelta { delta, .. } => final(self).response_id@ == old(self).response_id@
                    && final(self).model@ == old(self).model@ && match delta {
                        Some(t) => if t@.len() > 0 {
                            final(self).text@ == old(self).text@ + t@ && texts_of(deltas@) == seq![t@]
                        } else {
                            final(self).text@ == old(self).text@ && deltas@.len() == 0
                        },
                        None => final(self).text@ == old(self).text@ && deltas@.len() == 0,
                    },
                _ => final(self).response_id@ == old(self).response_id@ && final(self).model@ == old(self).model@
                    && final(self).text@ == old(self).text@ && deltas@.len() == 0,
            },
    {
        let mut deltas: Vec<String> = Vec::new();
        match event {
            ResponsesStreamEvent::ResponseCreated { response } => {
                let r = match response {
                    Some(r) => Some(r),
                    None => None,
                };
                match opt_get_string(r, "id") {
                    Some(id) => {
                        self.response_id = id;
                    },
                    None => {},
                }
                match opt_get_string(r, "model") {
                    Some(m) => {
                        self.model = m;
                    },
                    None => {},
                }
            },
            ResponsesStreamEvent::ResponseOutputTextDelta { delta, .. } => match delta {
                Some(t) => {
                    if !t.as_str().is_empty() {
                        self.text.append(t.as_str());
                        deltas.push(t.clone());
                        assert(texts_of(deltas@) =~= seq![t@]);
                    }
                },
                None => {},
            },
            _ => {},
        }
        deltas
    }

    /// The canonical response of the folded stream: the text, if any, then
    /// one tool use per tool call in index order.
    pub fn into_response(self) -> (r: Result<CanonicalResponse, NodeError>)
        ensures
            r matches Ok(c) && c.id@ == self.response_id@ && c.model@ == self.model@
                && c.finish_reason == self.stop_reason && c.usage == self.usage
                && c.extensions.openai is None && c.extensions.anthropic is None
                && ({
                    let k: int = if self.text@.len() > 0 { 1 } else { 0 };
                    let s = slots_view(self.tool_slots@);
                    &&& c.content@.len() == k + s.len()
                    &&& (self.text@.len() > 0 ==> (c.content@[0] matches ContentBlock::Text(t) && t.text@ == self.text@))
                    &&& forall|q: int| 0 <= q < s.len() ==> slot_block(#[trigger] c.content@[k + q], s[q].1)
                }),
    {
        let ghost s = slots_view(self.tool_slots@);
        let ghost text_view = self.text@;
        let mut content: Vec<ContentBlock> = Vec::new();
        let has_text = !self.text.as_str().is_empty();
        let StreamFold { protocol: _, response_id, model, text, stop_reason, usage, tool_slots } = self;
        if has_text {
            content.push(ContentBlock::Text(TextContent { text }));
        }
        let ghost k: int = content@.len() as int;
        let mut q: usize = 0;
        while q < tool_slots.len()
            invariant
                q <= tool_slots@.len(),
                s == slots_view(tool_slots@),
                k == if text_view.len() > 0 { 1int } else { 0int },
                content@.len() == k + q,
                text_view.len() > 0 ==> (content@[0] matches ContentBlock::Text(t) && t.text@ == text_view),
                forall|j: int| 0 <= j < q ==> slot_block(#[trigger] content@[k + j], s[j].1),
            decreases tool_slots@.len() - q,
        {
            let acc = &tool_slots[q].1;
            let input = match parse_json(acc.args.as_str()) {
                Some(j) => j,
                None => JsonValue::String(acc.args.clone()),
            };
            content.push(ContentBlock::ToolUse(ToolUseBlock { id: acc.id.clone(), name: acc.name.clone(), input }));
            q = q + 1;
        }
        Ok(
            CanonicalResponse {
                id: response_id,
                model,
                content,
                finish_reason: stop_reason,
                usage,
                extensions: ProviderExtensions { openai: None, anthropic: None },
            },
        )
    }
}

// ─── Checking a provider's reply ────────────────────────────────────────────

/// Whether a body starts with the gzip magic bytes.
pub fn is_gzip(body: &[u8]) -> (b: bool)
    ensures
        b == (body@.len() >= 2 && body@[0] == 31u8 && body@[1] == 139u8),
{
    body.len() >= 2 && body[0] == 31u8 && body[1] == 139u8
}

/// Check a provider's successful reply: it must be a JSON object or array,
/// and an object must not carry an `error` member (a protocol-level error
/// sent with a success status).
pub fn check_provider_json(json: &JsonValue) -> (r: Result<(), NodeError>)
    ensures
        match json@ {
            Json::Object(_) => if json_get(json@, "error"@) is Some {
                r matches Err(NodeError::Provider(crate::error::ProtocolEngineError::ProviderError { message, status: None }))
                    && message@ == "provider returned error at 2xx: "@ + spec_json_to_string(json@)
            } else {
                r is Ok
            },
            Json::Array(_) => r is Ok,
            _ => r matches Err(NodeError::Provider(crate::error::ProtocolEngineError::InvalidPayload { message }))
                && message@ == "provider returned non-object JSON response"@,
        },
{
    match json {
        JsonValue::Object(_) => {
            if json.get("error").is_some() {
                let mut message = String::from_str("provider returned error at 2xx: ");
                let text = json.to_json_string();
                message.append(text.as_str());
                Err(NodeError::Provider(crate::error::ProtocolEngineError::ProviderError { message, status: None }))
            } else {
                Ok(())
            }
        },
        JsonValue::Array(_) => Ok(()),
        _ => Err(NodeError::Provider(crate::error::ProtocolEngineError::InvalidPayload {
            message: String::from_str("provider returned non-object JSON response"),
        })),
    }
}

/// The finish reason of the last choice that carries one decides the
/// folded reply's end: `stop`, `length` and `tool_calls` each give their own
/// canonical reason, so a reply cut off by the token limit is never taken
/// for a complete one.
pub proof fn chat_finish_reasons_fold(s: FoldView, cs: Seq<ChatChunkChoice>)
    requires
        cs.len() > 0,
        cs.last().finish_reason is Some,
    ensures
        ({
            let x = cs.last().finish_reason->0;
            let r = fold_choices(s, cs).stop_reason;
            &&& x@ == "stop"@ ==> r == Some(FinishReason::Stop)
            &&& x@ == "length"@ ==> r == Some(FinishReason::Length)
            &&& x@ == "tool_calls"@ ==> r == Some(FinishReason::ToolCalls)
            &&& x@ != "stop"@ && x@ != "length"@ && x@ != "tool_calls"@ ==> (r matches Some(FinishReason::Other(o)) && o@ == x@)
        }),
{
    reveal_strlit("stop");
    reveal_strlit("length");
    reveal_strlit("tool_calls");
    assert("stop"@ != "length"@ && "stop"@ != "tool_calls"@ && "length"@ != "tool_calls"@) by {
        assert("stop"@.len() != "length"@.len());
        assert("length"@[0] != "tool_calls"@[0]);
        assert("stop"@[0] != "tool_calls"@[0]);
    }
}

/// The end reason of a streamed reply survives the trip through OpenAI
/// Chat: the chunk the encoder writes for a message delta ending with
/// `Stop`, `Length` or `ToolCalls` folds back to that same reason.
pub proof fn streamed_finish_reason_round_trip(
    f: FinishReason,
    usage: Option<Usage>,
    id: Seq<char>,
    model: Seq<char>,
    created: u64,
    out: Option<ChatCompletionChunk>,
    s: FoldView,
)
    requires
        f is Stop || f is Length || f is ToolCalls,
        crate::adapters::openai_chat::encode::stream_event_encodes(
            crate::canonical::CanonicalStreamEvent::MessageDelta { stop_reason: Some(f), usage },
            id,
            model,
            created,
            out,
        ),
    ensures
        out matches Some(c) && fold_choices(s, c.choices@).stop_reason == Some(f),
{
    let c = out->0;
    assert(c.choices@.drop_last() =~= Seq::<ChatChunkChoice>::empty());
    chat_finish_reasons_fold(s, c.choices@);
    reveal_strlit("stop");
    reveal_strlit("length");
    reveal_strlit("tool_calls");
}

} // verus!
