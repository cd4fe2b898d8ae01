//! OpenAI Responses API adapter.
//!
//! Translates between the OpenAI Responses wire format and the canonical
//! model. The Responses API differs from Chat Completions:
//! - It takes `input` instead of `messages`, with flat items
//!   `{role, content: [...]}` and tool items of their own.
//! - The system prompt is the top-level `instructions`.
//! - Content parts are `input_text`, `input_image`, `input_audio`,
//!   `output_text`.
//! - Tools are flat: `{type: "function", name, description, parameters}`.
//! - The response holds `output` items, and its `status` stands for the
//!   finish reason.

use vstd::prelude::*;
use crate::adapters::{
    filter_mapped, first_error, flat_mapped, lemma_filter_mapped_push, lemma_first_error_prefix,
    lemma_first_error_push, lemma_flat_mapped_push, lemma_prefix_push, mapped,
};
use crate::adapters::openai_chat::decode::{
    audio_media_type, get_str_or, get_string_or_empty, input_or_empty, str_is, tool_input,
};
use crate::canonical::{
    AudioContent, AudioSource, CanonicalRequest, CanonicalResponse, CanonicalStreamEvent,
    ContentBlock, FinishReason, ImageContent, ImageSource, Message, MessageContent, Protocol,
    ProtocolCapabilities, ProviderExtensions, ReasoningContent, ResponseFormat, Role, SystemBlock,
    SystemInstruction, TextContent, ToolChoice, ToolDefinition, ToolResultBlock, ToolResultContent,
    ToolUseBlock, Usage, clone_opt_string, clone_strings, spec_blocks_of,
};
use crate::error::ProtocolEngineError;
use crate::json::{
    Json, JsonValue, clone_opt_json, entries_get, entries_view, json_as_bool, json_get,
    json_get_str, opt_json_view, parse_json, spec_json_to_string, spec_parse_json,
};
use crate::text::{join, opt_view, push_part};
use crate::json::{array_of, object_of};
use crate::adapters::openai_chat::encode::{encode_system_text, system_text};
use crate::adapters::anthropic_messages::{decode_system, join_json_texts, json_texts, system_decodes};
use crate::adapters::{lemma_filter_mapped_len, lemma_flat_mapped_empty};
use crate::text::{spec_decimal, str_chars, write_decimal};

verus! {

// ─── Wire types ─────────────────────────────────────────────────────────────

/// Top-level OpenAI Responses request body.
#[derive(Debug, Clone)]
pub struct ResponsesRequest {
    pub model: String,
    pub instructions: Option<JsonValue>,
    pub input: Option<JsonValue>,
    /// Sampling temperature, as decimal text.
    pub temperature: Option<String>,
    /// Nucleus sampling threshold, as decimal text.
    pub top_p: Option<String>,
    pub max_output_tokens: Option<u32>,
    pub stream: bool,
    pub stop: Option<Vec<String>>,
    pub tools: Option<Vec<ResponsesTool>>,
    pub tool_choice: Option<ResponsesToolChoice>,
    pub response_format: Option<JsonValue>,
    pub metadata: Option<JsonValue>,
    /// Provider-specific fields that no other field names, in key order.
    pub extra: Vec<(String, JsonValue)>,
}

/// A tool definition in the Responses API.
#[derive(Debug, Clone)]
pub struct ResponsesTool {
    /// Serialized as `type`.
    pub tool_type: String,
    pub name: Option<String>,
    pub description: Option<String>,
    pub parameters: Option<JsonValue>,
    pub strict: Option<bool>,
    /// Extra fields of non-function tools (web search, file search, ...).
    pub extra: Vec<(String, JsonValue)>,
}

/// Tool choice in the Responses API: a mode string, or an object.
#[derive(Debug, Clone)]
pub enum ResponsesToolChoice {
    String(String),
    Object(JsonValue),
}

/// A response item, the output unit of the Responses API.
#[derive(Debug, Clone)]
pub enum ResponsesItem {
    Message { id: String, role: String, content: Option<Vec<ResponsesContentPart>> },
    FunctionCall { id: String, call_id: Option<String>, name: String, arguments: String },
    FunctionCallOutput { call_id: String, output: Option<String> },
    Reasoning { id: String, summary: Option<Vec<ReasoningSummary>> },
    /// An item of another type, as JSON.
    Other(JsonValue),
}

/// Reasoning summary part in a Responses item.
#[derive(Debug, Clone)]
pub struct ReasoningSummary {
    /// Serialized as `type`.
    pub summary_type: String,
    pub text: String,
}

/// A content part within a message item.
#[derive(Debug, Clone)]
pub enum ResponsesContentPart {
    InputText { text: String },
    OutputText { text: String },
    InputImage { image_url: Option<String>, detail: Option<String> },
    InputAudio { input_audio: Option<JsonValue> },
    Refusal { refusal: String },
    /// A part of another type, as JSON.
    Other(JsonValue),
}

/// Top-level OpenAI Responses response.
#[derive(Debug, Clone)]
pub struct ResponsesResponse {
    pub id: String,
    pub object: String,
    pub model: Option<String>,
    pub output: Vec<ResponsesItem>,
    pub status: Option<String>,
    pub usage: Option<ResponsesUsage>,
}

/// Usage information in a Responses response.
#[derive(Debug, Clone)]
pub struct ResponsesUsage {
    pub input_tokens: Option<u32>,
    pub output_tokens: Option<u32>,
    pub total_tokens: Option<u32>,
    pub input_tokens_details: Option<JsonValue>,
    pub output_tokens_details: Option<JsonValue>,
}

/// A streaming event of the Responses API.
#[derive(Debug, Clone)]
pub enum ResponsesStreamEvent {
    ResponseCreated { response: Option<JsonValue> },
    ResponseInProgress { response: Option<JsonValue> },
    ResponseOutputItemAdded { output_index: Option<u32>, item: Option<ResponsesItem> },
    ResponseContentPartAdded {
        item_id: Option<String>,
        output_index: Option<u32>,
        content_index: Option<u32>,
        part: Option<ResponsesContentPart>,
    },
    ResponseOutputTextDelta {
        item_id: Option<String>,
        output_index: Option<u32>,
        content_index: Option<u32>,
        delta: Option<String>,
    },
    ResponseOutputTextDone {
        item_id: Option<String>,
        output_index: Option<u32>,
        content_index: Option<u32>,
        text: Option<String>,
    },
    ResponseFunctionCallArgumentsDelta {
        item_id: Option<String>,
        output_index: Option<u32>,
        delta: Option<String>,
    },
    ResponseFunctionCallArgumentsDone {
        item_id: Option<String>,
        output_index: Option<u32>,
        arguments: Option<String>,
    },
    ResponseCompleted { response: Option<ResponsesResponse> },
    Error { error: Option<JsonValue> },
    /// An event of another type, as JSON.
    Other(JsonValue),
}

// ─── Status ─────────────────────────────────────────────────────────────────

/// The canonical finish reason of a Responses status.
pub open spec fn status_decodes(s: Seq<char>, f: FinishReason) -> bool {
    if s == "completed"@ {
        f is Stop
    } else if s == "incomplete"@ {
        f is Length
    } else if s == "failed"@ || s == "cancelled"@ {
        f is Error
    } else {
        f matches FinishReason::Other(o) && o@ == s
    }
}

/// Map a Responses API status to a canonical finish reason.
pub fn decode_status(status: &str) -> (f: FinishReason)
    ensures
        status_decodes(status@, f),
{
    if str_is(status, "completed") {
        FinishReason::Stop
    } else if str_is(status, "incomplete") {
        FinishReason::Length
    } else if str_is(status, "failed") {
        FinishReason::Error
    } else if str_is(status, "cancelled") {
        FinishReason::Error
    } else {
        FinishReason::Other(String::from_str(status))
    }
}

/// The Responses status of a canonical finish reason.
pub open spec fn spec_encode_status(r: FinishReason) -> Seq<char> {
    match r {
        FinishReason::Stop => "completed"@,
        FinishReason::StopSequence => "completed"@,
        FinishReason::Length => "incomplete"@,
        FinishReason::ToolCalls => "incomplete"@,
        FinishReason::ContentFilter => "incomplete"@,
        FinishReason::Error => "failed"@,
        FinishReason::Other(_) => "in_progress"@,
    }
}

/// Map a canonical finish reason to a Responses status.
pub fn encode_status(reason: &FinishReason) -> (s: &'static str)
    ensures
        s@ == spec_encode_status(*reason),
{
    match reason {
        FinishReason::Stop => "completed",
        FinishReason::StopSequence => "completed",
        FinishReason::Length => "incomplete",
        FinishReason::ToolCalls => "incomplete",
        FinishReason::ContentFilter => "incomplete",
        FinishReason::Error => "failed",
        FinishReason::Other(_) => "in_progress",
    }
}

// ─── Protocol info ──────────────────────────────────────────────────────────

/// The capabilities of the OpenAI Responses API. Reasoning is exposed as
/// summaries, not raw tokens.
pub open spec fn spec_capabilities() -> ProtocolCapabilities {
    ProtocolCapabilities {
        streaming: true,
        tools: true,
        tool_streaming: true,
        multimodal_input: true,
        structured_output: true,
        reasoning: true,
        usage_streaming: true,
        deferred_tools: false,
    }
}

/// Return the protocol capabilities for OpenAI Responses.
pub fn capabilities() -> (c: ProtocolCapabilities)
    ensures
        c == spec_capabilities(),
{
    ProtocolCapabilities {
        streaming: true,
        tools: true,
        tool_streaming: true,
        multimodal_input: true,
        structured_output: true,
        reasoning: true,
        usage_streaming: true,
        deferred_tools: false,
    }
}

/// Return the protocol identifier.
pub fn protocol() -> (p: Protocol)
    ensures
        p == Protocol::OpenAiResponses,
{
    Protocol::OpenAiResponses
}

// ─── Content parts ──────────────────────────────────────────────────────────

/// Whether a JSON content part yields a block: it has a `type`, and an
/// audio part has its payload.
pub open spec fn part_emits(j: Json) -> bool {
    json_get_str(j, "type"@) is Some && !(json_get_str(j, "type"@) == Some("input_audio"@) && json_get(
        j,
        "input_audio"@,
    ) is None)
}

/// `c` is the canonical block of the JSON content part `j`. A part of an
/// unknown type becomes a text block holding its JSON text.
pub open spec fn part_decodes(j: Json, c: ContentBlock) -> bool {
    let t = json_get_str(j, "type"@)->0;
    if t == "input_text"@ || t == "output_text"@ || t == "text"@ {
        c matches ContentBlock::Text(x) && x.text@ == get_str_or(j, "text"@, Seq::empty())
    } else if t == "input_image"@ {
        c matches ContentBlock::Image(img) && (img.source matches ImageSource::Url { url, detail }
            && url@ == get_str_or(j, "image_url"@, Seq::empty()) && opt_view(detail) == json_get_str(
            j,
            "detail"@,
        ))
    } else if t == "input_audio"@ {
        let a = json_get(j, "input_audio"@)->0;
        c matches ContentBlock::Audio(au) && (au.source matches AudioSource::Base64 {
            media_type,
            data,
            format,
        } && data@ == get_str_or(a, "data"@, Seq::empty()) && opt_view(format) == json_get_str(
            a,
            "format"@,
        ) && media_type@ == audio_media_type(json_get_str(a, "format"@)))
    } else if t == "refusal"@ {
        c matches ContentBlock::Text(x) && x.text@ == get_str_or(j, "refusal"@, Seq::empty())
    } else {
        c matches ContentBlock::Text(x) && x.text@ == spec_json_to_string(j)
    }
}

/// `bs` are the canonical blocks of a `content` value: none for an absent
/// or null content, a text block for a string, a block per part that has
/// one for an array, and the JSON text of any other value.
pub open spec fn parts_decode(c: Option<Json>, bs: Seq<ContentBlock>) -> bool {
    match c {
        None => bs.len() == 0,
        Some(Json::Null) => bs.len() == 0,
        Some(Json::Str(s)) => bs.len() == 1 && (bs[0] matches ContentBlock::Text(t) && t.text@ == s),
        Some(Json::Array(items)) => filter_mapped(items, bs, |j: Json| part_emits(j), |j: Json, c: ContentBlock| part_decodes(j, c)),
        Some(other) => bs.len() == 1 && (bs[0] matches ContentBlock::Text(t) && t.text@ == spec_json_to_string(other)),
    }
}

/// Decode a single content part; none when it has no type, or is audio
/// without its payload.
fn decode_content_part(value: &JsonValue) -> (r: Result<Option<ContentBlock>, ProtocolEngineError>)
    ensures
        r matches Ok(o) && (o is Some == part_emits(value@)) && (o matches Some(c) ==> part_decodes(value@, c)),
{
    let part_type = match value.get_str("type") {
        Some(t) => t,
        None => {
            return Ok(None);
        },
    };
    proof {
        reveal_strlit("input_audio");
        reveal_strlit("input_text");
        reveal_strlit("output_text");
        reveal_strlit("text");
        reveal_strlit("input_image");
        reveal_strlit("refusal");
        assert("input_audio"@.len() == 11 && "input_text"@.len() == 10 && "text"@.len() == 4 && "input_image"@.len() == 11 && "refusal"@.len() == 7);
        assert("input_audio"@[6] != "input_image"@[6]);
        assert("input_audio"@[0] != "output_text"@[0]);
    }
    if str_is(part_type.as_str(), "input_text") || str_is(part_type.as_str(), "output_text") || str_is(part_type.as_str(), "text") {
        Ok(Some(ContentBlock::Text(TextContent { text: get_string_or_empty(value, "text") })))
    } else if str_is(part_type.as_str(), "input_image") {
        let url = get_string_or_empty(value, "image_url");
        let detail = value.get_str("detail");
        Ok(Some(ContentBlock::Image(ImageContent { source: ImageSource::Url { url, detail } })))
    } else if str_is(part_type.as_str(), "input_audio") {
        match value.get("input_audio") {
            Some(audio_obj) => {
                let data = get_string_or_empty(audio_obj, "data");
                let format = audio_obj.get_str("format");
                let media_type = match &format {
                    Some(f) => {
                        let mut m = String::from_str("audio/");
                        m.append(f.as_str());
                        m
                    },
                    None => String::from_str("application/octet-stream"),
                };
                Ok(Some(ContentBlock::Audio(AudioContent { source: AudioSource::Base64 { media_type, data, format } })))
            },
            None => Ok(None),
        }
    } else if str_is(part_type.as_str(), "refusal") {
        Ok(Some(ContentBlock::Text(TextContent { text: get_string_or_empty(value, "refusal") })))
    } else {
        Ok(Some(ContentBlock::Text(TextContent { text: value.to_json_string() })))
    }
}

/// Decode the content of an input item.
#[verifier::loop_isolation(false)]
fn decode_content_parts(content: &Option<JsonValue>) -> (r: Result<Vec<ContentBlock>, ProtocolEngineError>)
    ensures
        r matches Ok(bs) && parts_decode(opt_json_view(*content), bs@),
{
    match content {
        None => Ok(Vec::new()),
        Some(JsonValue::Null) => Ok(Vec::new()),
        Some(JsonValue::String(s)) => Ok(vec![ContentBlock::Text(TextContent { text: s.clone() })]),
        Some(JsonValue::Array(parts)) => {
            proof {
                crate::json::lemma_array_view(*parts);
            }
            let ghost vs = Seq::new(parts@.len(), |i: int| parts@[i]@);
            let mut result: Vec<ContentBlock> = Vec::new();
            let mut i: usize = 0;
            assert(vs.subrange(0, 0) =~= Seq::<Json>::empty());
            while i < parts.len()
                invariant
                    i <= parts@.len(),
                    filter_mapped(vs.subrange(0, i as int), result@, |j: Json| part_emits(j), |j: Json, c: ContentBlock| part_decodes(j, c)),
                decreases parts@.len() - i,
            {
                proof {
                    lemma_prefix_push(vs, i as int);
                }
                let r = decode_content_part(&parts[i]);
                match r {
                    Ok(Some(b)) => {
                        proof {
                            lemma_filter_mapped_push(vs.subrange(0, i as int), result@, |j: Json| part_emits(j), |j: Json, c: ContentBlock| part_decodes(j, c), vs[i as int], b);
                        }
                        result.push(b);
                    },
                    _ => {
                        proof {
                            lemma_filter_mapped_push(vs.subrange(0, i as int), result@, |j: Json| part_emits(j), |j: Json, c: ContentBlock| part_decodes(j, c), vs[i as int], arbitrary());
                        }
                    },
                }
                i = i + 1;
            }
            assert(vs.subrange(0, vs.len() as int) =~= vs);
            Ok(result)
        },
        Some(other) => Ok(vec![ContentBlock::Text(TextContent { text: other.to_json_string() })]),
    }
}

// ─── Responses ──────────────────────────────────────────────────────────────

/// `seg` are the canonical blocks of one content part of an output message:
/// text parts give a text block, a part of another type is decoded as a
/// JSON content part, and the remaining known kinds give nothing.
pub open spec fn part_out(p: ResponsesContentPart, seg: Seq<ContentBlock>) -> bool {
    match p {
        ResponsesContentPart::OutputText { text } => seg.len() == 1 && (seg[0] matches ContentBlock::Text(t) && t.text@ == text@),
        ResponsesContentPart::InputText { text } => seg.len() == 1 && (seg[0] matches ContentBlock::Text(t) && t.text@ == text@),
        ResponsesContentPart::Other(v) => parts_decode(Some(v@), seg),
        _ => seg.len() == 0,
    }
}

/// The summary texts of a reasoning item, joined by newlines.
pub open spec fn summary_text(ss: Seq<ReasoningSummary>) -> Seq<char> {
    join(ss.map_values(|s: ReasoningSummary| s.text@), "\n"@)
}

/// `seg` are the canonical blocks of one output item.
pub open spec fn item_out(it: ResponsesItem, seg: Seq<ContentBlock>) -> bool {
    match it {
        ResponsesItem::Message { content, .. } => match content {
            Some(parts) => flat_mapped(parts@, seg, |p: ResponsesContentPart, s: Seq<ContentBlock>| part_out(p, s)),
            None => seg.len() == 0,
        },
        ResponsesItem::FunctionCall { id, name, arguments, .. } => seg.len() == 1 && (seg[0] matches ContentBlock::ToolUse(tu)
            && tu.id@ == id@ && tu.name@ == name@ && tu.input@ == input_or_empty(spec_parse_json(arguments@))),
        ResponsesItem::Reasoning { summary, .. } => match summary {
            Some(ss) => seg.len() == 1 && (seg[0] matches ContentBlock::Reasoning(r) && r.thinking@ == summary_text(ss@)
                && r.signature is None),
            None => seg.len() == 0,
        },
        _ => seg.len() == 0,
    }
}

/// The canonical usage of Responses usage.
pub open spec fn spec_usage_of(u: ResponsesUsage) -> Usage {
    Usage {
        input_tokens: u.input_tokens,
        output_tokens: u.output_tokens,
        total_tokens: u.total_tokens,
        cache_creation_input_tokens: None,
        cache_read_input_tokens: None,
    }
}

/// `c` is the canonical form of the Responses response `w`.
pub open spec fn response_decodes(w: ResponsesResponse, c: CanonicalResponse) -> bool {
    &&& c.id@ == w.id@
    &&& c.model@ == match w.model {
        Some(m) => m@,
        None => Seq::empty(),
    }
    &&& flat_mapped(w.output@, c.content@, |it: ResponsesItem, s: Seq<ContentBlock>| item_out(it, s))
    &&& match w.status {
        Some(s) => c.finish_reason matches Some(f) && status_decodes(s@, f),
        None => c.finish_reason is None,
    }
    &&& c.usage == match w.usage {
        Some(u) => Some(spec_usage_of(u)),
        None => None,
    }
    &&& c.extensions.openai is None
    &&& c.extensions.anthropic is None
}

/// The canonical blocks of one content part of an output message.
fn decode_output_part(part: &ResponsesContentPart) -> (seg: Vec<ContentBlock>)
    ensures
        part_out(*part, seg@),
{
    match part {
        ResponsesContentPart::OutputText { text } => vec![ContentBlock::Text(TextContent { text: text.clone() })],
        ResponsesContentPart::InputText { text } => vec![ContentBlock::Text(TextContent { text: text.clone() })],
        ResponsesContentPart::Other(other) => {
            let v = Some(other.deep_clone());
            match decode_content_parts(&v) {
                Ok(bs) => bs,
                Err(_) => Vec::new(),
            }
        },
        _ => Vec::new(),
    }
}

/// The summary texts joined by newlines.
fn join_summaries(ss: &Vec<ReasoningSummary>) -> (t: String)
    ensures
        t@ == summary_text(ss@),
{
    let ghost ps = ss@.map_values(|s: ReasoningSummary| s.text@);
    let mut out = String::new();
    let mut i: usize = 0;
    assert(ps.subrange(0, 0) =~= Seq::<Seq<char>>::empty());
    while i < ss.len()
        invariant
            i <= ss@.len(),
            ps == ss@.map_values(|s: ReasoningSummary| s.text@),
            out@ == join(ps.subrange(0, i as int), "\n"@),
        decreases ss@.len() - i,
    {
        push_part(&mut out, i == 0, "\n", ss[i].text.as_str(), Ghost(ps.subrange(0, i as int)));
        assert(ps.subrange(0, i as int).push(ss@[i as int].text@) =~= ps.subrange(0, i + 1));
        i = i + 1;
    }
    assert(ps.subrange(0, ps.len() as int) =~= ps);
    out
}

/// The canonical blocks of one output item.
fn decode_output_item(item: &ResponsesItem) -> (seg: Vec<ContentBlock>)
    ensures
        item_out(*item, seg@),
{
    match item {
        ResponsesItem::Message { content: Some(parts), .. } => {
            let mut out: Vec<ContentBlock> = Vec::new();
            let mut i: usize = 0;
            assert(parts@.subrange(0, 0) =~= Seq::<ResponsesContentPart>::empty());
            proof {
                lemma_flat_mapped_empty(|p: ResponsesContentPart, s: Seq<ContentBlock>| part_out(p, s));
            }
            while i < parts.len()
                invariant
                    i <= parts@.len(),
                    flat_mapped(parts@.subrange(0, i as int), out@, |p: ResponsesContentPart, s: Seq<ContentBlock>| part_out(p, s)),
                decreases parts@.len() - i,
            {
                proof {
                    lemma_prefix_push(parts@, i as int);
                }
                let mut seg = decode_output_part(&parts[i]);
                let ghost before = out@;
                let ghost sv = seg@;
                proof {
                    lemma_flat_mapped_push(parts@.subrange(0, i as int), before, |p: ResponsesContentPart, s: Seq<ContentBlock>| part_out(p, s), parts@[i as int], sv);
                }
                out.append(&mut seg);
                i = i + 1;
            }
            assert(parts@.subrange(0, parts@.len() as int) =~= parts@);
            out
        },
        ResponsesItem::Message { content: None, .. } => Vec::new(),
        ResponsesItem::FunctionCall { id, name, arguments, .. } => {
            let input = tool_input(parse_json(arguments.as_str()));
            vec![ContentBlock::ToolUse(ToolUseBlock { id: id.clone(), name: name.clone(), input })]
        },
        ResponsesItem::Reasoning { summary, .. } => match summary {
            Some(ss) => vec![ContentBlock::Reasoning(ReasoningContent { thinking: join_summaries(ss), signature: None })],
            None => Vec::new(),
        },
        ResponsesItem::FunctionCallOutput { .. } => Vec::new(),
        ResponsesItem::Other(_) => Vec::new(),
    }
}

/// Decode an OpenAI Responses response into a canonical response.
pub fn decode_response(resp: ResponsesResponse) -> (r: Result<CanonicalResponse, ProtocolEngineError>)
    ensures
        r matches Ok(c) && response_decodes(resp, c),
{
    let mut content: Vec<ContentBlock> = Vec::new();
    let mut i: usize = 0;
    assert(resp.output@.subrange(0, 0) =~= Seq::<ResponsesItem>::empty());
    proof {
        lemma_flat_mapped_empty(|it: ResponsesItem, s: Seq<ContentBlock>| item_out(it, s));
    }
    while i < resp.output.len()
        invariant
            i <= resp.output@.len(),
            flat_mapped(resp.output@.subrange(0, i as int), content@, |it: ResponsesItem, s: Seq<ContentBlock>| item_out(it, s)),
        decreases resp.output@.len() - i,
    {
        proof {
            lemma_prefix_push(resp.output@, i as int);
        }
        let mut seg = decode_output_item(&resp.output[i]);
        let ghost before = content@;
        let ghost sv = seg@;
        proof {
            lemma_flat_mapped_push(resp.output@.subrange(0, i as int), before, |it: ResponsesItem, s: Seq<ContentBlock>| item_out(it, s), resp.output@[i as int], sv);
        }
        content.append(&mut seg);
        i = i + 1;
    }
    assert(resp.output@.subrange(0, resp.output@.len() as int) =~= resp.output@);

    let finish_reason = match &resp.status {
        Some(s) => Some(decode_status(s.as_str())),
        None => None,
    };
    let usage = match &resp.usage {
        Some(u) => Some(
            Usage {
                input_tokens: u.input_tokens,
                output_tokens: u.output_tokens,
                total_tokens: u.total_tokens,
                cache_creation_input_tokens: None,
                cache_read_input_tokens: None,
            },
        ),
        None => None,
    };
    let model = match &resp.model {
        Some(m) => m.clone(),
        None => String::new(),
    };
    Ok(
        CanonicalResponse {
            id: resp.id.clone(),
            model,
            content,
            finish_reason,
            usage,
            extensions: ProviderExtensions { openai: None, anthropic: None },
        },
    )
}

/// The feature named when a block cannot be Responses output.
pub open spec fn output_error(b: ContentBlock) -> Option<Seq<char>> {
    match b {
        ContentBlock::Image(_) => Some("image_output"@),
        ContentBlock::Audio(_) => Some("audio_output"@),
        _ => None,
    }
}

/// The reason given for a feature that cannot be Responses output.
pub open spec fn output_error_reason(feature: Seq<char>) -> Seq<char> {
    if feature == "image_output"@ {
        "OpenAI Responses API does not support image output"@
    } else {
        "OpenAI Responses API does not support audio output blocks"@
    }
}

/// `it` is the output item of the canonical block `b` in a response created
/// at `created`: text becomes an assistant message `msg_<created>`, a tool
/// use a function call.
pub open spec fn item_encodes(b: ContentBlock, created: u64, it: ResponsesItem) -> bool {
    match b {
        ContentBlock::Text(t) => it matches ResponsesItem::Message { id, role, content } && id@ == "msg_"@
            + crate::text::spec_decimal(created as nat) && role@ == "assistant"@ && (content matches Some(
            parts,
        ) && parts@.len() == 1 && (parts@[0] matches ResponsesContentPart::OutputText { text } && text@
            == t.text@)),
        ContentBlock::ToolUse(tu) => it matches ResponsesItem::FunctionCall { id, call_id, name, arguments }
            && id@ == tu.id@ && call_id is None && name@ == tu.name@ && arguments@ == spec_json_to_string(
            tu.input@,
        ),
        _ => false,
    }
}

/// The Responses usage of canonical usage.
pub open spec fn usage_encodes(u: Usage, w: ResponsesUsage) -> bool {
    w.input_tokens == u.input_tokens && w.output_tokens == u.output_tokens && w.total_tokens
        == u.total_tokens && w.input_tokens_details is None && w.output_tokens_details is None
}

/// `w` is the Responses form of the canonical response `c` created at
/// `created`.
pub open spec fn response_encodes(c: CanonicalResponse, created: u64, w: ResponsesResponse) -> bool {
    &&& w.id@ == c.id@
    &&& w.object@ == "response"@
    &&& w.model matches Some(m) && m@ == c.model@
    &&& filter_mapped(c.content@, w.output@, |b: ContentBlock| b is Text || b is ToolUse, |b: ContentBlock, it: ResponsesItem| item_encodes(b, created, it))
    &&& match c.finish_reason {
        Some(f) => w.status matches Some(s) && s@ == spec_encode_status(f),
        None => w.status is None,
    }
    &&& match c.usage {
        Some(u) => w.usage matches Some(x) && usage_encodes(u, x),
        None => w.usage is None,
    }
}

/// Encode a canonical response into the OpenAI Responses format. It fails
/// exactly when the content holds an image or audio, naming the first such
/// block's feature.
pub fn encode_response(resp: &CanonicalResponse, created: u64) -> (r: Result<ResponsesResponse, ProtocolEngineError>)
    ensures
        match r {
            Ok(w) => first_error(resp.content@, |b: ContentBlock| output_error(b)) is None && response_encodes(*resp, created, w),
            Err(e) => first_error(resp.content@, |b: ContentBlock| output_error(b)) matches Some(f) && (e matches ProtocolEngineError::UnsupportedFeature { feature, reason } && feature@ == f && reason@ == output_error_reason(f)),
        },
{
    let mut output: Vec<ResponsesItem> = Vec::new();
    let mut i: usize = 0;
    assert(resp.content@.subrange(0, 0) =~= Seq::<ContentBlock>::empty());
    while i < resp.content.len()
        invariant
            i <= resp.content@.len(),
            first_error(resp.content@.subrange(0, i as int), |b: ContentBlock| output_error(b)) is None,
            filter_mapped(resp.content@.subrange(0, i as int), output@, |b: ContentBlock| b is Text || b is ToolUse, |b: ContentBlock, it: ResponsesItem| item_encodes(b, created, it)),
        decreases resp.content@.len() - i,
    {
        let ghost pre = resp.content@.subrange(0, i as int);
        proof {
            lemma_prefix_push(resp.content@, i as int);
            lemma_first_error_push(pre, |b: ContentBlock| output_error(b), resp.content@[i as int]);
        }
        let item: Option<ResponsesItem> = match &resp.content[i] {
            ContentBlock::Text(t) => {
                let mut id = String::from_str("msg_");
                crate::text::write_decimal(&mut id, created);
                Some(
                    ResponsesItem::Message {
                        id,
                        role: String::from_str("assistant"),
                        content: Some(vec![ResponsesContentPart::OutputText { text: t.text.clone() }]),
                    },
                )
            },
            ContentBlock::ToolUse(tu) => Some(
                ResponsesItem::FunctionCall {
                    id: tu.id.clone(),
                    call_id: None,
                    name: tu.name.clone(),
                    arguments: tu.input.to_json_string(),
                },
            ),
            ContentBlock::Image(_) => {
                proof {
                    lemma_first_error_prefix(resp.content@, |b: ContentBlock| output_error(b), i as int + 1);
                }
                return Err(
                    ProtocolEngineError::UnsupportedFeature {
                        feature: String::from_str("image_output"),
                        reason: String::from_str("OpenAI Responses API does not support image output"),
                    },
                );
            },
            ContentBlock::Audio(_) => {
                proof {
                    lemma_first_error_prefix(resp.content@, |b: ContentBlock| output_error(b), i as int + 1);
                    reveal_strlit("image_output");
                    reveal_strlit("audio_output");
                    assert("image_output"@[0] != "audio_output"@[0]);
                }
                return Err(
                    ProtocolEngineError::UnsupportedFeature {
                        feature: String::from_str("audio_output"),
                        reason: String::from_str("OpenAI Responses API does not support audio output blocks"),
                    },
                );
            },
            _ => None,
        };
        match item {
            Some(it) => {
                proof {
                    lemma_filter_mapped_push(pre, output@, |b: ContentBlock| b is Text || b is ToolUse, |b: ContentBlock, it: ResponsesItem| item_encodes(b, created, it), resp.content@[i as int], it);
                }
                output.push(it);
            },
            None => {
                proof {
                    lemma_filter_mapped_push(pre, output@, |b: ContentBlock| b is Text || b is ToolUse, |b: ContentBlock, it: ResponsesItem| item_encodes(b, created, it), resp.content@[i as int], arbitrary());
                }
            },
        }
        i = i + 1;
    }
    assert(resp.content@.subrange(0, resp.content@.len() as int) =~= resp.content@);

    let status = match &resp.finish_reason {
        Some(f) => Some(String::from_str(encode_status(f))),
        None => None,
    };
    let usage = match &resp.usage {
        Some(u) => Some(
            ResponsesUsage {
                input_tokens: u.input_tokens,
                output_tokens: u.output_tokens,
                total_tokens: u.total_tokens,
                input_tokens_details: None,
                output_tokens_details: None,
            },
        ),
        None => None,
    };
    Ok(
        ResponsesResponse {
            id: resp.id.clone(),
            object: String::from_str("response"),
            model: Some(resp.model.clone()),
            output,
            status,
            usage,
        },
    )
}

// ─── Stream events ──────────────────────────────────────────────────────────

/// The JSON object `{"id": id, "object": "response", "status": "in_progress"}`.
pub open spec fn created_json(id: Seq<char>) -> Json {
    Json::Object(
        seq![
            ("id"@, Json::Str(id)),
            ("object"@, Json::Str("response"@)),
            ("status"@, Json::Str("in_progress"@)),
        ],
    )
}

/// `r` is the response summary of a completed stream: no output, and the
/// given status and usage.
pub open spec fn completed_response(r: ResponsesResponse, id: Seq<char>, status: Option<Seq<char>>, usage: Option<Usage>) -> bool {
    &&& r.id@ == id
    &&& r.object@ == "response"@
    &&& r.model is None
    &&& r.output@.len() == 0
    &&& opt_view(r.status) == status
    &&& match usage {
        Some(u) => r.usage matches Some(x) && usage_encodes(u, x),
        None => r.usage is None,
    }
}

/// `out` is the Responses stream event for the canonical event `e`, or none
/// when it has no equivalent.
pub open spec fn stream_event_encodes(
    e: CanonicalStreamEvent,
    response_id: Seq<char>,
    item_id: Seq<char>,
    output_index: u32,
    content_index: u32,
    out: Option<ResponsesStreamEvent>,
) -> bool {
    match e {
        CanonicalStreamEvent::MessageStart { .. } => out matches Some(
            ResponsesStreamEvent::ResponseCreated { response },
        ) && (response matches Some(j) && j@ == created_json(response_id)),
        CanonicalStreamEvent::ContentBlockStart { content_block, .. } => match content_block {
            ContentBlock::Text(_) => out matches Some(
                ResponsesStreamEvent::ResponseContentPartAdded { item_id: i, output_index: o, content_index: c, part },
            ) && opt_view(i) == Some(item_id) && o == Some(output_index) && c == Some(content_index) && (part matches Some(
                ResponsesContentPart::OutputText { text },
            ) && text@.len() == 0),
            ContentBlock::ToolUse(tu) => out matches Some(
                ResponsesStreamEvent::ResponseOutputItemAdded { output_index: o, item },
            ) && o == Some(output_index) && (item matches Some(
                ResponsesItem::FunctionCall { id, call_id, name, arguments },
            ) && id@ == tu.id@ && call_id is None && name@ == tu.name@ && arguments@.len() == 0),
            _ => out is None,
        },
        CanonicalStreamEvent::TextDelta { text, .. } => out matches Some(
            ResponsesStreamEvent::ResponseOutputTextDelta { item_id: i, output_index: o, content_index: c, delta },
        ) && opt_view(i) == Some(item_id) && o == Some(output_index) && c == Some(content_index) && opt_view(delta)
            == Some(text@),
        CanonicalStreamEvent::ToolCallDelta { input_json_delta, .. } => match input_json_delta {
            Some(d) => out matches Some(
                ResponsesStreamEvent::ResponseFunctionCallArgumentsDelta { item_id: i, output_index: o, delta },
            ) && opt_view(i) == Some(item_id) && o == Some(output_index) && opt_view(delta) == Some(d@),
            None => out is None,
        },
        CanonicalStreamEvent::MessageDelta { stop_reason, usage } => out matches Some(
            ResponsesStreamEvent::ResponseCompleted { response },
        ) && (response matches Some(r) && completed_response(r, response_id, match stop_reason {
            Some(f) => Some(spec_encode_status(f)),
            None => None,
        }, usage)),
        CanonicalStreamEvent::Usage { usage } => out matches Some(
            ResponsesStreamEvent::ResponseCompleted { response },
        ) && (response matches Some(r) && completed_response(r, response_id, Some("completed"@), Some(usage))),
        _ => out is None,
    }
}

fn responses_usage(u: &Usage) -> (w: ResponsesUsage)
    ensures
        usage_encodes(*u, w),
{
    ResponsesUsage {
        input_tokens: u.input_tokens,
        output_tokens: u.output_tokens,
        total_tokens: u.total_tokens,
        input_tokens_details: None,
        output_tokens_details: None,
    }
}

/// Encode a canonical stream event into a Responses stream event; none for
/// events without an equivalent. An error event is returned as a provider
/// error.
pub fn encode_stream_event(
    event: &CanonicalStreamEvent,
    response_id: &str,
    item_id: &str,
    output_index: u32,
    content_index: u32,
) -> (r: Result<Option<ResponsesStreamEvent>, ProtocolEngineError>)
    ensures
        match *event {
            CanonicalStreamEvent::Error { message, .. } => r matches Err(e) && (e matches ProtocolEngineError::ProviderError { message: m, status: None } && m@ == message@),
            _ => r matches Ok(out) && stream_event_encodes(*event, response_id@, item_id@, output_index, content_index, out),
        },
{
    match event {
        CanonicalStreamEvent::MessageStart { .. } => {
            let mut es: Vec<(String, JsonValue)> = Vec::new();
            es.push((String::from_str("id"), JsonValue::String(String::from_str(response_id))));
            es.push((String::from_str("object"), JsonValue::String(String::from_str("response"))));
            es.push((String::from_str("status"), JsonValue::String(String::from_str("in_progress"))));
            proof {
                crate::json::lemma_object_view(es);
            }
            let j = JsonValue::Object(es);
            assert(j@ == created_json(response_id@)) by {
                let t = Seq::new(es@.len(), |i: int| (es@[i].0@, es@[i].1@));
                if let Json::Object(o) = created_json(response_id@) {
                    assert(t =~= o);
                }
            }
            Ok(Some(ResponsesStreamEvent::ResponseCreated { response: Some(j) }))
        },
        CanonicalStreamEvent::ContentBlockStart { content_block, .. } => match content_block {
            ContentBlock::Text(_) => Ok(Some(
                ResponsesStreamEvent::ResponseContentPartAdded {
                    item_id: Some(String::from_str(item_id)),
                    output_index: Some(output_index),
                    content_index: Some(content_index),
                    part: Some(ResponsesContentPart::OutputText { text: String::new() }),
                },
            )),
            ContentBlock::ToolUse(tu) => Ok(Some(
                ResponsesStreamEvent::ResponseOutputItemAdded {
                    output_index: Some(output_index),
                    item: Some(
                        ResponsesItem::FunctionCall {
                            id: tu.id.clone(),
                            call_id: None,
                            name: tu.name.clone(),
                            arguments: String::new(),
                        },
                    ),
                },
            )),
            _ => Ok(None),
        },
        CanonicalStreamEvent::TextDelta { text, .. } => Ok(Some(
            ResponsesStreamEvent::ResponseOutputTextDelta {
                item_id: Some(String::from_str(item_id)),
                output_index: Some(output_index),
                content_index: Some(content_index),
                delta: Some(text.clone()),
            },
        )),
        CanonicalStreamEvent::ToolCallDelta { input_json_delta, .. } => match input_json_delta {
            Some(delta) => Ok(Some(
                ResponsesStreamEvent::ResponseFunctionCallArgumentsDelta {
                    item_id: Some(String::from_str(item_id)),
                    output_index: Some(output_index),
                    delta: Some(delta.clone()),
                },
            )),
            None => Ok(None),
        },
        CanonicalStreamEvent::AudioDelta { .. } => Ok(None),
        CanonicalStreamEvent::ReasoningDelta { .. } => Ok(None),
        CanonicalStreamEvent::ReasoningSignature { .. } => Ok(None),
        CanonicalStreamEvent::ContentBlockStop { .. } => Ok(None),
        CanonicalStreamEvent::MessageDelta { stop_reason, usage } => {
            let status = match stop_reason {
                Some(f) => Some(String::from_str(encode_status(f))),
                None => None,
            };
            let usage = match usage {
                Some(u) => Some(responses_usage(u)),
                None => None,
            };
            Ok(Some(
                ResponsesStreamEvent::ResponseCompleted {
                    response: Some(
                        ResponsesResponse {
                            id: String::from_str(response_id),
                            object: String::from_str("response"),
                            model: None,
                            output: Vec::new(),
                            status,
                            usage,
                        },
                    ),
                },
            ))
        },
        CanonicalStreamEvent::Usage { usage } => Ok(Some(
            ResponsesStreamEvent::ResponseCompleted {
                response: Some(
                    ResponsesResponse {
                        id: String::from_str(response_id),
                        object: String::from_str("response"),
                        model: None,
                        output: Vec::new(),
                        status: Some(String::from_str("completed")),
                        usage: Some(responses_usage(usage)),
                    },
                ),
            },
        )),
        CanonicalStreamEvent::MessageStop => Ok(None),
        CanonicalStreamEvent::Error { message, .. } => Err(ProtocolEngineError::ProviderError { message: message.clone(), status: None }),
        CanonicalStreamEvent::Ping => Ok(None),
    }
}

// ─── Request encoding (canonical → Responses) ──────────────────────────────

/// The Responses role of a canonical role; tool results travel in user
/// turns.
pub open spec fn input_role(r: Role) -> Seq<char> {
    match r {
        Role::User => "user"@,
        Role::Assistant => "assistant"@,
        Role::System => "system"@,
        Role::Tool => "user"@,
    }
}

/// The URL of an image: its URL, or a `data:` URL for inline data.
pub open spec fn image_url_of(s: ImageSource) -> Seq<char> {
    match s {
        ImageSource::Url { url, .. } => url@,
        ImageSource::Base64 { media_type, data } => "data:"@ + media_type@ + ";base64,"@ + data@,
    }
}

/// The input parts of a message's blocks: text and images.
pub open spec fn input_parts(bs: Seq<ContentBlock>) -> Seq<Json>
    decreases bs.len(),
{
    if bs.len() == 0 {
        Seq::empty()
    } else {
        let init = input_parts(bs.drop_last());
        match bs.last() {
            ContentBlock::Text(t) => init.push(
                Json::Object(seq![("text"@, Json::Str(t.text@)), ("type"@, Json::Str("input_text"@))]),
            ),
            ContentBlock::Image(img) => init.push(
                Json::Object(
                    seq![("image_url"@, Json::Str(image_url_of(img.source))), ("type"@, Json::Str("input_image"@))],
                ),
            ),
            _ => init,
        }
    }
}

/// The `function_call_output` items of a message's tool results.
pub open spec fn output_items(bs: Seq<ContentBlock>) -> Seq<Json>
    decreases bs.len(),
{
    if bs.len() == 0 {
        Seq::empty()
    } else {
        let init = output_items(bs.drop_last());
        match bs.last() {
            ContentBlock::ToolResult(tr) => init.push(
                Json::Object(
                    seq![
                        ("call_id"@, Json::Str(tr.tool_use_id@)),
                        ("output"@, Json::Str(tool_output_text(tr.content))),
                        ("type"@, Json::Str("function_call_output"@)),
                    ],
                ),
            ),
            _ => init,
        }
    }
}

/// The `output` of a tool result item: its text, or empty for blocks.
pub open spec fn tool_output_text(c: ToolResultContent) -> Seq<char> {
    match c {
        ToolResultContent::Text(s) => s@,
        _ => Seq::empty(),
    }
}

/// The input items of a message: one `function_call_output` item per tool
/// result, then the message item with its parts.
pub open spec fn message_items(m: Message) -> Seq<Json> {
    let bs = spec_blocks_of(m.content);
    output_items(bs).push(
        Json::Object(seq![("content"@, Json::Array(input_parts(bs))), ("role"@, Json::Str(input_role(m.role)))]),
    )
}

/// The input items of the messages, in order.
pub open spec fn input_items(ms: Seq<Message>) -> Seq<Json>
    decreases ms.len(),
{
    if ms.len() == 0 {
        Seq::empty()
    } else {
        input_items(ms.drop_last()) + message_items(ms.last())
    }
}

/// The `input` of a request: its single message item, or the array of all
/// items.
pub open spec fn input_value(items: Seq<Json>) -> Json {
    if items.len() == 1 && json_get(items[0], "content"@) is Some {
        items[0]
    } else {
        Json::Array(items)
    }
}

/// `w` is the Responses tool of the canonical definition `t`.
pub open spec fn tool_encodes(t: ToolDefinition, w: ResponsesTool) -> bool {
    &&& w.tool_type@ == "function"@
    &&& opt_view(w.name) == Some(t.name@)
    &&& w.description == t.description
    &&& opt_json_view(w.parameters) == opt_json_view(t.input_schema)
    &&& w.strict == match json_get(Json::Object(entries_view(t.extra@)), "strict"@) {
        Some(v) => json_as_bool(v),
        None => None,
    }
    &&& w.extra@.len() == 0
}

/// The Responses tool choice of a canonical one.
pub open spec fn tool_choice_encodes(c: ToolChoice, w: ResponsesToolChoice) -> bool {
    match c {
        ToolChoice::Auto => w matches ResponsesToolChoice::String(s) && s@ == "auto"@,
        ToolChoice::Required => w matches ResponsesToolChoice::String(s) && s@ == "required"@,
        ToolChoice::NoTools => w matches ResponsesToolChoice::String(s) && s@ == "none"@,
        ToolChoice::Named { name } => w matches ResponsesToolChoice::Object(o) && o@ == Json::Object(
            seq![("name"@, Json::Str(name@)), ("type"@, Json::Str("function"@))],
        ),
    }
}

/// The `response_format` object of a canonical response format.
pub open spec fn response_format_json(rf: ResponseFormat) -> Json {
    match rf.json_schema {
        Some(s) => Json::Object(seq![("json_schema"@, s@), ("type"@, Json::Str(rf.format_type@))]),
        None => Json::Object(seq![("type"@, Json::Str(rf.format_type@))]),
    }
}

/// `w` is the Responses form of the canonical request `req`.
pub open spec fn request_encodes(req: CanonicalRequest, w: ResponsesRequest) -> bool {
    &&& w.model@ == req.model@
    &&& match req.system {
        Some(s) => w.instructions matches Some(j) && j@ == Json::Str(system_text(s)),
        None => w.instructions is None,
    }
    &&& w.input matches Some(j) && j@ == input_value(input_items(req.messages@))
    &&& w.temperature == req.temperature
    &&& w.top_p == req.top_p
    &&& w.max_output_tokens == req.max_tokens
    &&& w.stream == req.stream
    &&& if req.stop@.len() == 0 {
        w.stop is None
    } else {
        w.stop matches Some(v) && v@ == req.stop@
    }
    &&& if req.tools@.len() == 0 {
        w.tools is None
    } else {
        w.tools matches Some(ts) && mapped(req.tools@, ts@, |t: ToolDefinition, w: ResponsesTool| tool_encodes(t, w))
    }
    &&& match req.tool_choice {
        Some(c) => w.tool_choice matches Some(x) && tool_choice_encodes(c, x),
        None => w.tool_choice is None,
    }
    &&& match req.response_format {
        Some(rf) => w.response_format matches Some(j) && j@ == response_format_json(rf),
        None => w.response_format is None,
    }
    &&& opt_json_view(w.metadata) == opt_json_view(req.metadata)
    &&& w.extra@.len() == 0
}

fn str_value(s: &str) -> (j: JsonValue)
    ensures
        j@ == Json::Str(s@),
{
    JsonValue::String(String::from_str(s))
}

fn entry(k: &str, v: JsonValue) -> (e: (String, JsonValue))
    ensures
        e.0@ == k@,
        e.1 == v,
{
    (String::from_str(k), v)
}

/// Append the input items of one message to `items`.
fn push_message_items(items: &mut Vec<JsonValue>, role: Role, blocks: &[ContentBlock])
    ensures
        final(items)@.map_values(|v: JsonValue| v@) == old(items)@.map_values(|v: JsonValue| v@) + output_items(blocks@).push(
            Json::Object(seq![("content"@, Json::Array(input_parts(blocks@))), ("role"@, Json::Str(input_role(role)))]),
        ),
{
    let ghost base = items@.map_values(|v: JsonValue| v@);
    let mut parts: Vec<JsonValue> = Vec::new();
    let mut j: usize = 0;
    assert(blocks@.subrange(0, 0) =~= Seq::<ContentBlock>::empty());
    assert(items@.map_values(|v: JsonValue| v@) =~= base + output_items(Seq::<ContentBlock>::empty()));
    while j < blocks.len()
        invariant
            j <= blocks@.len(),
            parts@.map_values(|v: JsonValue| v@) == input_parts(blocks@.subrange(0, j as int)),
            items@.map_values(|v: JsonValue| v@) == base + output_items(blocks@.subrange(0, j as int)),
        decreases blocks@.len() - j,
    {
        proof {
            lemma_prefix_push(blocks@, j as int);
            assert(blocks@.subrange(0, j + 1).drop_last() =~= blocks@.subrange(0, j as int));
        }
        let ghost ps = parts@;
        let ghost is = items@;
        match &blocks[j] {
            ContentBlock::Text(t) => {
                let es = vec![entry("text", JsonValue::String(t.text.clone())), entry("type", str_value("input_text"))];
                assert(entries_view(es@) =~= seq![("text"@, Json::Str(t.text@)), ("type"@, Json::Str("input_text"@))]);
                parts.push(object_of(es));
                assert(parts@.map_values(|v: JsonValue| v@) =~= ps.map_values(|v: JsonValue| v@).push(parts@.last()@));
            },
            ContentBlock::Image(img) => {
                let url = match &img.source {
                    ImageSource::Url { url, .. } => url.clone(),
                    ImageSource::Base64 { media_type, data } => {
                        let mut u = String::from_str("data:");
                        u.append(media_type.as_str());
                        u.append(";base64,");
                        u.append(data.as_str());
                        u
                    },
                };
                assert(url@ == image_url_of(img.source));
                let es = vec![entry("image_url", JsonValue::String(url)), entry("type", str_value("input_image"))];
                assert(entries_view(es@) =~= seq![("image_url"@, Json::Str(image_url_of(img.source))), ("type"@, Json::Str("input_image"@))]);
                parts.push(object_of(es));
                assert(parts@.map_values(|v: JsonValue| v@) =~= ps.map_values(|v: JsonValue| v@).push(parts@.last()@));
            },
            ContentBlock::ToolResult(tr) => {
                let output = match &tr.content {
                    ToolResultContent::Text(s) => s.clone(),
                    _ => String::new(),
                };
                let es = vec![
                    entry("call_id", JsonValue::String(tr.tool_use_id.clone())),
                    entry("output", JsonValue::String(output)),
                    entry("type", str_value("function_call_output")),
                ];
                let ghost out_text = tool_output_text(tr.content);
                assert(entries_view(es@) =~= seq![("call_id"@, Json::Str(tr.tool_use_id@)), ("output"@, Json::Str(out_text)), ("type"@, Json::Str("function_call_output"@))]);
                items.push(object_of(es));
                assert(items@.map_values(|v: JsonValue| v@) =~= is.map_values(|v: JsonValue| v@).push(items@.last()@));
            },
            _ => {},
        }
        j = j + 1;
    }
    assert(blocks@.subrange(0, blocks@.len() as int) =~= blocks@);
    let role_str = match role {
        Role::User => str_value("user"),
        Role::Assistant => str_value("assistant"),
        Role::System => str_value("system"),
        Role::Tool => str_value("user"),
    };
    let ghost pv = parts@.map_values(|v: JsonValue| v@);
    let es = vec![entry("content", array_of(parts)), entry("role", role_str)];
    assert(entries_view(es@) =~= seq![("content"@, Json::Array(pv)), ("role"@, Json::Str(input_role(role)))]);
    let ghost is = items@;
    items.push(object_of(es));
    assert(items@.map_values(|v: JsonValue| v@) =~= is.map_values(|v: JsonValue| v@).push(items@.last()@));
}

/// Encode a canonical request into a Responses API request: messages become
/// `input` items and the system instruction becomes `instructions`.
pub fn encode_request(req: &CanonicalRequest) -> (r: Result<ResponsesRequest, ProtocolEngineError>)
    ensures
        r matches Ok(w) && request_encodes(*req, w),
{
    let instructions = match &req.system {
        Some(s) => Some(JsonValue::String(encode_system_text(s))),
        None => None,
    };

    let mut items: Vec<JsonValue> = Vec::new();
    let mut i: usize = 0;
    assert(req.messages@.subrange(0, 0) =~= Seq::<Message>::empty());
    assert(items@.map_values(|v: JsonValue| v@) =~= Seq::<Json>::empty());
    while i < req.messages.len()
        invariant
            i <= req.messages@.len(),
            items@.map_values(|v: JsonValue| v@) == input_items(req.messages@.subrange(0, i as int)),
        decreases req.messages@.len() - i,
    {
        proof {
            lemma_prefix_push(req.messages@, i as int);
            assert(req.messages@.subrange(0, i + 1).drop_last() =~= req.messages@.subrange(0, i as int));
        }
        let msg = &req.messages[i];
        match &msg.content {
            MessageContent::Text(s) => {
                let v = vec![ContentBlock::Text(TextContent { text: s.clone() })];
                assert(v@ =~= spec_blocks_of(msg.content));
                push_message_items(&mut items, msg.role, v.as_slice());
            },
            MessageContent::Blocks(bs) => {
                push_message_items(&mut items, msg.role, bs.as_slice());
            },
        }
        i = i + 1;
    }
    assert(req.messages@.subrange(0, req.messages@.len() as int) =~= req.messages@);

    let ghost iv = items@.map_values(|v: JsonValue| v@);
    let single = items.len() == 1 && items[0].get("content").is_some();
    let input = if single {
        let mut items = items;
        let first = items.remove(0);
        first
    } else {
        array_of(items)
    };
    assert(input@ == input_value(iv));

    let mut tools: Vec<ResponsesTool> = Vec::new();
    let mut t: usize = 0;
    while t < req.tools.len()
        invariant
            t <= req.tools@.len(),
            tools@.len() == t,
            forall|q: int| 0 <= q < t ==> tool_encodes(#[trigger] req.tools@[q], tools@[q]),
        decreases req.tools@.len() - t,
    {
        let td = &req.tools[t];
        let strict = match entries_get(&td.extra, "strict") {
            Some(v) => v.as_bool(),
            None => None,
        };
        tools.push(
            ResponsesTool {
                tool_type: String::from_str("function"),
                name: Some(td.name.clone()),
                description: clone_opt_string(&td.description),
                parameters: clone_opt_json(&td.input_schema),
                strict,
                extra: Vec::new(),
            },
        );
        t = t + 1;
    }

    let tool_choice = match &req.tool_choice {
        None => None,
        Some(ToolChoice::Auto) => Some(ResponsesToolChoice::String(String::from_str("auto"))),
        Some(ToolChoice::Required) => Some(ResponsesToolChoice::String(String::from_str("required"))),
        Some(ToolChoice::NoTools) => Some(ResponsesToolChoice::String(String::from_str("none"))),
        Some(ToolChoice::Named { name }) => {
            let es = vec![entry("name", JsonValue::String(name.clone())), entry("type", str_value("function"))];
            assert(entries_view(es@) =~= seq![("name"@, Json::Str(name@)), ("type"@, Json::Str("function"@))]);
            Some(ResponsesToolChoice::Object(object_of(es)))
        },
    };

    let response_format = match &req.response_format {
        Some(rf) => match &rf.json_schema {
            Some(schema) => {
                let es = vec![entry("json_schema", schema.deep_clone()), entry("type", JsonValue::String(rf.format_type.clone()))];
                assert(entries_view(es@) =~= seq![("json_schema"@, schema@), ("type"@, Json::Str(rf.format_type@))]);
                Some(object_of(es))
            },
            None => {
                let es = vec![entry("type", JsonValue::String(rf.format_type.clone()))];
                assert(entries_view(es@) =~= seq![("type"@, Json::Str(rf.format_type@))]);
                Some(object_of(es))
            },
        },
        None => None,
    };

    Ok(
        ResponsesRequest {
            model: req.model.clone(),
            instructions,
            input: Some(input),
            temperature: clone_opt_string(&req.temperature),
            top_p: clone_opt_string(&req.top_p),
            max_output_tokens: req.max_tokens,
            stream: req.stream,
            stop: if req.stop.len() == 0 {
                None
            } else {
                Some(clone_strings(&req.stop))
            },
            tools: if tools.len() == 0 {
                None
            } else {
                Some(tools)
            },
            tool_choice,
            response_format,
            metadata: clone_opt_json(&req.metadata),
            extra: Vec::new(),
        },
    )
}

// ─── Request decoding (Responses → canonical) ──────────────────────────────

/// The canonical role of a Responses input role; an unknown role is the
/// user's.
pub open spec fn role_of(r: Seq<char>) -> Role {
    if r == "assistant"@ {
        Role::Assistant
    } else if r == "system"@ {
        Role::System
    } else if r == "tool"@ {
        Role::Tool
    } else {
        Role::User
    }
}

/// The summary text of a reasoning input item: the `text` of each summary
/// part, joined by newlines.
pub open spec fn reasoning_text(j: Json) -> Seq<char> {
    match json_get(j, "summary"@) {
        Some(Json::Array(ss)) => join(json_texts(ss), seq!['\n']),
        _ => Seq::empty(),
    }
}

/// `seg` are the messages an input item yields by its `type`: a tool result
/// for `function_call_output`, a tool use for `function_call`, and a
/// reasoning block for a `reasoning` item with summary text.
pub open spec fn typed_messages(j: Json, seg: Seq<Message>) -> bool {
    let t = json_get_str(j, "type"@);
    if t == Some("function_call_output"@) {
        seg.len() == 1 && seg[0].role == Role::Tool && (seg[0].content matches MessageContent::Blocks(bs)
            && bs@.len() == 1 && (bs@[0] matches ContentBlock::ToolResult(tr) && tr.tool_use_id@ == get_str_or(
            j,
            "call_id"@,
            Seq::empty(),
        ) && tr.name is None && tr.is_error is None && (tr.content matches ToolResultContent::Text(o) && o@
            == get_str_or(j, "output"@, Seq::empty()))))
    } else if t == Some("function_call"@) {
        seg.len() == 1 && seg[0].role == Role::Assistant && (seg[0].content matches MessageContent::Blocks(bs)
            && bs@.len() == 1 && (bs@[0] matches ContentBlock::ToolUse(tu) && tu.id@ == get_str_or(
            j,
            "id"@,
            Seq::empty(),
        ) && tu.name@ == get_str_or(j, "name"@, Seq::empty()) && tu.input@ == input_or_empty(
            spec_parse_json(get_str_or(j, "arguments"@, "{}"@)),
        )))
    } else if t == Some("reasoning"@) && reasoning_text(j).len() > 0 {
        seg.len() == 1 && seg[0].role == Role::Assistant && (seg[0].content matches MessageContent::Blocks(bs)
            && bs@.len() == 1 && (bs@[0] matches ContentBlock::Reasoning(r) && r.thinking@ == reasoning_text(j)
            && r.signature is None))
    } else {
        seg.len() == 0
    }
}

/// `seg` are the messages of one input item. An item with a role is a
/// message of its content's blocks, and yields nothing at all when it has
/// none; then come the messages its `type` gives.
pub open spec fn item_messages(j: Json, seg: Seq<Message>) -> bool {
    match json_get_str(j, "role"@) {
        Some(r) => if parts_decode(json_get(j, "content"@), Seq::empty()) {
            seg.len() == 0
        } else {
            seg.len() >= 1 && seg[0].role == role_of(r) && (seg[0].content matches MessageContent::Blocks(bs)
                && parts_decode(json_get(j, "content"@), bs@)) && typed_messages(j, seg.drop_first())
        },
        None => typed_messages(j, seg),
    }
}

/// `c` is the canonical tool of the Responses tool `w`; a tool other than
/// a function is marked as not deferred, and its type, strict flag and
/// extra fields are kept.
pub open spec fn tool_decodes(w: ResponsesTool, t: ToolDefinition) -> bool {
    &&& t.name@ == match w.name {
        Some(n) => n@,
        None => Seq::empty(),
    }
    &&& t.description == w.description
    &&& opt_json_view(t.input_schema) == opt_json_view(w.parameters)
    &&& t.deferred == if w.tool_type@ == "function"@ {
        None
    } else {
        Some(false)
    }
    &&& entries_view(t.extra@) == seq![("type"@, Json::Str(w.tool_type@))] + match w.strict {
        Some(b) => seq![("strict"@, Json::Bool(b))],
        None => Seq::empty(),
    } + entries_view(w.extra@)
}

/// Lexicographic order of keys, character by character (the order of
/// their UTF-8 bytes).
pub open spec fn key_lt(a: Seq<char>, b: Seq<char>) -> bool
    decreases a.len(),
{
    if b.len() == 0 {
        false
    } else if a.len() == 0 {
        true
    } else if a[0] != b[0] {
        (a[0] as u32) < (b[0] as u32)
    } else {
        key_lt(a.drop_first(), b.drop_first())
    }
}

/// `es` with `e` inserted before the first entry whose key is greater.
pub open spec fn insert_by_key(es: Seq<(Seq<char>, Json)>, e: (Seq<char>, Json)) -> Seq<(Seq<char>, Json)>
    decreases es.len(),
{
    if es.len() == 0 {
        seq![e]
    } else if key_lt(e.0, es[0].0) {
        seq![e] + es
    } else {
        seq![es[0]] + insert_by_key(es.drop_first(), e)
    }
}

/// The OpenAI extension of a request: its extra fields, with
/// `max_output_tokens` added in key order; none when there is neither.
pub open spec fn openai_extension(extra: Seq<(Seq<char>, Json)>, max_output_tokens: Option<u32>) -> Option<Json> {
    match max_output_tokens {
        Some(m) => Some(Json::Object(insert_by_key(extra, ("max_output_tokens"@, Json::Number(spec_decimal(m as nat)))))),
        None => if extra.len() == 0 {
            None
        } else {
            Some(Json::Object(extra))
        },
    }
}

/// `c` is the canonical form of the Responses request `w`.
pub open spec fn request_decodes(w: ResponsesRequest, c: CanonicalRequest) -> bool {
    &&& c.model@ == w.model@
    &&& match w.instructions {
        Some(j) => c.system matches Some(s) && system_decodes(j@, s),
        None => c.system is None,
    }
    &&& match opt_json_view(w.input) {
        Some(Json::Array(items)) => flat_mapped(items, c.messages@, |j: Json, s: Seq<Message>| item_messages(j, s)),
        Some(Json::Str(s)) => c.messages@.len() == 1 && c.messages@[0].role == Role::User && (c.messages@[0].content matches MessageContent::Text(t) && t@ == s),
        _ => c.messages@.len() == 0,
    }
    &&& c.temperature == w.temperature
    &&& c.top_p == w.top_p
    &&& c.max_tokens == w.max_output_tokens
    &&& c.stop@ == match w.stop {
        Some(v) => v@,
        None => Seq::empty(),
    }
    &&& mapped(match w.tools {
        Some(v) => v@,
        None => Seq::empty(),
    }, c.tools@, |w: ResponsesTool, t: ToolDefinition| tool_decodes(w, t))
    &&& match w.tool_choice {
        Some(ResponsesToolChoice::String(s)) => c.tool_choice matches Some(x) && (if s@ == "auto"@ {
            x is Auto
        } else if s@ == "required"@ {
            x is Required
        } else if s@ == "none"@ {
            x is NoTools
        } else {
            x matches ToolChoice::Named { name } && name@ == s@
        }),
        Some(ResponsesToolChoice::Object(o)) => c.tool_choice matches Some(ToolChoice::Named { name }) && name@ == get_str_or(o@, "name"@, Seq::empty()),
        None => c.tool_choice is None,
    }
    &&& match w.response_format {
        Some(j) => c.response_format matches Some(rf) && rf.format_type@ == get_str_or(j@, "type"@, "text"@)
            && opt_json_view(rf.json_schema) == json_get(j@, "json_schema"@),
        None => c.response_format is None,
    }
    &&& c.stream == w.stream
    &&& opt_json_view(c.metadata) == opt_json_view(w.metadata)
    &&& opt_json_view(c.extensions.openai) == openai_extension(entries_view(w.extra@), w.max_output_tokens)
    &&& c.extensions.anthropic is None
}

/// Whether `a` comes before `b` in key order.
pub(crate) fn key_less(a: &str, b: &str) -> (r: bool)
    ensures
        r == key_lt(a@, b@),
{
    let av = str_chars(a);
    let bv = str_chars(b);
    let mut i: usize = 0;
    assert(a@.subrange(0, a@.len() as int) =~= a@);
    assert(b@.subrange(0, b@.len() as int) =~= b@);
    while i < av.len() && i < bv.len() && av[i] == bv[i]
        invariant
            i <= av@.len(),
            i <= bv@.len(),
            av@ == a@,
            bv@ == b@,
            key_lt(a@, b@) == key_lt(a@.subrange(i as int, a@.len() as int), b@.subrange(i as int, b@.len() as int)),
        decreases av@.len() - i,
    {
        proof {
            let sa = a@.subrange(i as int, a@.len() as int);
            let sb = b@.subrange(i as int, b@.len() as int);
            assert(sa.drop_first() =~= a@.subrange(i + 1, a@.len() as int));
            assert(sb.drop_first() =~= b@.subrange(i + 1, b@.len() as int));
        }
        i = i + 1;
    }
    if i == bv.len() {
        false
    } else if i == av.len() {
        true
    } else {
        (av[i] as u32) < (bv[i] as u32)
    }
}

pub(crate) proof fn lemma_insert_by_key(es: Seq<(Seq<char>, Json)>, e: (Seq<char>, Json), p: int)
    requires
        0 <= p <= es.len(),
        forall|k: int| 0 <= k < p ==> !key_lt(e.0, #[trigger] es[k].0),
        p < es.len() ==> key_lt(e.0, es[p].0),
    ensures
        insert_by_key(es, e) == es.subrange(0, p) + seq![e] + es.subrange(p, es.len() as int),
    decreases es.len(),
{
    if es.len() == 0 {
        assert(seq![e] =~= es.subrange(0, p) + seq![e] + es.subrange(p, es.len() as int));
    } else if p == 0 {
        assert(seq![e] + es =~= es.subrange(0, p) + seq![e] + es.subrange(p, es.len() as int));
    } else {
        let t = es.drop_first();
        assert forall|k: int| 0 <= k < p - 1 implies !key_lt(e.0, #[trigger] t[k].0) by {
            assert(t[k] == es[k + 1]);
        }
        lemma_insert_by_key(t, e, p - 1);
        assert(seq![es[0]] + (t.subrange(0, p - 1) + seq![e] + t.subrange(p - 1, t.len() as int)) =~= es.subrange(0, p) + seq![e] + es.subrange(p, es.len() as int));
    }
}

/// The OpenAI extension of a request's extra fields and output limit.
fn openai_extension_of(extra: &Vec<(String, JsonValue)>, max_output_tokens: Option<u32>) -> (r: Option<JsonValue>)
    ensures
        opt_json_view(r) == openai_extension(entries_view(extra@), max_output_tokens),
{
    match max_output_tokens {
        None => {
            if extra.len() == 0 {
                None
            } else {
                let mut es: Vec<(String, JsonValue)> = Vec::new();
                let mut i: usize = 0;
                while i < extra.len()
                    invariant
                        i <= extra@.len(),
                        entries_view(es@) == entries_view(extra@).subrange(0, i as int),
                    decreases extra@.len() - i,
                {
                    let ghost pre = es@;
                    es.push((extra[i].0.clone(), extra[i].1.deep_clone()));
                    assert(entries_view(es@) =~= entries_view(pre).push((extra@[i as int].0@, extra@[i as int].1@)));
                    assert(entries_view(extra@).subrange(0, i + 1) =~= entries_view(extra@).subrange(0, i as int).push((extra@[i as int].0@, extra@[i as int].1@)));
                    i = i + 1;
                }
                assert(entries_view(extra@).subrange(0, extra@.len() as int) =~= entries_view(extra@));
                Some(object_of(es))
            }
        },
        Some(m) => {
            let mut number = String::new();
            write_decimal(&mut number, m as u64);
            let mut key = String::from_str("max_output_tokens");
            let ghost e = (key@, Json::Number(number@));
            let ghost ev = entries_view(extra@);
            let mut es: Vec<(String, JsonValue)> = Vec::new();
            let mut i: usize = 0;
            // Copy the entries whose keys come before the new one.
            while i < extra.len() && !key_less(key.as_str(), extra[i].0.as_str())
                invariant
                    i <= extra@.len(),
                    key@ == "max_output_tokens"@,
                    e == (key@, Json::Number(number@)),
                    ev == entries_view(extra@),
                    entries_view(es@) == ev.subrange(0, i as int),
                    forall|k: int| 0 <= k < i ==> !key_lt(e.0, #[trigger] ev[k].0),
                decreases extra@.len() - i,
            {
                let ghost pre = es@;
                es.push((extra[i].0.clone(), extra[i].1.deep_clone()));
                assert(entries_view(es@) =~= entries_view(pre).push(ev[i as int]));
                assert(ev.subrange(0, i + 1) =~= ev.subrange(0, i as int).push(ev[i as int]));
                i = i + 1;
            }
            let p = i;
            proof {
                lemma_insert_by_key(ev, e, p as int);
            }
            let ghost pre = es@;
            es.push((key, JsonValue::Number(number)));
            assert(entries_view(es@) =~= ev.subrange(0, p as int) + seq![e]);
            while i < extra.len()
                invariant
                    p <= i <= extra@.len(),
                    ev == entries_view(extra@),
                    entries_view(es@) == ev.subrange(0, p as int) + seq![e] + ev.subrange(p as int, i as int),
                decreases extra@.len() - i,
            {
                let ghost pre = es@;
                es.push((extra[i].0.clone(), extra[i].1.deep_clone()));
                assert(entries_view(es@) =~= entries_view(pre).push(ev[i as int]));
                assert(ev.subrange(p as int, i + 1) =~= ev.subrange(p as int, i as int).push(ev[i as int]));
                assert(ev.subrange(0, p as int) + seq![e] + ev.subrange(p as int, i + 1) =~= (ev.subrange(0, p as int) + seq![e] + ev.subrange(p as int, i as int)).push(ev[i as int]));
                i = i + 1;
            }
            Some(object_of(es))
        },
    }
}

/// Decoding a content value has one length: no blocks in one decoding
/// means none in any.
proof fn lemma_parts_decode_empty(c: Option<Json>, bs: Seq<ContentBlock>)
    requires
        parts_decode(c, bs),
        parts_decode(c, Seq::empty()),
    ensures
        bs.len() == 0,
{
    if let Some(Json::Array(items)) = c {
        lemma_filter_mapped_len(items, bs, |j: Json| part_emits(j), |j: Json, c: ContentBlock| part_decodes(j, c));
        lemma_filter_mapped_len(items, Seq::<ContentBlock>::empty(), |j: Json| part_emits(j), |j: Json, c: ContentBlock| part_decodes(j, c));
    }
}

fn decode_role(r: &str) -> (role: Role)
    ensures
        role == role_of(r@),
{
    if str_is(r, "assistant") {
        Role::Assistant
    } else if str_is(r, "system") {
        Role::System
    } else if str_is(r, "tool") {
        Role::Tool
    } else {
        Role::User
    }
}

/// The string at `key` of an object, or `dflt`.
fn get_string_or(j: &JsonValue, key: &str, dflt: &str) -> (s: String)
    ensures
        s@ == get_str_or(j@, key@, dflt@),
{
    match j.get_str(key) {
        Some(s) => s,
        None => String::from_str(dflt),
    }
}

/// The messages an input item yields by its `type`.
fn decode_typed_item(item: &JsonValue) -> (seg: Vec<Message>)
    ensures
        typed_messages(item@, seg@),
{
    let item_type = match item.get_str("type") {
        Some(t) => t,
        None => {
            return Vec::new();
        },
    };
    if str_is(item_type.as_str(), "function_call_output") {
        let call_id = get_string_or_empty(item, "call_id");
        let output = get_string_or_empty(item, "output");
        let b = ContentBlock::ToolResult(
            ToolResultBlock {
                tool_use_id: call_id,
                name: None,
                content: ToolResultContent::Text(output),
                is_error: None,
            },
        );
        vec![Message { role: Role::Tool, content: MessageContent::Blocks(vec![b]) }]
    } else if str_is(item_type.as_str(), "function_call") {
        let id = get_string_or_empty(item, "id");
        let name = get_string_or_empty(item, "name");
        let arguments = get_string_or(item, "arguments", "{}");
        let input = tool_input(parse_json(arguments.as_str()));
        let b = ContentBlock::ToolUse(ToolUseBlock { id, name, input });
        vec![Message { role: Role::Assistant, content: MessageContent::Blocks(vec![b]) }]
    } else if str_is(item_type.as_str(), "reasoning") {
        let combined = match item.get("summary") {
            Some(JsonValue::Array(ss)) => {
                proof {
                    crate::json::lemma_array_view(*ss);
                    assert(ss@.map_values(|j: JsonValue| j@) =~= Seq::new(ss@.len(), |i: int| ss@[i]@));
                }
                join_json_texts(ss)
            },
            _ => String::new(),
        };
        if combined.as_str().is_empty() {
            Vec::new()
        } else {
            let b = ContentBlock::Reasoning(ReasoningContent { thinking: combined, signature: None });
            vec![Message { role: Role::Assistant, content: MessageContent::Blocks(vec![b]) }]
        }
    } else {
        Vec::new()
    }
}

/// The messages of one input item.
fn decode_input_item(item: &JsonValue) -> (seg: Vec<Message>)
    ensures
        item_messages(item@, seg@),
{
    match item.get_str("role") {
        Some(role) => {
            let content = match item.get("content") {
                Some(c) => Some(c.deep_clone()),
                None => None,
            };
            let blocks = match decode_content_parts(&content) {
                Ok(bs) => bs,
                Err(_) => Vec::new(),
            };
            if blocks.len() == 0 {
                assert(blocks@ =~= Seq::<ContentBlock>::empty());
                return Vec::new();
            }
            proof {
                if parts_decode(json_get(item@, "content"@), Seq::empty()) {
                    lemma_parts_decode_empty(json_get(item@, "content"@), blocks@);
                }
            }
            let m = Message { role: decode_role(role.as_str()), content: MessageContent::Blocks(blocks) };
            let typed = decode_typed_item(item);
            let mut seg = vec![m];
            let ghost tv = typed@;
            let mut typed = typed;
            seg.append(&mut typed);
            assert(seg@.drop_first() =~= tv);
            seg
        },
        None => decode_typed_item(item),
    }
}

/// Decode an OpenAI Responses request into a canonical request.
pub fn decode_request(req: ResponsesRequest) -> (r: Result<CanonicalRequest, ProtocolEngineError>)
    ensures
        r matches Ok(c) && request_decodes(req, c),
{
    let system = match &req.instructions {
        Some(j) => Some(decode_system(j)),
        None => None,
    };

    let mut messages: Vec<Message> = Vec::new();
    match &req.input {
        Some(JsonValue::Array(items)) => {
            proof {
                crate::json::lemma_array_view(*items);
            }
            let ghost vs = Seq::new(items@.len(), |i: int| items@[i]@);
            let mut i: usize = 0;
            assert(vs.subrange(0, 0) =~= Seq::<Json>::empty());
            proof {
                lemma_flat_mapped_empty(|j: Json, s: Seq<Message>| item_messages(j, s));
            }
            while i < items.len()
                invariant
                    i <= items@.len(),
                    vs == Seq::new(items@.len(), |i: int| items@[i]@),
                    flat_mapped(vs.subrange(0, i as int), messages@, |j: Json, s: Seq<Message>| item_messages(j, s)),
                decreases items@.len() - i,
            {
                proof {
                    lemma_prefix_push(vs, i as int);
                }
                let mut seg = decode_input_item(&items[i]);
                let ghost before = messages@;
                let ghost sv = seg@;
                proof {
                    lemma_flat_mapped_push(vs.subrange(0, i as int), before, |j: Json, s: Seq<Message>| item_messages(j, s), vs[i as int], sv);
                }
                messages.append(&mut seg);
                i = i + 1;
            }
            assert(vs.subrange(0, vs.len() as int) =~= vs);
        },
        Some(JsonValue::String(s)) => {
            messages.push(Message { role: Role::User, content: MessageContent::Text(s.clone()) });
        },
        _ => {},
    }

    let mut tools: Vec<ToolDefinition> = Vec::new();
    match &req.tools {
        Some(ws) => {
            let mut k: usize = 0;
            while k < ws.len()
                invariant
                    k <= ws@.len(),
                    tools@.len() == k,
                    forall|q: int| 0 <= q < k ==> tool_decodes(#[trigger] ws@[q], tools@[q]),
                decreases ws@.len() - k,
            {
                let t = &ws[k];
                let mut extra: Vec<(String, JsonValue)> = Vec::new();
                extra.push((String::from_str("type"), JsonValue::String(t.tool_type.clone())));
                match t.strict {
                    Some(b) => {
                        extra.push((String::from_str("strict"), JsonValue::Bool(b)));
                    },
                    None => {},
                }
                let ghost head = entries_view(extra@);
                assert(head =~= seq![("type"@, Json::Str(t.tool_type@))] + match t.strict {
                    Some(b) => seq![("strict"@, Json::Bool(b))],
                    None => Seq::empty(),
                });
                let mut q: usize = 0;
                while q < t.extra.len()
                    invariant
                        q <= t.extra@.len(),
                        entries_view(extra@) == head + entries_view(t.extra@).subrange(0, q as int),
                    decreases t.extra@.len() - q,
                {
                    let ghost pre = extra@;
                    extra.push((t.extra[q].0.clone(), t.extra[q].1.deep_clone()));
                    assert(entries_view(extra@) =~= entries_view(pre).push((t.extra@[q as int].0@, t.extra@[q as int].1@)));
                    assert(entries_view(t.extra@).subrange(0, q + 1) =~= entries_view(t.extra@).subrange(0, q as int).push((t.extra@[q as int].0@, t.extra@[q as int].1@)));
                    q = q + 1;
                }
                assert(entries_view(t.extra@).subrange(0, t.extra@.len() as int) =~= entries_view(t.extra@));
                let deferred = if str_is(t.tool_type.as_str(), "function") {
                    None
                } else {
                    Some(false)
                };
                let name = match &t.name {
                    Some(n) => n.clone(),
                    None => String::new(),
                };
                tools.push(
                    ToolDefinition {
                        name,
                        description: clone_opt_string(&t.description),
                        input_schema: clone_opt_json(&t.parameters),
                        deferred,
                        extra,
                    },
                );
                k = k + 1;
            }
        },
        None => {},
    }

    let response_format = match &req.response_format {
        Some(rf) => {
            let format_type = get_string_or(rf, "type", "text");
            let json_schema = match rf.get("json_schema") {
                Some(s) => Some(s.deep_clone()),
                None => None,
            };
            Some(ResponseFormat { format_type, json_schema })
        },
        None => None,
    };

    let tool_choice = match &req.tool_choice {
        Some(ResponsesToolChoice::String(s)) => {
            if str_is(s.as_str(), "auto") {
                Some(ToolChoice::Auto)
            } else if str_is(s.as_str(), "required") {
                Some(ToolChoice::Required)
            } else if str_is(s.as_str(), "none") {
                Some(ToolChoice::NoTools)
            } else {
                Some(ToolChoice::Named { name: s.clone() })
            }
        },
        Some(ResponsesToolChoice::Object(obj)) => Some(ToolChoice::Named { name: get_string_or_empty(obj, "name") }),
        None => None,
    };

    let stop = match &req.stop {
        Some(v) => clone_strings(v),
        None => Vec::new(),
    };

    let openai = openai_extension_of(&req.extra, req.max_output_tokens);

    Ok(
        CanonicalRequest {
            model: req.model.clone(),
            messages,
            system,
            temperature: clone_opt_string(&req.temperature),
            top_p: clone_opt_string(&req.top_p),
            max_tokens: req.max_output_tokens,
            stop,
            tools,
            tool_choice,
            stream: req.stream,
            response_format,
            metadata: clone_opt_json(&req.metadata),
            extensions: ProviderExtensions { openai, anthropic: None },
        },
    )
}

// ─── Laws ───────────────────────────────────────────────────────────────────

/// Completion, truncation and failure survive a trip through a Responses
/// status.
pub proof fn status_round_trip(r: FinishReason, d: FinishReason)
    requires
        r is Stop || r is Length || r is Error,
        status_decodes(spec_encode_status(r), d),
    ensures
        d == r,
{
    reveal_strlit("completed");
    reveal_strlit("incomplete");
    reveal_strlit("failed");
    reveal_strlit("cancelled");
    assert("completed"@.len() == 9 && "incomplete"@.len() == 10 && "failed"@.len() == 6 && "cancelled"@.len() == 9);
    assert("completed"@[1] != "cancelled"@[1]);
}

/// The text of a text block.
pub open spec fn text_of(b: ContentBlock) -> Option<Seq<char>> {
    match b {
        ContentBlock::Text(t) => Some(t.text@),
        _ => None,
    }
}

/// The text of an output message holding exactly one output text part.
pub open spec fn single_text_item(it: ResponsesItem) -> Option<Seq<char>> {
    match it {
        ResponsesItem::Message { content, .. } => match content {
            Some(parts) => if parts@.len() == 1 {
                match parts@[0] {
                    ResponsesContentPart::OutputText { text } => Some(text@),
                    _ => None,
                }
            } else {
                None
            },
            None => None,
        },
        _ => None,
    }
}

/// A text-only response keeps its identity, text, finish reason (when it
/// is completion, truncation or failure) and usage through a Responses
/// response.
pub proof fn text_response_round_trip(c: CanonicalResponse, created: u64, w: ResponsesResponse, d: CanonicalResponse)
    requires
        forall|i: int| 0 <= i < c.content@.len() ==> (#[trigger] c.content@[i]) is Text,
        response_encodes(c, created, w),
        response_decodes(w, d),
    ensures
        d.id@ == c.id@,
        d.model@ == c.model@,
        d.content@.len() == c.content@.len(),
        forall|i: int| 0 <= i < c.content@.len() ==> #[trigger] text_of(d.content@[i]) == text_of(c.content@[i]),
        match c.finish_reason {
            Some(f) => (f is Stop || f is Length || f is Error) ==> d.finish_reason == Some(f),
            None => d.finish_reason is None,
        },
        match c.usage {
            Some(u) => d.usage matches Some(x) && x.input_tokens == u.input_tokens && x.output_tokens == u.output_tokens && x.total_tokens == u.total_tokens,
            None => d.usage is None,
        },
{
    crate::adapters::lemma_filter_mapped_all(
        c.content@,
        w.output@,
        |b: ContentBlock| b is Text || b is ToolUse,
        |b: ContentBlock, it: ResponsesItem| item_encodes(b, created, it),
    );
    assert forall|i: int| 0 <= i < w.output@.len() implies #[trigger] single_text_item(w.output@[i]) == text_of(c.content@[i]) by {
        assert(item_encodes(c.content@[i], created, w.output@[i]));
    }
    lemma_flat_mapped_singletons(w.output@, d.content@);
    if let Some(f) = c.finish_reason {
        if f is Stop || f is Length || f is Error {
            status_round_trip(f, d.finish_reason->0);
        }
    }
}

/// Output messages of one text part each decode to one text block.
proof fn lemma_flat_mapped_singletons(items: Seq<ResponsesItem>, out: Seq<ContentBlock>)
    requires
        forall|i: int| 0 <= i < items.len() ==> (#[trigger] single_text_item(items[i])) is Some,
        flat_mapped(items, out, |it: ResponsesItem, s: Seq<ContentBlock>| item_out(it, s)),
    ensures
        out.len() == items.len(),
        forall|i: int| 0 <= i < items.len() ==> #[trigger] text_of(out[i]) == single_text_item(items[i]),
{
    let cuts = crate::adapters::lemma_flat_mapped_cuts(items, out, |it: ResponsesItem, s: Seq<ContentBlock>| item_out(it, s));
    assert forall|i: int| 0 <= i < items.len() implies #[trigger] cuts[i + 1] == cuts[i] + 1 && text_of(out.subrange(cuts[i], cuts[i + 1])[0]) == single_text_item(items[i]) by {
        crate::adapters::lemma_segment_at(items, out, |it: ResponsesItem, s: Seq<ContentBlock>| item_out(it, s), cuts, i);
        let seg = out.subrange(cuts[i], cuts[i + 1]);
        assert(item_out(items[i], seg));
        assert(single_text_item(items[i]) is Some);
        let parts = items[i]->Message_content->0@;
        let pc = crate::adapters::lemma_flat_mapped_cuts(parts, seg, |p: ResponsesContentPart, s: Seq<ContentBlock>| part_out(p, s));
        crate::adapters::lemma_segment_at(parts, seg, |p: ResponsesContentPart, s: Seq<ContentBlock>| part_out(p, s), pc, 0);
        assert(part_out(parts[0], seg.subrange(pc[0], pc[1])));
        assert(pc[0] == 0 && pc[1] == seg.len());
    }
    assert forall|i: int| 0 <= i <= items.len() implies #[trigger] cuts[i] == i by {
        lemma_cuts_unit(cuts, i, items.len() as int);
    }
    assert forall|i: int| 0 <= i < items.len() implies #[trigger] text_of(out[i]) == single_text_item(items[i]) by {
        crate::adapters::lemma_segment_at(items, out, |it: ResponsesItem, s: Seq<ContentBlock>| item_out(it, s), cuts, i);
        let seg = out.subrange(cuts[i], cuts[i + 1]);
        assert(cuts[i] == i && cuts[i + 1] == i + 1);
        assert(seg[0] == out[i]);
        assert(text_of(out.subrange(cuts[i], cuts[i + 1])[0]) == single_text_item(items[i]));
    }
}

proof fn lemma_cuts_unit(cuts: Seq<int>, i: int, n: int)
    requires
        0 <= i <= n,
        cuts.len() == n + 1,
        cuts[0] == 0,
        forall|k: int| 0 <= k < n ==> #[trigger] cuts[k + 1] == cuts[k] + 1,
    ensures
        cuts[i] == i,
    decreases i,
{
    if i > 0 {
        lemma_cuts_unit(cuts, i - 1, n);
        assert(cuts[(i - 1) + 1] == cuts[i - 1] + 1);
    }
}

} // verus!
