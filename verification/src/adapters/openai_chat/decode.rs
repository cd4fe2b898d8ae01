//! OpenAI Chat Completions adapter: request and response decoding.

use vstd::prelude::*;
use crate::adapters::{
    filter_mapped, first_error, lemma_filter_mapped_push, lemma_first_error_prefix,
    lemma_first_error_push, lemma_prefix_push, mapped,
};
use crate::canonical::{
    AudioContent, AudioSource, CanonicalRequest, CanonicalResponse, ContentBlock, FinishReason,
    ImageContent, ImageSource, Message, MessageContent, ProviderExtensions, ResponseFormat, Role,
    SystemInstruction, TextContent, ToolChoice, ToolDefinition, ToolResultBlock, ToolResultContent,
    ToolUseBlock, Usage, clone_opt_string, clone_strings,
};
use crate::error::ProtocolEngineError;
use crate::json::{
    Json, JsonValue, clone_opt_json, entries_view, json_get, json_get_str, opt_json_view,
    parse_json, spec_json_to_string, spec_parse_json,
};
use crate::text::{join, opt_view, push_part};
use super::wire::{
    ChatChoice, ChatCompletionRequest, ChatCompletionResponse, ChatMessage, ChatToolCall,
    ChatToolCallResponse, ChatToolChoice, ChatToolDefinition,
};

verus! {

pub(crate) fn str_is(a: &str, b: &str) -> (r: bool)
    ensures
        r == (a@ == b@),
{
    crate::json::str_eq(a, b)
}

// ─── Content parts ──────────────────────────────────────────────────────────

/// `json_get_str(j, key)`, or `dflt` when there is no such string.
pub open spec fn get_str_or(j: Json, key: Seq<char>, dflt: Seq<char>) -> Seq<char> {
    match json_get_str(j, key) {
        Some(s) => s,
        None => dflt,
    }
}

/// The `type` of a content part; `text` when it has none.
pub open spec fn part_type(j: Json) -> Seq<char> {
    get_str_or(j, "type"@, "text"@)
}

/// Why a content part cannot be decoded, if it cannot: an image or audio
/// part without its payload object.
pub open spec fn part_error(j: Json) -> Option<Seq<char>> {
    if part_type(j) == "image_url"@ && json_get(j, "image_url"@) is None {
        Some("image_url block missing image_url field"@)
    } else if part_type(j) == "input_audio"@ && json_get(j, "input_audio"@) is None {
        Some("input_audio block missing input_audio field"@)
    } else {
        None
    }
}

/// The media type of audio in the given format.
pub open spec fn audio_media_type(format: Option<Seq<char>>) -> Seq<char> {
    match format {
        Some(f) => "audio/"@ + f,
        None => "application/octet-stream"@,
    }
}

/// `c` is the canonical block of the content part `j`. A part of an unknown
/// type becomes a text block holding its JSON text.
pub open spec fn part_decodes(j: Json, c: ContentBlock) -> bool {
    if part_type(j) == "text"@ {
        c matches ContentBlock::Text(t) && t.text@ == get_str_or(j, "text"@, Seq::empty())
    } else if part_type(j) == "image_url"@ {
        let u = json_get(j, "image_url"@)->0;
        c matches ContentBlock::Image(img) && (img.source matches ImageSource::Url { url, detail }
            && url@ == get_str_or(u, "url"@, Seq::empty()) && opt_view(detail) == json_get_str(
            u,
            "detail"@,
        ))
    } else if part_type(j) == "input_audio"@ {
        let a = json_get(j, "input_audio"@)->0;
        c matches ContentBlock::Audio(au) && (au.source matches AudioSource::Base64 {
            media_type,
            data,
            format,
        } && data@ == get_str_or(a, "data"@, Seq::empty()) && opt_view(format) == json_get_str(
            a,
            "format"@,
        ) && media_type@ == audio_media_type(json_get_str(a, "format"@)))
    } else {
        c matches ContentBlock::Text(t) && t.text@ == spec_json_to_string(j)
    }
}

/// Why a message's content cannot be decoded, if it cannot.
pub open spec fn content_error(c: Option<Json>) -> Option<Seq<char>> {
    match c {
        Some(Json::Array(items)) => first_error(items, |j: Json| part_error(j)),
        _ => None,
    }
}

/// `bs` are the canonical blocks of a message's `content`: none for an
/// absent or null content, a text block for a string, a block per part for
/// an array, and the JSON text of any other value.
pub open spec fn content_decodes(c: Option<Json>, bs: Seq<ContentBlock>) -> bool {
    match c {
        None => bs.len() == 0,
        Some(Json::Null) => bs.len() == 0,
        Some(Json::Str(s)) => bs.len() == 1 && (bs[0] matches ContentBlock::Text(t) && t.text@ == s),
        Some(Json::Array(items)) => mapped(items, bs, |j: Json, c: ContentBlock| part_decodes(j, c)),
        Some(other) => bs.len() == 1 && (bs[0] matches ContentBlock::Text(t) && t.text@ == spec_json_to_string(other)),
    }
}

/// The string at `key` of an object, or the empty string.
pub(crate) fn get_string_or_empty(j: &JsonValue, key: &str) -> (s: String)
    ensures
        s@ == get_str_or(j@, key@, Seq::empty()),
{
    match j.get_str(key) {
        Some(s) => s,
        None => String::new(),
    }
}

/// Decode a single content part.
fn decode_content_block(value: &JsonValue) -> (r: Result<ContentBlock, ProtocolEngineError>)
    ensures
        match r {
            Ok(c) => part_error(value@) is None && part_decodes(value@, c),
            Err(e) => part_error(value@) matches Some(m) && (e matches ProtocolEngineError::InvalidPayload { message } && message@ == m),
        },
{
    proof {
        reveal_strlit("text");
        reveal_strlit("image_url");
        reveal_strlit("input_audio");
        assert("text"@.len() == 4 && "image_url"@.len() == 9 && "input_audio"@.len() == 11);
    }
    let block_type = match value.get_str("type") {
        Some(t) => t,
        None => String::from_str("text"),
    };
    if str_is(block_type.as_str(), "text") {
        assert(part_type(value@) == "text"@);
        assert(part_error(value@) is None);
        Ok(ContentBlock::Text(TextContent { text: get_string_or_empty(value, "text") }))
    } else if str_is(block_type.as_str(), "image_url") {
        let url_obj = match value.get("image_url") {
            Some(u) => u,
            None => {
                return Err(
                    ProtocolEngineError::InvalidPayload {
                        message: String::from_str("image_url block missing image_url field"),
                    },
                );
            },
        };
        let url = get_string_or_empty(url_obj, "url");
        let detail = url_obj.get_str("detail");
        Ok(ContentBlock::Image(ImageContent { source: ImageSource::Url { url, detail } }))
    } else if str_is(block_type.as_str(), "input_audio") {
        let audio_obj = match value.get("input_audio") {
            Some(a) => a,
            None => {
                return Err(
                    ProtocolEngineError::InvalidPayload {
                        message: String::from_str("input_audio block missing input_audio field"),
                    },
                );
            },
        };
        let data = get_string_or_empty(audio_obj, "data");
        let format = audio_obj.get_str("format");
        let media_type = match &format {
            Some(f) => {
                let mut m = String::from_str("audio/");
                m.append(f.as_str());
                m
            },
            None => String::from_str("application/octet-stream"),
        };
        Ok(ContentBlock::Audio(AudioContent { source: AudioSource::Base64 { media_type, data, format } }))
    } else {
        Ok(ContentBlock::Text(TextContent { text: value.to_json_string() }))
    }
}

/// Decode the `content` of an OpenAI message.
#[verifier::loop_isolation(false)]
fn decode_content_blocks(content: &Option<JsonValue>) -> (r: Result<Vec<ContentBlock>, ProtocolEngineError>)
    ensures
        match r {
            Ok(bs) => content_error(opt_json_view(*content)) is None && content_decodes(opt_json_view(*content), bs@),
            Err(e) => content_error(opt_json_view(*content)) matches Some(m) && (e matches ProtocolEngineError::InvalidPayload { message } && message@ == m),
        },
{
    match content {
        None => Ok(Vec::new()),
        Some(JsonValue::Null) => Ok(Vec::new()),
        Some(JsonValue::String(s)) => {
            let v = vec![ContentBlock::Text(TextContent { text: s.clone() })];
            Ok(v)
        },
        Some(JsonValue::Array(items)) => {
            proof {
                crate::json::lemma_array_view(*items);
            }
            let ghost vs = Seq::new(items@.len(), |i: int| items@[i]@);
            let mut result: Vec<ContentBlock> = Vec::new();
            let mut i: usize = 0;
            assert(vs.subrange(0, 0) =~= Seq::<Json>::empty());
            while i < items.len()
                invariant
                    i <= items@.len(),
                    vs == Seq::new(items@.len(), |i: int| items@[i]@),
                    first_error(vs.subrange(0, i as int), |j: Json| part_error(j)) is None,
                    result@.len() == i,
                    forall|k: int| 0 <= k < i ==> part_decodes(#[trigger] vs[k], result@[k]),
                decreases items@.len() - i,
            {
                proof {
                    lemma_prefix_push(vs, i as int);
                    lemma_first_error_push(vs.subrange(0, i as int), |j: Json| part_error(j), vs[i as int]);
                }
                match decode_content_block(&items[i]) {
                    Ok(c) => {
                        result.push(c);
                    },
                    Err(e) => {
                        proof {
                            lemma_first_error_prefix(vs, |j: Json| part_error(j), i as int + 1);
                            crate::json::lemma_array_view(*items);
                        }
                        return Err(e);
                    },
                }
                i = i + 1;
            }
            assert(vs.subrange(0, vs.len() as int) =~= vs);
            Ok(result)
        },
        Some(other) => {
            let v = vec![ContentBlock::Text(TextContent { text: other.to_json_string() })];
            Ok(v)
        },
    }
}

// ─── Text extraction ────────────────────────────────────────────────────────

/// The `text` of those parts whose `type` is `text` and that have one.
pub open spec fn typed_texts(items: Seq<Json>) -> Seq<Seq<char>>
    decreases items.len(),
{
    if items.len() == 0 {
        Seq::empty()
    } else {
        let init = typed_texts(items.drop_last());
        let j = items.last();
        if json_get_str(j, "type"@) == Some("text"@) && json_get_str(j, "text"@) is Some {
            init.push(json_get_str(j, "text"@)->0)
        } else {
            init
        }
    }
}

/// The text of a system message's `content`: a string, or the texts of its
/// text parts joined by newlines; none when there is no text.
pub open spec fn spec_extract_text(c: Option<Json>) -> Option<Seq<char>> {
    match c {
        Some(Json::Str(s)) => Some(s),
        Some(Json::Array(items)) => if typed_texts(items).len() == 0 {
            None
        } else {
            Some(join(typed_texts(items), "\n"@))
        },
        _ => None,
    }
}

/// Extract the text of a system message's content.
fn extract_text_content(content: &Option<JsonValue>) -> (r: Option<String>)
    ensures
        opt_view(r) == spec_extract_text(opt_json_view(*content)),
{
    match content {
        Some(JsonValue::String(s)) => Some(s.clone()),
        Some(JsonValue::Array(items)) => {
            proof {
                crate::json::lemma_array_view(*items);
            }
            let ghost vs = Seq::new(items@.len(), |i: int| items@[i]@);
            let mut out = String::new();
            let mut empty: bool = true;
            let mut i: usize = 0;
            assert(vs.subrange(0, 0) =~= Seq::<Json>::empty());
            while i < items.len()
                invariant
                    i <= items@.len(),
                    vs == Seq::new(items@.len(), |i: int| items@[i]@),
                    empty == (typed_texts(vs.subrange(0, i as int)).len() == 0),
                    out@ == join(typed_texts(vs.subrange(0, i as int)), "\n"@),
                decreases items@.len() - i,
            {
                proof {
                    lemma_prefix_push(vs, i as int);
                    assert(vs.subrange(0, i + 1).drop_last() =~= vs.subrange(0, i as int));
                }
                let is_text = match items[i].get_str("type") {
                    Some(t) => str_is(t.as_str(), "text"),
                    None => false,
                };
                if is_text {
                    match items[i].get_str("text") {
                        Some(t) => {
                            push_part(&mut out, empty, "\n", t.as_str(), Ghost(typed_texts(vs.subrange(0, i as int))));
                            empty = false;
                        },
                        None => {},
                    }
                }
                i = i + 1;
            }
            assert(vs.subrange(0, vs.len() as int) =~= vs);
            if empty {
                None
            } else {
                Some(out)
            }
        },
        _ => None,
    }
}

/// The text of a tool message's `content`: a string, else empty.
pub open spec fn tool_content_text(c: Option<Json>) -> Seq<char> {
    match c {
        Some(Json::Str(s)) => s,
        _ => Seq::empty(),
    }
}

/// Extract text from a JSON value: the string itself, when it is one.
fn extract_text_from_value(value: &JsonValue) -> (r: Option<String>)
    ensures
        opt_view(r) == match value@ {
            Json::Str(s) => Some(s),
            _ => None,
        },
{
    match value {
        JsonValue::String(s) => Some(s.clone()),
        _ => None,
    }
}

// ─── Tool calls ─────────────────────────────────────────────────────────────

/// The input of a tool call whose arguments parse as `parsed`: the parsed
/// value, or the empty object when the arguments are not JSON.
pub open spec fn input_or_empty(parsed: Option<Json>) -> Json {
    match parsed {
        Some(j) => j,
        None => Json::Object(Seq::empty()),
    }
}

/// The input of a tool call from the result of parsing its arguments: the
/// parsed value, or the empty object when they were not JSON.
pub fn tool_input(parsed: Option<JsonValue>) -> (j: JsonValue)
    ensures
        j@ == input_or_empty(opt_json_view(parsed)),
{
    match parsed {
        Some(j) => j,
        None => {
            let j = JsonValue::Object(Vec::new());
            assert(j@ == Json::Object(Seq::empty())) by {
                if let JsonValue::Object(es) = j {
                    crate::json::lemma_object_view(es);
                    assert(Seq::new(es@.len(), |i: int| (es@[i].0@, es@[i].1@)) =~= Seq::<(Seq<char>, Json)>::empty());
                }
            }
            j
        },
    }
}

/// `b` is the canonical block of the request tool call `tc`.
pub open spec fn call_decodes(tc: ChatToolCall, b: ContentBlock) -> bool {
    b matches ContentBlock::ToolUse(tu) && tu.id@ == tc.id@ && tu.name@ == tc.function.name@
        && tu.input@ == input_or_empty(spec_parse_json(tc.function.arguments@))
}

// ─── Messages ───────────────────────────────────────────────────────────────

/// Whether a role names the system prompt.
pub open spec fn is_system_role(role: Seq<char>) -> bool {
    role == "system"@ || role == "developer"@
}

/// Why an OpenAI message cannot be decoded, if it cannot.
pub open spec fn message_error(m: ChatMessage) -> Option<Seq<char>> {
    if is_system_role(m.role@) {
        if spec_extract_text(opt_json_view(m.content)) is None {
            Some("system message must have text content"@)
        } else {
            None
        }
    } else if m.role@ == "tool"@ {
        if m.tool_call_id is None {
            Some("tool message missing tool_call_id"@)
        } else {
            None
        }
    } else {
        content_error(opt_json_view(m.content))
    }
}

/// The tool calls of a message, as a sequence.
pub open spec fn calls_of(m: ChatMessage) -> Seq<ChatToolCall> {
    match m.tool_calls {
        Some(v) => v@,
        None => Seq::empty(),
    }
}

/// `m` is the canonical message of the OpenAI message `w` (not a system
/// message). An assistant message holds its content blocks, then one tool
/// use per tool call; a tool message holds one tool result; an unknown role
/// is taken as the user's.
pub open spec fn message_decodes(w: ChatMessage, m: Message) -> bool {
    if w.role@ == "assistant"@ {
        m.role == Role::Assistant && (m.content matches MessageContent::Blocks(bs) && {
            let k = bs@.len() - calls_of(w).len();
            k >= 0 && content_decodes(opt_json_view(w.content), bs@.subrange(0, k)) && mapped(
                calls_of(w),
                bs@.subrange(k, bs@.len() as int),
                |tc: ChatToolCall, b: ContentBlock| call_decodes(tc, b),
            )
        })
    } else if w.role@ == "tool"@ {
        m.role == Role::Tool && (m.content matches MessageContent::Blocks(bs) && bs@.len() == 1 && (
        bs@[0] matches ContentBlock::ToolResult(tr) && Some(tr.tool_use_id) == w.tool_call_id
            && tr.name == w.name && tr.is_error is None && (tr.content matches ToolResultContent::Text(
            t,
        ) && t@ == tool_content_text(opt_json_view(w.content)))))
    } else {
        m.role == Role::User && (m.content matches MessageContent::Blocks(bs) && content_decodes(
            opt_json_view(w.content),
            bs@,
        ))
    }
}

/// The texts of the system messages among `ms`, in order.
pub open spec fn system_texts(ms: Seq<ChatMessage>) -> Seq<Seq<char>>
    decreases ms.len(),
{
    if ms.len() == 0 {
        Seq::empty()
    } else {
        let init = system_texts(ms.drop_last());
        if is_system_role(ms.last().role@) {
            init.push(spec_extract_text(opt_json_view(ms.last().content))->0)
        } else {
            init
        }
    }
}

/// `out` is what the OpenAI messages `ms` decode to: the other messages in
/// order, and the system messages' texts joined by blank lines as the system
/// instruction.
pub open spec fn messages_decode(ms: Seq<ChatMessage>, out: Seq<Message>, system: Option<SystemInstruction>) -> bool {
    &&& filter_mapped(ms, out, |w: ChatMessage| !is_system_role(w.role@), |w: ChatMessage, m: Message| message_decodes(w, m))
    &&& if system_texts(ms).len() == 0 {
        system is None
    } else {
        system matches Some(SystemInstruction::Text(t)) && t@ == join(system_texts(ms), "\n\n"@)
    }
}

/// Decode one OpenAI message other than a system message.
fn decode_message(msg: &ChatMessage) -> (r: Result<Message, ProtocolEngineError>)
    requires
        !is_system_role(msg.role@),
    ensures
        match r {
            Ok(m) => message_error(*msg) is None && message_decodes(*msg, m),
            Err(e) => message_error(*msg) matches Some(t) && (e matches ProtocolEngineError::InvalidPayload { message } && message@ == t),
        },
{
    proof {
        reveal_strlit("assistant");
        reveal_strlit("tool");
        assert("assistant"@.len() == 9 && "tool"@.len() == 4);
    }
    if str_is(msg.role.as_str(), "assistant") {
        let mut blocks = match decode_content_blocks(&msg.content) {
            Ok(b) => b,
            Err(e) => {
                return Err(e);
            },
        };
        let ghost content_part = blocks@;
        let ghost k = blocks@.len() as int;
        match &msg.tool_calls {
            Some(tool_calls) => {
                let mut j: usize = 0;
                while j < tool_calls.len()
                    invariant
                        j <= tool_calls@.len(),
                        0 <= k,
                        blocks@.len() == k + j,
                        blocks@.subrange(0, k) == content_part,
                        forall|q: int| 0 <= q < j ==> call_decodes(#[trigger] tool_calls@[q], blocks@[k + q]),
                    decreases tool_calls@.len() - j,
                {
                    let tc = &tool_calls[j];
                    let input = tool_input(parse_json(tc.function.arguments.as_str()));
                    let ghost before = blocks@;
                    let b = ContentBlock::ToolUse(ToolUseBlock {
                        id: tc.id.clone(),
                        name: tc.function.name.clone(),
                        input,
                    });
                    assert(call_decodes(*tc, b));
                    blocks.push(b);
                    assert(blocks@ == before.push(b));
                    assert(blocks@.subrange(0, k) =~= before.subrange(0, k));
                    assert(blocks@[k + j] == b);
                    j = j + 1;
                }
                assert(blocks@.subrange(k, blocks@.len() as int).len() == tool_calls@.len());
                assert forall|q: int| 0 <= q < tool_calls@.len() implies call_decodes(#[trigger] tool_calls@[q], blocks@.subrange(k, blocks@.len() as int)[q]) by {
                    assert(blocks@.subrange(k, blocks@.len() as int)[q] == blocks@[k + q]);
                }
            },
            None => {
                assert(blocks@.subrange(0, k) =~= blocks@);
                assert(blocks@.subrange(k, blocks@.len() as int) =~= Seq::<ContentBlock>::empty());
            },
        }
        Ok(Message { role: Role::Assistant, content: MessageContent::Blocks(blocks) })
    } else if str_is(msg.role.as_str(), "tool") {
        let content = match &msg.content {
            Some(c) => match extract_text_from_value(c) {
                Some(s) => s,
                None => String::new(),
            },
            None => String::new(),
        };
        let tool_use_id = match &msg.tool_call_id {
            Some(id) => id.clone(),
            None => {
                return Err(
                    ProtocolEngineError::InvalidPayload {
                        message: String::from_str("tool message missing tool_call_id"),
                    },
                );
            },
        };
        let b = ContentBlock::ToolResult(
            ToolResultBlock {
                tool_use_id,
                name: clone_opt_string(&msg.name),
                content: ToolResultContent::Text(content),
                is_error: None,
            },
        );
        Ok(Message { role: Role::Tool, content: MessageContent::Blocks(vec![b]) })
    } else {
        // "user", and any role OpenAI does not define.
        match decode_content_blocks(&msg.content) {
            Ok(content) => Ok(Message { role: Role::User, content: MessageContent::Blocks(content) }),
            Err(e) => Err(e),
        }
    }
}

/// Decode OpenAI messages into canonical messages and the system
/// instruction.
fn decode_request_messages(msgs: &Vec<ChatMessage>) -> (r: Result<(Vec<Message>, Option<SystemInstruction>), ProtocolEngineError>)
    ensures
        match r {
            Ok((ms, sys)) => first_error(msgs@, |m: ChatMessage| message_error(m)) is None && messages_decode(msgs@, ms@, sys),
            Err(e) => first_error(msgs@, |m: ChatMessage| message_error(m)) matches Some(t) && (e matches ProtocolEngineError::InvalidPayload { message } && message@ == t),
        },
{
    let mut messages: Vec<Message> = Vec::new();
    let mut system_text = String::new();
    let mut has_system: bool = false;
    let mut i: usize = 0;
    assert(msgs@.subrange(0, 0) =~= Seq::<ChatMessage>::empty());
    while i < msgs.len()
        invariant
            i <= msgs@.len(),
            first_error(msgs@.subrange(0, i as int), |m: ChatMessage| message_error(m)) is None,
            filter_mapped(msgs@.subrange(0, i as int), messages@, |w: ChatMessage| !is_system_role(w.role@), |w: ChatMessage, m: Message| message_decodes(w, m)),
            has_system == (system_texts(msgs@.subrange(0, i as int)).len() > 0),
            system_text@ == join(system_texts(msgs@.subrange(0, i as int)), "\n\n"@),
        decreases msgs@.len() - i,
    {
        let ghost pre = msgs@.subrange(0, i as int);
        proof {
            lemma_prefix_push(msgs@, i as int);
            lemma_first_error_push(pre, |m: ChatMessage| message_error(m), msgs@[i as int]);
            assert(msgs@.subrange(0, i + 1).drop_last() =~= pre);
        }
        let msg = &msgs[i];
        if str_is(msg.role.as_str(), "system") || str_is(msg.role.as_str(), "developer") {
            let text = match extract_text_content(&msg.content) {
                Some(t) => t,
                None => {
                    proof {
                        lemma_first_error_prefix(msgs@, |m: ChatMessage| message_error(m), i as int + 1);
                    }
                    return Err(
                        ProtocolEngineError::InvalidPayload {
                            message: String::from_str("system message must have text content"),
                        },
                    );
                },
            };
            push_part(&mut system_text, !has_system, "\n\n", text.as_str(), Ghost(system_texts(pre)));
            has_system = true;
            proof {
                lemma_filter_mapped_push(pre, messages@, |w: ChatMessage| !is_system_role(w.role@), |w: ChatMessage, m: Message| message_decodes(w, m), *msg, arbitrary());
            }
        } else {
            match decode_message(msg) {
                Ok(m) => {
                    proof {
                        lemma_filter_mapped_push(pre, messages@, |w: ChatMessage| !is_system_role(w.role@), |w: ChatMessage, m: Message| message_decodes(w, m), *msg, m);
                    }
                    messages.push(m);
                },
                Err(e) => {
                    proof {
                        lemma_first_error_prefix(msgs@, |m: ChatMessage| message_error(m), i as int + 1);
                    }
                    return Err(e);
                },
            }
        }
        i = i + 1;
    }
    assert(msgs@.subrange(0, msgs@.len() as int) =~= msgs@);
    let system = if has_system {
        Some(SystemInstruction::Text(system_text))
    } else {
        None
    };
    Ok((messages, system))
}

// ─── Tool choice ────────────────────────────────────────────────────────────

/// `c` is the canonical tool choice of the OpenAI one `w`: a mode string
/// other than `auto`, `required` and `none` names a tool.
pub open spec fn tool_choice_decodes(w: ChatToolChoice, c: ToolChoice) -> bool {
    match w {
        ChatToolChoice::String(s) => if s@ == "auto"@ {
            c is Auto
        } else if s@ == "required"@ {
            c is Required
        } else if s@ == "none"@ {
            c is NoTools
        } else {
            c matches ToolChoice::Named { name } && name@ == s@
        },
        ChatToolChoice::Object(obj) => c matches ToolChoice::Named { name } && name@ == obj.function.name@,
    }
}

/// Decode an OpenAI tool choice into a canonical one.
pub fn decode_tool_choice(tc: ChatToolChoice) -> (c: ToolChoice)
    ensures
        tool_choice_decodes(tc, c),
{
    match tc {
        ChatToolChoice::String(s) => {
            if str_is(s.as_str(), "auto") {
                ToolChoice::Auto
            } else if str_is(s.as_str(), "required") {
                ToolChoice::Required
            } else if str_is(s.as_str(), "none") {
                ToolChoice::NoTools
            } else {
                ToolChoice::Named { name: s }
            }
        },
        ChatToolChoice::Object(obj) => ToolChoice::Named { name: obj.function.name },
    }
}

// ─── Requests ───────────────────────────────────────────────────────────────

/// `t` is the canonical form of the OpenAI tool definition `w`; its `strict`
/// flag (false when absent) is kept as an extra field.
pub open spec fn tool_def_decodes(w: ChatToolDefinition, t: ToolDefinition) -> bool {
    &&& t.name@ == w.function.name@
    &&& t.description == w.function.description
    &&& opt_json_view(t.input_schema) == opt_json_view(w.function.parameters)
    &&& t.deferred is None
    &&& entries_view(t.extra@) == seq![("strict"@, Json::Bool(match w.function.strict {
        Some(b) => b,
        None => false,
    }))]
}

/// `c` is the canonical form of the OpenAI request `w`. The fields that no
/// other field names are kept, as an object, in the OpenAI extension.
pub open spec fn request_decodes(w: ChatCompletionRequest, c: CanonicalRequest) -> bool {
    &&& c.model@ == w.model@
    &&& messages_decode(w.messages@, c.messages@, c.system)
    &&& c.temperature == w.temperature
    &&& c.top_p == w.top_p
    &&& c.max_tokens == w.max_tokens
    &&& c.stop@ == match w.stop {
        Some(v) => v@,
        None => Seq::empty(),
    }
    &&& mapped(match w.tools {
        Some(v) => v@,
        None => Seq::empty(),
    }, c.tools@, |w: ChatToolDefinition, t: ToolDefinition| tool_def_decodes(w, t))
    &&& match w.tool_choice {
        Some(tc) => c.tool_choice matches Some(x) && tool_choice_decodes(tc, x),
        None => c.tool_choice is None,
    }
    &&& match w.response_format {
        Some(rf) => c.response_format matches Some(x) && x.format_type@ == rf.format_type@
            && opt_json_view(x.json_schema) == opt_json_view(rf.json_schema),
        None => c.response_format is None,
    }
    &&& c.stream == w.stream
    &&& opt_json_view(c.metadata) == opt_json_view(w.metadata)
    &&& c.extensions.anthropic is None
    &&& if w.extra@.len() == 0 {
        c.extensions.openai is None
    } else {
        c.extensions.openai matches Some(j) && j@ == Json::Object(entries_view(w.extra@))
    }
}

/// A copy of object entries.
fn clone_entries(es: &Vec<(String, JsonValue)>) -> (r: Vec<(String, JsonValue)>)
    ensures
        entries_view(r@) == entries_view(es@),
{
    let mut r: Vec<(String, JsonValue)> = Vec::new();
    let mut i: usize = 0;
    while i < es.len()
        invariant
            i <= es@.len(),
            r@.len() == i,
            forall|k: int| 0 <= k < i ==> (#[trigger] r@[k]).0@ == es@[k].0@ && r@[k].1@ == es@[k].1@,
        decreases es@.len() - i,
    {
        r.push((es[i].0.clone(), es[i].1.deep_clone()));
        i = i + 1;
    }
    assert(entries_view(r@) =~= entries_view(es@));
    r
}

/// Decode an OpenAI Chat Completions request into a canonical request. It
/// fails exactly when a message cannot be decoded, with the error of the
/// first such message: a system message without text, a tool message
/// without `tool_call_id`, or a content part without its payload.
pub fn decode_request(req: ChatCompletionRequest) -> (r: Result<CanonicalRequest, ProtocolEngineError>)
    ensures
        match r {
            Ok(c) => first_error(req.messages@, |m: ChatMessage| message_error(m)) is None && request_decodes(req, c),
            Err(e) => first_error(req.messages@, |m: ChatMessage| message_error(m)) matches Some(t) && (e matches ProtocolEngineError::InvalidPayload { message } && message@ == t),
        },
{
    let (messages, system) = match decode_request_messages(&req.messages) {
        Ok(v) => v,
        Err(e) => {
            return Err(e);
        },
    };

    let mut tools: Vec<ToolDefinition> = Vec::new();
    match &req.tools {
        Some(ws) => {
            let mut k: usize = 0;
            while k < ws.len()
                invariant
                    k <= ws@.len(),
                    tools@.len() == k,
                    forall|j: int| 0 <= j < k ==> tool_def_decodes(#[trigger] ws@[j], tools@[j]),
                decreases ws@.len() - k,
            {
                let t = &ws[k];
                let strict = match t.function.strict {
                    Some(b) => b,
                    None => false,
                };
                let extra = vec![(String::from_str("strict"), JsonValue::Bool(strict))];
                assert(entries_view(extra@) =~= seq![("strict"@, Json::Bool(strict))]);
                tools.push(
                    ToolDefinition {
                        name: t.function.name.clone(),
                        description: clone_opt_string(&t.function.description),
                        input_schema: clone_opt_json(&t.function.parameters),
                        deferred: None,
                        extra,
                    },
                );
                k = k + 1;
            }
        },
        None => {},
    }

    let tool_choice = match &req.tool_choice {
        Some(tc) => Some(decode_tool_choice(tc.clone_choice())),
        None => None,
    };

    let response_format = match &req.response_format {
        Some(rf) => Some(
            ResponseFormat {
                format_type: rf.format_type.clone(),
                json_schema: clone_opt_json(&rf.json_schema),
            },
        ),
        None => None,
    };

    let openai = if req.extra.len() == 0 {
        None
    } else {
        let es = clone_entries(&req.extra);
        let j = JsonValue::Object(es);
        proof {
            crate::json::lemma_object_view(es);
            assert(entries_view(es@) =~= Seq::new(es@.len(), |i: int| (es@[i].0@, es@[i].1@)));
        }
        Some(j)
    };

    let stop = match &req.stop {
        Some(v) => clone_strings(v),
        None => Vec::new(),
    };

    Ok(
        CanonicalRequest {
            model: req.model.clone(),
            messages,
            system,
            temperature: clone_opt_string(&req.temperature),
            top_p: clone_opt_string(&req.top_p),
            max_tokens: req.max_tokens,
            stop,
            tools,
            tool_choice,
            stream: req.stream,
            response_format,
            metadata: clone_opt_json(&req.metadata),
            extensions: ProviderExtensions { openai, anthropic: None },
        },
    )
}

impl ChatToolChoice {
    /// A copy of this tool choice.
    pub fn clone_choice(&self) -> (r: ChatToolChoice)
        ensures
            match (*self, r) {
                (ChatToolChoice::String(a), ChatToolChoice::String(b)) => a == b,
                (ChatToolChoice::Object(a), ChatToolChoice::Object(b)) => a.choice_type == b.choice_type
                    && a.function.name == b.function.name,
                _ => false,
            },
    {
        match self {
            ChatToolChoice::String(s) => ChatToolChoice::String(s.clone()),
            ChatToolChoice::Object(o) => ChatToolChoice::Object(
                super::wire::ChatToolChoiceObject {
                    choice_type: o.choice_type.clone(),
                    function: super::wire::ChatToolChoiceFunction { name: o.function.name.clone() },
                },
            ),
        }
    }
}

// ─── Responses ──────────────────────────────────────────────────────────────

/// The canonical finish reason of an OpenAI one.
pub open spec fn finish_reason_decodes(s: Seq<char>, f: FinishReason) -> bool {
    if s == "stop"@ {
        f is Stop
    } else if s == "length"@ {
        f is Length
    } else if s == "tool_calls"@ {
        f is ToolCalls
    } else if s == "content_filter"@ {
        f is ContentFilter
    } else {
        f matches FinishReason::Other(o) && o@ == s
    }
}

fn decode_finish_reason(s: &str) -> (f: FinishReason)
    ensures
        finish_reason_decodes(s@, f),
{
    if str_is(s, "stop") {
        FinishReason::Stop
    } else if str_is(s, "length") {
        FinishReason::Length
    } else if str_is(s, "tool_calls") {
        FinishReason::ToolCalls
    } else if str_is(s, "content_filter") {
        FinishReason::ContentFilter
    } else {
        FinishReason::Other(String::from_str(s))
    }
}

/// Whether a choice carries text: a content that is not empty.
pub open spec fn has_text(c: ChatChoice) -> bool {
    c.message.content matches Some(t) && t@.len() > 0
}

/// The tool calls of a response choice.
pub open spec fn response_calls(c: ChatChoice) -> Seq<ChatToolCallResponse> {
    match c.message.tool_calls {
        Some(v) => v@,
        None => Seq::empty(),
    }
}

/// The number of canonical blocks a choice yields.
pub open spec fn choice_len(c: ChatChoice) -> int {
    (if has_text(c) {
        1int
    } else {
        0int
    }) + response_calls(c).len()
}

/// `b` is the canonical block of the response tool call `tc`; arguments
/// that are not JSON give the empty object.
pub open spec fn response_call_decodes(tc: ChatToolCallResponse, b: ContentBlock) -> bool {
    b matches ContentBlock::ToolUse(tu) && tu.id@ == tc.id@ && tu.name@ == tc.function.name@
        && tu.input@ == input_or_empty(spec_parse_json(tc.function.arguments@))
}

/// `bs` are the canonical blocks of one choice: its text, if not empty,
/// then one tool use per tool call.
pub open spec fn choice_decodes(c: ChatChoice, bs: Seq<ContentBlock>) -> bool {
    let k: int = if has_text(c) {
        1
    } else {
        0
    };
    &&& bs.len() == choice_len(c)
    &&& has_text(c) ==> (bs[0] matches ContentBlock::Text(t) && Some(t.text) == c.message.content)
    &&& mapped(response_calls(c), bs.subrange(k, bs.len() as int), |tc: ChatToolCallResponse, b: ContentBlock| response_call_decodes(tc, b))
}

/// `bs` are the canonical blocks of the choices `cs`, choice after choice.
pub open spec fn choices_decode(cs: Seq<ChatChoice>, bs: Seq<ContentBlock>) -> bool
    decreases cs.len(),
{
    if cs.len() == 0 {
        bs.len() == 0
    } else {
        let n = choice_len(cs.last());
        &&& n <= bs.len()
        &&& choice_decodes(cs.last(), bs.subrange(bs.len() - n, bs.len() as int))
        &&& choices_decode(cs.drop_last(), bs.subrange(0, bs.len() - n))
    }
}

/// `c` is the canonical form of the OpenAI response `w`: the finish reason
/// is that of the first choice.
pub open spec fn response_decodes(w: ChatCompletionResponse, c: CanonicalResponse) -> bool {
    &&& c.id@ == w.id@
    &&& c.model@ == w.model@
    &&& choices_decode(w.choices@, c.content@)
    &&& if w.choices@.len() > 0 && w.choices@[0].finish_reason is Some {
        c.finish_reason matches Some(f) && finish_reason_decodes(w.choices@[0].finish_reason->0@, f)
    } else {
        c.finish_reason is None
    }
    &&& c.usage == match w.usage {
        Some(u) => Some(
            Usage {
                input_tokens: Some(u.prompt_tokens),
                output_tokens: Some(u.completion_tokens),
                total_tokens: Some(u.total_tokens),
                cache_creation_input_tokens: None,
                cache_read_input_tokens: None,
            },
        ),
        None => None,
    }
    &&& c.extensions.openai is None
    &&& c.extensions.anthropic is None
}

/// The canonical blocks of one choice.
fn decode_choice(choice: &ChatChoice) -> (out: Vec<ContentBlock>)
    ensures
        choice_decodes(*choice, out@),
{
    let mut out: Vec<ContentBlock> = Vec::new();
    match &choice.message.content {
        Some(text) => {
            if !text.as_str().is_empty() {
                out.push(ContentBlock::Text(TextContent { text: text.clone() }));
            }
        },
        None => {},
    }
    let ghost k: int = out@.len() as int;
    assert(k == if has_text(*choice) { 1int } else { 0int });
    match &choice.message.tool_calls {
        Some(tcs) => {
            let mut j: usize = 0;
            while j < tcs.len()
                invariant
                    j <= tcs@.len(),
                    k == if has_text(*choice) { 1int } else { 0int },
                    tcs@ == response_calls(*choice),
                    out@.len() == k + j,
                    has_text(*choice) ==> (out@[0] matches ContentBlock::Text(t) && Some(t.text) == choice.message.content),
                    forall|q: int| 0 <= q < j ==> response_call_decodes(#[trigger] tcs@[q], out@[k + q]),
                decreases tcs@.len() - j,
            {
                let tc = &tcs[j];
                let input = tool_input(parse_json(tc.function.arguments.as_str()));
                out.push(ContentBlock::ToolUse(ToolUseBlock {
                    id: tc.id.clone(),
                    name: tc.function.name.clone(),
                    input,
                }));
                j = j + 1;
            }
            assert forall|q: int| 0 <= q < tcs@.len() implies response_call_decodes(#[trigger] tcs@[q], out@.subrange(k, out@.len() as int)[q]) by {
                assert(out@.subrange(k, out@.len() as int)[q] == out@[k + q]);
            }
        },
        None => {
            assert(out@.subrange(k, out@.len() as int) =~= Seq::<ContentBlock>::empty());
        },
    }
    out
}

/// Decode an OpenAI Chat Completions response into a canonical response.
pub fn decode_response(resp: &ChatCompletionResponse) -> (r: Result<CanonicalResponse, ProtocolEngineError>)
    ensures
        r matches Ok(c) && response_decodes(*resp, c),
{
    let mut content: Vec<ContentBlock> = Vec::new();
    let mut i: usize = 0;
    assert(resp.choices@.subrange(0, 0) =~= Seq::<ChatChoice>::empty());
    while i < resp.choices.len()
        invariant
            i <= resp.choices@.len(),
            choices_decode(resp.choices@.subrange(0, i as int), content@),
        decreases resp.choices@.len() - i,
    {
        let ghost before = content@;
        let mut v = decode_choice(&resp.choices[i]);
        let ghost vv = v@;
        content.append(&mut v);
        proof {
            let cs = resp.choices@.subrange(0, i + 1);
            assert(cs.drop_last() =~= resp.choices@.subrange(0, i as int));
            assert(cs.last() == resp.choices@[i as int]);
            let n = vv.len() as int;
            assert(content@.subrange(content@.len() - n, content@.len() as int) =~= vv);
            assert(content@.subrange(0, content@.len() - n) =~= before);
        }
        i = i + 1;
    }
    assert(resp.choices@.subrange(0, resp.choices@.len() as int) =~= resp.choices@);

    let finish_reason = if resp.choices.len() > 0 {
        match &resp.choices[0].finish_reason {
            Some(r) => Some(decode_finish_reason(r.as_str())),
            None => None,
        }
    } else {
        None
    };

    let usage = match &resp.usage {
        Some(u) => Some(
            Usage {
                input_tokens: Some(u.prompt_tokens),
                output_tokens: Some(u.completion_tokens),
                total_tokens: Some(u.total_tokens),
                cache_creation_input_tokens: None,
                cache_read_input_tokens: None,
            },
        ),
        None => None,
    };

    Ok(
        CanonicalResponse {
            id: resp.id.clone(),
            model: resp.model.clone(),
            content,
            finish_reason,
            usage,
            extensions: ProviderExtensions { openai: None, anthropic: None },
        },
    )
}

} // verus!
