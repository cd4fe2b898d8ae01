//! OpenAI Chat Completions adapter: request, response and stream encoding.

use vstd::prelude::*;
use crate::adapters::{
    count_emitting, lemma_filter_mapped_len, filter_mapped, first_error, lemma_filter_mapped_empty, lemma_filter_mapped_push,
    lemma_first_error_prefix, lemma_first_error_push, lemma_prefix_push, mapped,
};
use crate::canonical::{
    CanonicalRequest, CanonicalResponse, CanonicalStreamEvent, ContentBlock, FinishReason, Message,
    MessageContent, Role, SystemInstruction, TextContent, ToolChoice, ToolDefinition,
    ToolResultContent, Usage, clone_opt_string, clone_strings, join_block_texts, spec_block_texts,
    spec_blocks_of,
};
use crate::error::ProtocolEngineError;
use crate::json::{
    Json, JsonValue, clone_opt_json, entries_get, entries_view, json_as_bool, json_get,
    opt_json_view, spec_json_to_string,
};
use crate::text::{join, push_part};
use super::wire::{
    ChatChoice, ChatChunkChoice, ChatCompletionChunk, ChatCompletionRequest,
    ChatCompletionResponse, ChatDelta, ChatDeltaFunction, ChatDeltaToolCall, ChatFunctionCall,
    ChatFunctionCallResponse, ChatFunctionDefinition, ChatMessage, ChatResponseFormat,
    ChatResponseMessage, ChatToolCall, ChatToolCallResponse, ChatToolChoice, ChatToolChoiceFunction,
    ChatToolChoiceObject, ChatToolDefinition, ChatUsage,
};

verus! {

// ─── Small mappings ─────────────────────────────────────────────────────────

/// The OpenAI finish reason of a canonical one.
pub open spec fn spec_finish_reason_to_openai(r: FinishReason) -> Seq<char> {
    match r {
        FinishReason::Stop => "stop"@,
        FinishReason::StopSequence => "stop"@,
        FinishReason::Length => "length"@,
        FinishReason::ToolCalls => "tool_calls"@,
        FinishReason::ContentFilter => "content_filter"@,
        FinishReason::Error => "stop"@,
        FinishReason::Other(_) => "stop"@,
    }
}

/// Map a canonical finish reason to an OpenAI `finish_reason` string.
pub fn finish_reason_to_openai(reason: &FinishReason) -> (s: &'static str)
    ensures
        s@ == spec_finish_reason_to_openai(*reason),
{
    match reason {
        FinishReason::Stop => "stop",
        FinishReason::StopSequence => "stop",
        FinishReason::Length => "length",
        FinishReason::ToolCalls => "tool_calls",
        FinishReason::ContentFilter => "content_filter",
        FinishReason::Error => "stop",
        FinishReason::Other(_) => "stop",
    }
}

/// The OpenAI usage of canonical usage: absent counts are zero.
pub open spec fn spec_usage_to_chat(u: Usage) -> ChatUsage {
    ChatUsage {
        prompt_tokens: match u.input_tokens {
            Some(n) => n,
            None => 0,
        },
        completion_tokens: match u.output_tokens {
            Some(n) => n,
            None => 0,
        },
        total_tokens: match u.total_tokens {
            Some(n) => n,
            None => 0,
        },
    }
}

/// Convert canonical usage to OpenAI usage.
pub fn usage_to_chat(usage: &Usage) -> (u: ChatUsage)
    ensures
        u == spec_usage_to_chat(*usage),
{
    ChatUsage {
        prompt_tokens: match usage.input_tokens {
            Some(n) => n,
            None => 0,
        },
        completion_tokens: match usage.output_tokens {
            Some(n) => n,
            None => 0,
        },
        total_tokens: match usage.total_tokens {
            Some(n) => n,
            None => 0,
        },
    }
}

/// `w` is the OpenAI tool choice of the canonical one `c`.
pub open spec fn tool_choice_encodes(c: ToolChoice, w: ChatToolChoice) -> bool {
    match c {
        ToolChoice::Auto => w matches ChatToolChoice::String(s) && s@ == "auto"@,
        ToolChoice::Required => w matches ChatToolChoice::String(s) && s@ == "required"@,
        ToolChoice::NoTools => w matches ChatToolChoice::String(s) && s@ == "none"@,
        ToolChoice::Named { name } => w matches ChatToolChoice::Object(o) && o.choice_type@
            == "function"@ && o.function.name@ == name@,
    }
}

/// Encode a canonical tool choice into an OpenAI one.
pub fn encode_tool_choice(tc: &Option<ToolChoice>) -> (r: Option<ChatToolChoice>)
    ensures
        match *tc {
            Some(c) => r matches Some(w) && tool_choice_encodes(c, w),
            None => r is None,
        },
{
    match tc {
        None => None,
        Some(ToolChoice::Auto) => Some(ChatToolChoice::String(String::from_str("auto"))),
        Some(ToolChoice::Required) => Some(ChatToolChoice::String(String::from_str("required"))),
        Some(ToolChoice::NoTools) => Some(ChatToolChoice::String(String::from_str("none"))),
        Some(ToolChoice::Named { name }) => Some(
            ChatToolChoice::Object(
                ChatToolChoiceObject {
                    choice_type: String::from_str("function"),
                    function: ChatToolChoiceFunction { name: name.clone() },
                },
            ),
        ),
    }
}

// ─── Messages ───────────────────────────────────────────────────────────────

/// The OpenAI role name of a canonical role.
pub open spec fn role_name(r: Role) -> Seq<char> {
    match r {
        Role::User => "user"@,
        Role::Assistant => "assistant"@,
        Role::Tool => "tool"@,
        Role::System => "system"@,
    }
}

/// `c` is the OpenAI tool call of the tool use block `b`: its arguments are
/// the input's JSON text.
pub open spec fn call_encodes(b: ContentBlock, c: ChatToolCall) -> bool {
    b matches ContentBlock::ToolUse(tu) && c.id@ == tu.id@ && c.call_type@ == "function"@
        && c.function.name@ == tu.name@ && c.function.arguments@ == spec_json_to_string(tu.input@)
}

/// `calls` are the OpenAI tool calls of the tool uses among `bs`.
pub open spec fn calls_encode(bs: Seq<ContentBlock>, calls: Seq<ChatToolCall>) -> bool {
    filter_mapped(bs, calls, |b: ContentBlock| b is ToolUse, |b: ContentBlock, c: ChatToolCall| call_encodes(b, c))
}

/// `w` is the OpenAI message of the canonical message `m` (not a tool
/// message): its text blocks joined by newlines, and its tool uses as tool
/// calls. A message with tool calls and no text has a null content; one
/// with neither has none.
pub open spec fn message_encodes(m: Message, w: ChatMessage) -> bool {
    message_parts_encode(m.role, spec_blocks_of(m.content), w)
}

/// `w` is the OpenAI message of a canonical message with role `role` and
/// blocks `bs`.
pub open spec fn message_parts_encode(role: Role, bs: Seq<ContentBlock>, w: ChatMessage) -> bool {
    let texts = spec_block_texts(bs);
    &&& w.role@ == role_name(role)
    &&& w.name is None
    &&& w.tool_call_id is None
    &&& match w.tool_calls {
        Some(calls) => calls@.len() > 0 && calls_encode(bs, calls@),
        None => calls_encode(bs, Seq::empty()),
    }
    &&& if texts.len() == 0 && w.tool_calls is None {
        w.content is None
    } else if texts.len() == 0 {
        w.content matches Some(j) && j@ == Json::Null
    } else {
        w.content matches Some(j) && j@ == Json::Str(join(texts, "\n"@))
    }
}

/// The text of a system instruction: its blocks' texts joined by newlines.
pub open spec fn system_text(s: SystemInstruction) -> Seq<char> {
    match s {
        SystemInstruction::Text(t) => t@,
        SystemInstruction::Blocks(bs) => join(bs@.map_values(|b: crate::canonical::SystemBlock| b.text@), "\n"@),
    }
}

/// `w` is the system message that carries the instruction `s`.
pub open spec fn system_message_encodes(s: SystemInstruction, w: ChatMessage) -> bool {
    &&& w.role@ == "system"@
    &&& w.content matches Some(j) && j@ == Json::Str(system_text(s))
    &&& w.name is None
    &&& w.tool_calls is None
    &&& w.tool_call_id is None
}

/// The text a tool result carries in its own message.
pub open spec fn tool_result_text(c: ToolResultContent) -> Seq<char> {
    match c {
        ToolResultContent::Text(s) => s@,
        ToolResultContent::Blocks(bs) => join(spec_block_texts(bs@), seq!['\n']),
    }
}

/// `w` is the `tool` message of the tool result block `b`.
pub open spec fn tool_message_encodes(b: ContentBlock, w: ChatMessage) -> bool {
    &&& b matches ContentBlock::ToolResult(tr)
    &&& w.role@ == "tool"@
    &&& w.content matches Some(j) && j@ == Json::Str(tool_result_text(b->ToolResult_0.content))
    &&& w.name is None
    &&& w.tool_calls is None
    &&& w.tool_call_id == Some(b->ToolResult_0.tool_use_id)
}

/// The blocks of the tool messages among `ms`, in order.
pub open spec fn tool_blocks(ms: Seq<Message>) -> Seq<ContentBlock>
    decreases ms.len(),
{
    if ms.len() == 0 {
        Seq::empty()
    } else if ms.last().role == Role::Tool {
        tool_blocks(ms.drop_last()) + spec_blocks_of(ms.last().content)
    } else {
        tool_blocks(ms.drop_last())
    }
}

/// The text of the system message.
pub(crate) fn encode_system_text(sys: &SystemInstruction) -> (t: String)
    ensures
        t@ == system_text(*sys),
{
    match sys {
        SystemInstruction::Text(t) => t.clone(),
        SystemInstruction::Blocks(blocks) => {
            let ghost ps = blocks@.map_values(|b: crate::canonical::SystemBlock| b.text@);
            let mut out = String::new();
            let mut i: usize = 0;
            assert(ps.subrange(0, 0) =~= Seq::<Seq<char>>::empty());
            while i < blocks.len()
                invariant
                    i <= blocks@.len(),
                    ps == blocks@.map_values(|b: crate::canonical::SystemBlock| b.text@),
                    out@ == join(ps.subrange(0, i as int), "\n"@),
                decreases blocks@.len() - i,
            {
                push_part(&mut out, i == 0, "\n", blocks[i].text.as_str(), Ghost(ps.subrange(0, i as int)));
                assert(ps.subrange(0, i as int).push(blocks@[i as int].text@) =~= ps.subrange(0, i + 1));
                i = i + 1;
            }
            assert(ps.subrange(0, ps.len() as int) =~= ps);
            out
        },
    }
}

/// Encode one canonical message (not a tool message) into an OpenAI
/// message.
fn encode_message_blocks(role: Role, blocks: &[ContentBlock]) -> (w: ChatMessage)
    ensures
        message_parts_encode(role, blocks@, w),
{
    let role_str = match role {
        Role::User => String::from_str("user"),
        Role::Assistant => String::from_str("assistant"),
        Role::Tool => String::from_str("tool"),
        Role::System => String::from_str("system"),
    };
    let mut text = String::new();
    let mut has_text: bool = false;
    let mut tool_calls: Vec<ChatToolCall> = Vec::new();
    let mut i: usize = 0;
    assert(blocks@.subrange(0, 0) =~= Seq::<ContentBlock>::empty());
    while i < blocks.len()
        invariant
            i <= blocks@.len(),
            has_text == (spec_block_texts(blocks@.subrange(0, i as int)).len() > 0),
            text@ == join(spec_block_texts(blocks@.subrange(0, i as int)), "\n"@),
            calls_encode(blocks@.subrange(0, i as int), tool_calls@),
        decreases blocks@.len() - i,
    {
        let ghost pre = blocks@.subrange(0, i as int);
        proof {
            lemma_prefix_push(blocks@, i as int);
            assert(blocks@.subrange(0, i + 1).drop_last() =~= pre);
        }
        match &blocks[i] {
            ContentBlock::Text(t) => {
                push_part(&mut text, !has_text, "\n", t.text.as_str(), Ghost(spec_block_texts(pre)));
                has_text = true;
                proof {
                    lemma_filter_mapped_push(pre, tool_calls@, |b: ContentBlock| b is ToolUse, |b: ContentBlock, c: ChatToolCall| call_encodes(b, c), blocks@[i as int], arbitrary());
                }
            },
            ContentBlock::ToolUse(tu) => {
                let c = ChatToolCall {
                    id: tu.id.clone(),
                    call_type: String::from_str("function"),
                    function: ChatFunctionCall { name: tu.name.clone(), arguments: tu.input.to_json_string() },
                };
                proof {
                    lemma_filter_mapped_push(pre, tool_calls@, |b: ContentBlock| b is ToolUse, |b: ContentBlock, c: ChatToolCall| call_encodes(b, c), blocks@[i as int], c);
                }
                tool_calls.push(c);
            },
            _ => {
                proof {
                    lemma_filter_mapped_push(pre, tool_calls@, |b: ContentBlock| b is ToolUse, |b: ContentBlock, c: ChatToolCall| call_encodes(b, c), blocks@[i as int], arbitrary());
                }
            },
        }
        i = i + 1;
    }
    assert(blocks@.subrange(0, blocks@.len() as int) =~= blocks@);
    let content = if !has_text && tool_calls.len() == 0 {
        None
    } else if !has_text {
        Some(JsonValue::Null)
    } else {
        Some(JsonValue::String(text))
    };
    let tool_calls_opt = if tool_calls.len() == 0 {
        None
    } else {
        Some(tool_calls)
    };
    proof {
        if tool_calls@.len() == 0 {
            assert(tool_calls@ =~= Seq::<ChatToolCall>::empty());
        }
    }
    ChatMessage { role: role_str, content, name: None, tool_calls: tool_calls_opt, tool_call_id: None }
}

/// Encode a single canonical message (not a tool message).
fn encode_message(msg: &Message) -> (w: ChatMessage)
    ensures
        message_encodes(*msg, w),
{
    match &msg.content {
        MessageContent::Text(s) => {
            let v = vec![ContentBlock::Text(TextContent { text: s.clone() })];
            assert(v@ =~= spec_blocks_of(msg.content));
            encode_message_blocks(msg.role, v.as_slice())
        },
        MessageContent::Blocks(bs) => encode_message_blocks(msg.role, bs.as_slice()),
    }
}

/// Append the `tool` messages of the tool results among `blocks`.
fn push_tool_messages(out: &mut Vec<ChatMessage>, blocks: &[ContentBlock], Ghost(done): Ghost<Seq<ContentBlock>>, Ghost(base): Ghost<int>)
    requires
        0 <= base <= old(out)@.len(),
        filter_mapped(done, old(out)@.subrange(base, old(out)@.len() as int), |b: ContentBlock| b is ToolResult, |b: ContentBlock, w: ChatMessage| tool_message_encodes(b, w)),
    ensures
        final(out)@.subrange(0, base) == old(out)@.subrange(0, base),
        final(out)@.len() >= old(out)@.len(),
        filter_mapped(done + blocks@, final(out)@.subrange(base, final(out)@.len() as int), |b: ContentBlock| b is ToolResult, |b: ContentBlock, w: ChatMessage| tool_message_encodes(b, w)),
{
    let mut i: usize = 0;
    assert(done + blocks@.subrange(0, 0) =~= done);
    while i < blocks.len()
        invariant
            i <= blocks@.len(),
            0 <= base <= old(out)@.len() <= out@.len(),
            out@.subrange(0, base) == old(out)@.subrange(0, base),
            filter_mapped(done + blocks@.subrange(0, i as int), out@.subrange(base, out@.len() as int), |b: ContentBlock| b is ToolResult, |b: ContentBlock, w: ChatMessage| tool_message_encodes(b, w)),
        decreases blocks@.len() - i,
    {
        let ghost pre = done + blocks@.subrange(0, i as int);
        let ghost outs = out@.subrange(base, out@.len() as int);
        proof {
            assert(done + blocks@.subrange(0, i + 1) =~= pre.push(blocks@[i as int]));
        }
        if let ContentBlock::ToolResult(tr) = &blocks[i] {
            let content = match &tr.content {
                ToolResultContent::Text(s) => JsonValue::String(s.clone()),
                ToolResultContent::Blocks(bs) => JsonValue::String(join_block_texts(bs.as_slice())),
            };
            let w = ChatMessage {
                role: String::from_str("tool"),
                content: Some(content),
                name: None,
                tool_calls: None,
                tool_call_id: Some(tr.tool_use_id.clone()),
            };
            assert(tool_message_encodes(blocks@[i as int], w));
            proof {
                lemma_filter_mapped_push(pre, outs, |b: ContentBlock| b is ToolResult, |b: ContentBlock, w: ChatMessage| tool_message_encodes(b, w), blocks@[i as int], w);
            }
            assert(filter_mapped(done + blocks@.subrange(0, i + 1), outs.push(w), |b: ContentBlock| b is ToolResult, |b: ContentBlock, w: ChatMessage| tool_message_encodes(b, w)));
            let ghost before = out@;
            out.push(w);
            assert(out@.subrange(base, out@.len() as int) =~= outs.push(w));
            assert(out@.subrange(0, base) =~= before.subrange(0, base));
        } else {
            proof {
                lemma_filter_mapped_push(pre, outs, |b: ContentBlock| b is ToolResult, |b: ContentBlock, w: ChatMessage| tool_message_encodes(b, w), blocks@[i as int], arbitrary());
            }
            assert(filter_mapped(done + blocks@.subrange(0, i + 1), outs, |b: ContentBlock| b is ToolResult, |b: ContentBlock, w: ChatMessage| tool_message_encodes(b, w)));
        }
        i = i + 1;
    }
    assert(blocks@.subrange(0, blocks@.len() as int) =~= blocks@);
}

// ─── Requests ───────────────────────────────────────────────────────────────

/// `w` is the OpenAI form of the canonical tool definition `t`; `strict`
/// comes from the definition's extra field of that name, when a boolean.
pub open spec fn tool_def_encodes(t: ToolDefinition, w: ChatToolDefinition) -> bool {
    &&& w.tool_type@ == "function"@
    &&& w.function.name@ == t.name@
    &&& w.function.description == t.description
    &&& opt_json_view(w.function.parameters) == opt_json_view(t.input_schema)
    &&& w.function.strict == match json_get(Json::Object(entries_view(t.extra@)), "strict"@) {
        Some(v) => json_as_bool(v),
        None => None,
    }
}

/// `w` is the OpenAI form of the canonical request `req`: the system
/// instruction as a first system message, then the other messages except
/// tool messages, then one `tool` message per tool result.
pub open spec fn request_encodes(req: CanonicalRequest, w: ChatCompletionRequest) -> bool {
    let k0: int = if req.system is Some {
        1
    } else {
        0
    };
    let ms = w.messages@;
    &&& k0 <= ms.len()
    &&& (req.system matches Some(s) ==> system_message_encodes(s, ms[0]))
    &&& k0 + count_emitting(req.messages@, |m: Message| m.role != Role::Tool) <= ms.len()
    &&& filter_mapped(
        req.messages@,
        ms.subrange(k0, k0 + count_emitting(req.messages@, |m: Message| m.role != Role::Tool)),
        |m: Message| m.role != Role::Tool,
        |m: Message, w: ChatMessage| message_encodes(m, w),
    )
    &&& filter_mapped(
        tool_blocks(req.messages@),
        ms.subrange(k0 + count_emitting(req.messages@, |m: Message| m.role != Role::Tool), ms.len() as int),
        |b: ContentBlock| b is ToolResult,
        |b: ContentBlock, w: ChatMessage| tool_message_encodes(b, w),
    )
    &&& w.model@ == req.model@
    &&& w.temperature == req.temperature
    &&& w.top_p == req.top_p
    &&& w.max_tokens == req.max_tokens
    &&& w.stream == req.stream
    &&& if req.stop@.len() == 0 {
        w.stop is None
    } else {
        w.stop matches Some(v) && v@ == req.stop@
    }
    &&& if req.tools@.len() == 0 {
        w.tools is None
    } else {
        w.tools matches Some(ts) && mapped(req.tools@, ts@, |t: ToolDefinition, w: ChatToolDefinition| tool_def_encodes(t, w))
    }
    &&& match req.tool_choice {
        Some(c) => w.tool_choice matches Some(x) && tool_choice_encodes(c, x),
        None => w.tool_choice is None,
    }
    &&& match req.response_format {
        Some(rf) => w.response_format matches Some(x) && x.format_type@ == rf.format_type@
            && opt_json_view(x.json_schema) == opt_json_view(rf.json_schema),
        None => w.response_format is None,
    }
    &&& opt_json_view(w.metadata) == opt_json_view(req.metadata)
    &&& w.extra@.len() == 0
}

/// Encode a canonical request into an OpenAI Chat Completions request.
pub fn encode_request(req: &CanonicalRequest) -> (r: Result<ChatCompletionRequest, ProtocolEngineError>)
    ensures
        r matches Ok(w) && request_encodes(*req, w),
{
    let mut messages: Vec<ChatMessage> = Vec::new();
    match &req.system {
        Some(sys) => {
            let text = encode_system_text(sys);
            messages.push(
                ChatMessage {
                    role: String::from_str("system"),
                    content: Some(JsonValue::String(text)),
                    name: None,
                    tool_calls: None,
                    tool_call_id: None,
                },
            );
        },
        None => {},
    }
    let ghost k0 = messages@.len() as int;
    let ghost first = messages@;

    // Tool messages go last: OpenAI needs a `tool_call_id` on each, which
    // only the tool results carry.
    let mut i: usize = 0;
    assert(req.messages@.subrange(0, 0) =~= Seq::<Message>::empty());
    assert(messages@.subrange(k0, messages@.len() as int) =~= Seq::<ChatMessage>::empty());
    while i < req.messages.len()
        invariant
            i <= req.messages@.len(),
            k0 == if req.system is Some { 1int } else { 0int },
            k0 <= messages@.len(),
            messages@.subrange(0, k0) == first,
            req.system matches Some(s) ==> first.len() == 1 && system_message_encodes(s, first[0]),
            filter_mapped(req.messages@.subrange(0, i as int), messages@.subrange(k0, messages@.len() as int), |m: Message| m.role != Role::Tool, |m: Message, w: ChatMessage| message_encodes(m, w)),
        decreases req.messages@.len() - i,
    {
        let ghost pre = req.messages@.subrange(0, i as int);
        let ghost outs = messages@.subrange(k0, messages@.len() as int);
        proof {
            lemma_prefix_push(req.messages@, i as int);
        }
        let msg = &req.messages[i];
        if msg.role == Role::Tool {
            proof {
                lemma_filter_mapped_push(pre, outs, |m: Message| m.role != Role::Tool, |m: Message, w: ChatMessage| message_encodes(m, w), *msg, arbitrary());
            }
        } else {
            let w = encode_message(msg);
            proof {
                lemma_filter_mapped_push(pre, outs, |m: Message| m.role != Role::Tool, |m: Message, w: ChatMessage| message_encodes(m, w), *msg, w);
            }
            messages.push(w);
            assert(messages@.subrange(k0, messages@.len() as int) =~= outs.push(w));
            assert(messages@.subrange(0, k0) =~= first);
        }
        i = i + 1;
    }
    assert(req.messages@.subrange(0, req.messages@.len() as int) =~= req.messages@);
    let ghost k1 = messages@.len() as int;
    let ghost mid = messages@;

    let mut j: usize = 0;
    assert(req.messages@.subrange(0, 0) =~= Seq::<Message>::empty());
    assert(messages@.subrange(k1, messages@.len() as int) =~= Seq::<ChatMessage>::empty());
    while j < req.messages.len()
        invariant
            j <= req.messages@.len(),
            0 <= k0 <= k1 <= messages@.len(),
            messages@.subrange(0, k1) == mid,
            filter_mapped(tool_blocks(req.messages@.subrange(0, j as int)), messages@.subrange(k1, messages@.len() as int), |b: ContentBlock| b is ToolResult, |b: ContentBlock, w: ChatMessage| tool_message_encodes(b, w)),
        decreases req.messages@.len() - j,
    {
        let ghost pre = req.messages@.subrange(0, j as int);
        proof {
            lemma_prefix_push(req.messages@, j as int);
            assert(req.messages@.subrange(0, j + 1).drop_last() =~= pre);
        }
        let msg = &req.messages[j];
        if msg.role == Role::Tool {
            let ghost before = messages@;
            match &msg.content {
                MessageContent::Text(s) => {
                    let v = vec![ContentBlock::Text(TextContent { text: s.clone() })];
                    assert(v@ =~= spec_blocks_of(msg.content));
                    push_tool_messages(&mut messages, v.as_slice(), Ghost(tool_blocks(pre)), Ghost(k1));
                },
                MessageContent::Blocks(bs) => {
                    push_tool_messages(&mut messages, bs.as_slice(), Ghost(tool_blocks(pre)), Ghost(k1));
                },
            }
            assert(messages@.subrange(0, k1) =~= messages@.subrange(0, k1).subrange(0, k1));
        }
        j = j + 1;
    }
    assert(req.messages@.subrange(0, req.messages@.len() as int) =~= req.messages@);
    assert(messages@.subrange(k0, k1) =~= mid.subrange(k0, k1)) by {
        assert(messages@.subrange(0, k1) == mid);
        assert forall|q: int| 0 <= q < k1 - k0 implies messages@.subrange(k0, k1)[q] == mid.subrange(k0, k1)[q] by {
            assert(messages@.subrange(0, k1)[k0 + q] == messages@[k0 + q]);
        }
    }
    assert(req.system is Some ==> messages@[0] == first[0]) by {
        if req.system is Some {
            assert(messages@.subrange(0, k1)[0] == mid[0]);
            assert(mid.subrange(0, k0)[0] == first[0]);
        }
    }
    proof {
        lemma_filter_mapped_len(req.messages@, messages@.subrange(k0, k1), |m: Message| m.role != Role::Tool, |m: Message, w: ChatMessage| message_encodes(m, w));
    }

    let mut tools: Vec<ChatToolDefinition> = Vec::new();
    let mut t: usize = 0;
    while t < req.tools.len()
        invariant
            t <= req.tools@.len(),
            tools@.len() == t,
            forall|q: int| 0 <= q < t ==> tool_def_encodes(#[trigger] req.tools@[q], tools@[q]),
        decreases req.tools@.len() - t,
    {
        let td = &req.tools[t];
        let strict = match entries_get(&td.extra, "strict") {
            Some(v) => v.as_bool(),
            None => None,
        };
        tools.push(
            ChatToolDefinition {
                tool_type: String::from_str("function"),
                function: ChatFunctionDefinition {
                    name: td.name.clone(),
                    description: clone_opt_string(&td.description),
                    parameters: clone_opt_json(&td.input_schema),
                    strict,
                },
            },
        );
        t = t + 1;
    }

    let response_format = match &req.response_format {
        Some(rf) => Some(
            ChatResponseFormat {
                format_type: rf.format_type.clone(),
                json_schema: clone_opt_json(&rf.json_schema),
            },
        ),
        None => None,
    };

    let w = ChatCompletionRequest {
        model: req.model.clone(),
        messages,
        temperature: clone_opt_string(&req.temperature),
        top_p: clone_opt_string(&req.top_p),
        max_tokens: req.max_tokens,
        stream: req.stream,
        stop: if req.stop.len() == 0 {
            None
        } else {
            Some(clone_strings(&req.stop))
        },
        tools: if tools.len() == 0 {
            None
        } else {
            Some(tools)
        },
        tool_choice: encode_tool_choice(&req.tool_choice),
        response_format,
        metadata: clone_opt_json(&req.metadata),
        extra: Vec::new(),
    };
    assert(filter_mapped(req.messages@, w.messages@.subrange(k0, k1), |m: Message| m.role != Role::Tool, |m: Message, w: ChatMessage| message_encodes(m, w)));
    assert(filter_mapped(tool_blocks(req.messages@), w.messages@.subrange(k1, w.messages@.len() as int), |b: ContentBlock| b is ToolResult, |b: ContentBlock, w: ChatMessage| tool_message_encodes(b, w)));
    Ok(w)
}

// ─── Responses ──────────────────────────────────────────────────────────────

/// The feature named when a block cannot be model output in Chat
/// Completions: images and audio.
pub open spec fn output_error(b: ContentBlock) -> Option<Seq<char>> {
    match b {
        ContentBlock::Image(_) => Some("image_output"@),
        ContentBlock::Audio(_) => Some("audio_output"@),
        _ => None,
    }
}

/// The reason given for a feature that cannot be model output.
pub open spec fn output_error_reason(feature: Seq<char>) -> Seq<char> {
    if feature == "image_output"@ {
        "OpenAI Chat Completions does not support image output"@
    } else {
        "OpenAI Chat Completions does not support audio output"@
    }
}

/// The texts of the text blocks, each after a newline unless the text so
/// far is empty.
pub open spec fn response_text(bs: Seq<ContentBlock>) -> Seq<char>
    decreases bs.len(),
{
    if bs.len() == 0 {
        Seq::empty()
    } else {
        let a = response_text(bs.drop_last());
        match bs.last() {
            ContentBlock::Text(t) => if a.len() == 0 {
                t.text@
            } else {
                a + "\n"@ + t.text@
            },
            _ => a,
        }
    }
}

/// `c` is the response tool call of the tool use block `b`.
pub open spec fn response_call_encodes(b: ContentBlock, c: ChatToolCallResponse) -> bool {
    b matches ContentBlock::ToolUse(tu) && c.id@ == tu.id@ && c.call_type@ == "function"@
        && c.function.name@ == tu.name@ && c.function.arguments@ == spec_json_to_string(tu.input@)
}

/// `w` is the OpenAI form of the canonical response `c` created at
/// `created`: one choice holding the text and the tool calls.
pub open spec fn response_encodes(c: CanonicalResponse, created: u64, w: ChatCompletionResponse) -> bool {
    &&& w.id@ == c.id@
    &&& w.object@ == "chat.completion"@
    &&& w.created == created
    &&& w.model@ == c.model@
    &&& w.choices@.len() == 1
    &&& w.choices@[0].index == 0
    &&& w.choices@[0].message.role@ == "assistant"@
    &&& if response_text(c.content@).len() == 0 {
        w.choices@[0].message.content is None
    } else {
        w.choices@[0].message.content matches Some(t) && t@ == response_text(c.content@)
    }
    &&& match w.choices@[0].message.tool_calls {
        Some(calls) => calls@.len() > 0 && filter_mapped(c.content@, calls@, |b: ContentBlock| b is ToolUse, |b: ContentBlock, t: ChatToolCallResponse| response_call_encodes(b, t)),
        None => filter_mapped(c.content@, Seq::empty(), |b: ContentBlock| b is ToolUse, |b: ContentBlock, t: ChatToolCallResponse| response_call_encodes(b, t)),
    }
    &&& match c.finish_reason {
        Some(f) => w.choices@[0].finish_reason matches Some(s) && s@ == spec_finish_reason_to_openai(f),
        None => w.choices@[0].finish_reason is None,
    }
    &&& w.usage == match c.usage {
        Some(u) => Some(spec_usage_to_chat(u)),
        None => None,
    }
}

/// Encode a canonical response into an OpenAI Chat Completions response.
/// It fails exactly when the content holds an image or audio, naming the
/// first such block's feature.
pub fn encode_response(resp: &CanonicalResponse, created: u64) -> (r: Result<ChatCompletionResponse, ProtocolEngineError>)
    ensures
        match r {
            Ok(w) => first_error(resp.content@, |b: ContentBlock| output_error(b)) is None && response_encodes(*resp, created, w),
            Err(e) => first_error(resp.content@, |b: ContentBlock| output_error(b)) matches Some(f) && (e matches ProtocolEngineError::UnsupportedFeature { feature, reason } && feature@ == f && reason@ == output_error_reason(f)),
        },
{
    let mut text_content = String::new();
    let mut tool_calls: Vec<ChatToolCallResponse> = Vec::new();
    let mut i: usize = 0;
    assert(resp.content@.subrange(0, 0) =~= Seq::<ContentBlock>::empty());
    while i < resp.content.len()
        invariant
            i <= resp.content@.len(),
            first_error(resp.content@.subrange(0, i as int), |b: ContentBlock| output_error(b)) is None,
            text_content@ == response_text(resp.content@.subrange(0, i as int)),
            filter_mapped(resp.content@.subrange(0, i as int), tool_calls@, |b: ContentBlock| b is ToolUse, |b: ContentBlock, t: ChatToolCallResponse| response_call_encodes(b, t)),
        decreases resp.content@.len() - i,
    {
        let ghost pre = resp.content@.subrange(0, i as int);
        proof {
            lemma_prefix_push(resp.content@, i as int);
            assert(resp.content@.subrange(0, i + 1).drop_last() =~= pre);
            lemma_first_error_push(pre, |b: ContentBlock| output_error(b), resp.content@[i as int]);
        }
        match &resp.content[i] {
            ContentBlock::Text(t) => {
                if !text_content.as_str().is_empty() {
                    text_content.append("\n");
                }
                text_content.append(t.text.as_str());
                proof {
                    lemma_filter_mapped_push(pre, tool_calls@, |b: ContentBlock| b is ToolUse, |b: ContentBlock, t: ChatToolCallResponse| response_call_encodes(b, t), resp.content@[i as int], arbitrary());
                }
            },
            ContentBlock::ToolUse(tu) => {
                let c = ChatToolCallResponse {
                    id: tu.id.clone(),
                    call_type: String::from_str("function"),
                    function: ChatFunctionCallResponse { name: tu.name.clone(), arguments: tu.input.to_json_string() },
                };
                proof {
                    lemma_filter_mapped_push(pre, tool_calls@, |b: ContentBlock| b is ToolUse, |b: ContentBlock, t: ChatToolCallResponse| response_call_encodes(b, t), resp.content@[i as int], c);
                }
                tool_calls.push(c);
            },
            ContentBlock::Image(_) => {
                proof {
                    lemma_first_error_prefix(resp.content@, |b: ContentBlock| output_error(b), i as int + 1);
                }
                return Err(
                    ProtocolEngineError::UnsupportedFeature {
                        feature: String::from_str("image_output"),
                        reason: String::from_str("OpenAI Chat Completions does not support image output"),
                    },
                );
            },
            ContentBlock::Audio(_) => {
                proof {
                    lemma_first_error_prefix(resp.content@, |b: ContentBlock| output_error(b), i as int + 1);
                    reveal_strlit("image_output");
                    reveal_strlit("audio_output");
                    assert("image_output"@[0] != "audio_output"@[0]);
                }
                return Err(
                    ProtocolEngineError::UnsupportedFeature {
                        feature: String::from_str("audio_output"),
                        reason: String::from_str("OpenAI Chat Completions does not support audio output"),
                    },
                );
            },
            _ => {
                // Reasoning, tool results and tool references are not
                // model output in Chat Completions.
                proof {
                    lemma_filter_mapped_push(pre, tool_calls@, |b: ContentBlock| b is ToolUse, |b: ContentBlock, t: ChatToolCallResponse| response_call_encodes(b, t), resp.content@[i as int], arbitrary());
                }
            },
        }
        i = i + 1;
    }
    assert(resp.content@.subrange(0, resp.content@.len() as int) =~= resp.content@);
    proof {
        if tool_calls@.len() == 0 {
            assert(tool_calls@ =~= Seq::<ChatToolCallResponse>::empty());
        }
    }

    let finish_reason = match &resp.finish_reason {
        Some(f) => Some(String::from_str(finish_reason_to_openai(f))),
        None => None,
    };
    let message = ChatResponseMessage {
        role: String::from_str("assistant"),
        content: if text_content.as_str().is_empty() {
            None
        } else {
            Some(text_content)
        },
        tool_calls: if tool_calls.len() == 0 {
            None
        } else {
            Some(tool_calls)
        },
    };
    let usage = match &resp.usage {
        Some(u) => Some(usage_to_chat(u)),
        None => None,
    };
    let choices = vec![ChatChoice { index: 0, message, finish_reason }];
    Ok(
        ChatCompletionResponse {
            id: resp.id.clone(),
            object: String::from_str("chat.completion"),
            created,
            model: resp.model.clone(),
            choices,
            usage,
        },
    )
}

// ─── Stream chunks ──────────────────────────────────────────────────────────

/// `c` is a chunk of the response `id` of `model` created at `created`.
pub open spec fn is_chunk_of(c: ChatCompletionChunk, id: Seq<char>, model: Seq<char>, created: u64) -> bool {
    c.id@ == id && c.object@ == "chat.completion.chunk"@ && c.created == created && c.model@ == model
}

/// `c` has a single choice at index 0 with the given delta fields.
pub open spec fn single_delta(c: ChatCompletionChunk, role: Option<Seq<char>>, content: Option<Seq<char>>, finish: Option<Seq<char>>) -> bool {
    &&& c.choices@.len() == 1
    &&& c.choices@[0].index == 0
    &&& crate::text::opt_view(c.choices@[0].delta.role) == role
    &&& crate::text::opt_view(c.choices@[0].delta.content) == content
    &&& crate::text::opt_view(c.choices@[0].finish_reason) == finish
}

/// `out` is the Chat Completions chunk for the canonical event `e`, or none
/// when `e` has no equivalent. An error event has no chunk: it is an error.
pub open spec fn stream_event_encodes(
    e: CanonicalStreamEvent,
    id: Seq<char>,
    model: Seq<char>,
    created: u64,
    out: Option<ChatCompletionChunk>,
) -> bool {
    match e {
        CanonicalStreamEvent::MessageStart { .. } => out matches Some(c) && is_chunk_of(c, id, model, created)
            && single_delta(c, Some("assistant"@), None, None) && c.choices@[0].delta.tool_calls is None
            && c.usage is None,
        CanonicalStreamEvent::ContentBlockStart { content_block, .. } => match content_block {
            ContentBlock::ToolUse(tu) => out matches Some(c) && is_chunk_of(c, id, model, created)
                && single_delta(c, None, None, None) && c.usage is None && (c.choices@[0].delta.tool_calls matches Some(tcs) && tcs@.len() == 1
                && tcs@[0].index == 0 && tcs@[0].id == Some(tu.id) && crate::text::opt_view(tcs@[0].call_type) == Some("function"@)
                && (tcs@[0].function matches Some(f) && f.name == Some(tu.name) && f.arguments is None)),
            _ => out is None,
        },
        CanonicalStreamEvent::TextDelta { text, .. } => out matches Some(c) && is_chunk_of(c, id, model, created)
            && single_delta(c, None, Some(text@), None) && c.choices@[0].delta.tool_calls is None && c.usage is None,
        CanonicalStreamEvent::ToolCallDelta { index, tool_use_id, name, input_json_delta } => out matches Some(c)
            && is_chunk_of(c, id, model, created) && single_delta(c, None, None, None) && c.usage is None
            && (c.choices@[0].delta.tool_calls matches Some(tcs) && tcs@.len() == 1 && tcs@[0].index == index as u32
            && tcs@[0].id == tool_use_id && crate::text::opt_view(tcs@[0].call_type) == Some("function"@)
            && (tcs@[0].function matches Some(f) && f.name == name && f.arguments == input_json_delta)),
        CanonicalStreamEvent::MessageDelta { stop_reason, usage } => out matches Some(c) && is_chunk_of(c, id, model, created)
            && single_delta(c, None, None, match stop_reason {
                Some(f) => Some(spec_finish_reason_to_openai(f)),
                None => None,
            }) && c.choices@[0].delta.tool_calls is None && c.usage == match usage {
                Some(u) => Some(spec_usage_to_chat(u)),
                None => None,
            },
        CanonicalStreamEvent::Usage { usage } => out matches Some(c) && is_chunk_of(c, id, model, created)
            && c.choices@.len() == 0 && c.usage == Some(spec_usage_to_chat(usage)),
        _ => out is None,
    }
}

fn chunk(id: &str, model: &str, created: u64, choices: Vec<ChatChunkChoice>, usage: Option<ChatUsage>) -> (c: ChatCompletionChunk)
    ensures
        is_chunk_of(c, id@, model@, created),
        c.choices == choices,
        c.usage == usage,
{
    ChatCompletionChunk {
        id: String::from_str(id),
        object: String::from_str("chat.completion.chunk"),
        created,
        model: String::from_str(model),
        choices,
        usage,
    }
}

fn delta_choice(role: Option<String>, content: Option<String>, tool_calls: Option<Vec<ChatDeltaToolCall>>, finish_reason: Option<String>) -> (v: Vec<ChatChunkChoice>)
    ensures
        v@.len() == 1,
        v@[0].index == 0,
        v@[0].delta.role == role,
        v@[0].delta.content == content,
        v@[0].delta.tool_calls == tool_calls,
        v@[0].finish_reason == finish_reason,
{
    vec![ChatChunkChoice { index: 0, delta: ChatDelta { role, content, tool_calls }, finish_reason }]
}

/// Translate a canonical stream event to an OpenAI Chat Completions chunk;
/// none for events without an equivalent. An error event is returned as a
/// provider error.
pub fn encode_stream_event(event: &CanonicalStreamEvent, response_id: &str, model: &str, created: u64) -> (r: Result<Option<ChatCompletionChunk>, ProtocolEngineError>)
    ensures
        match *event {
            CanonicalStreamEvent::Error { message, .. } => r matches Err(e) && (e matches ProtocolEngineError::ProviderError { message: m, status: None } && m@ == message@),
            _ => r matches Ok(out) && stream_event_encodes(*event, response_id@, model@, created, out),
        },
{
    match event {
        CanonicalStreamEvent::MessageStart { .. } => {
            let choices = delta_choice(Some(String::from_str("assistant")), None, None, None);
            Ok(Some(chunk(response_id, model, created, choices, None)))
        },
        CanonicalStreamEvent::ContentBlockStart { content_block, .. } => match content_block {
            ContentBlock::ToolUse(tu) => {
                let tc = ChatDeltaToolCall {
                    index: 0,
                    id: Some(tu.id.clone()),
                    call_type: Some(String::from_str("function")),
                    function: Some(ChatDeltaFunction { name: Some(tu.name.clone()), arguments: None }),
                };
                let choices = delta_choice(None, None, Some(vec![tc]), None);
                Ok(Some(chunk(response_id, model, created, choices, None)))
            },
            _ => Ok(None),
        },
        CanonicalStreamEvent::TextDelta { text, .. } => {
            let choices = delta_choice(None, Some(text.clone()), None, None);
            Ok(Some(chunk(response_id, model, created, choices, None)))
        },
        CanonicalStreamEvent::ToolCallDelta { index, tool_use_id, name, input_json_delta } => {
            let tc = ChatDeltaToolCall {
                index: *index as u32,
                id: clone_opt_string(tool_use_id),
                call_type: Some(String::from_str("function")),
                function: Some(
                    ChatDeltaFunction {
                        name: clone_opt_string(name),
                        arguments: clone_opt_string(input_json_delta),
                    },
                ),
            };
            let choices = delta_choice(None, None, Some(vec![tc]), None);
            Ok(Some(chunk(response_id, model, created, choices, None)))
        },
        CanonicalStreamEvent::ContentBlockStop { .. } => Ok(None),
        CanonicalStreamEvent::MessageDelta { stop_reason, usage } => {
            let finish_reason = match stop_reason {
                Some(f) => Some(String::from_str(finish_reason_to_openai(f))),
                None => None,
            };
            let chat_usage = match usage {
                Some(u) => Some(usage_to_chat(u)),
                None => None,
            };
            let choices = delta_choice(None, None, None, finish_reason);
            Ok(Some(chunk(response_id, model, created, choices, chat_usage)))
        },
        CanonicalStreamEvent::Usage { usage } => {
            Ok(Some(chunk(response_id, model, created, Vec::new(), Some(usage_to_chat(usage)))))
        },
        CanonicalStreamEvent::AudioDelta { .. } => Ok(None),
        CanonicalStreamEvent::ReasoningDelta { .. } => Ok(None),
        CanonicalStreamEvent::ReasoningSignature { .. } => Ok(None),
        CanonicalStreamEvent::MessageStop => Ok(None),
        CanonicalStreamEvent::Error { message, .. } => Err(ProtocolEngineError::ProviderError { message: message.clone(), status: None }),
        CanonicalStreamEvent::Ping => Ok(None),
    }
}

// ─── Laws ───────────────────────────────────────────────────────────────────

/// A tool choice survives a trip through OpenAI Chat Completions.
pub proof fn tool_choice_round_trip(c: ToolChoice, w: ChatToolChoice, d: ToolChoice)
    requires
        tool_choice_encodes(c, w),
        super::decode::tool_choice_decodes(w, d),
    ensures
        match c {
            ToolChoice::Named { name } => d matches ToolChoice::Named { name: n } && n@ == name@,
            _ => d == c,
        },
{
    reveal_strlit("auto");
    reveal_strlit("required");
    reveal_strlit("none");
    assert("auto"@.len() == 4 && "required"@.len() == 8 && "none"@.len() == 4);
    assert("auto"@[0] != "none"@[0]);
}

/// The finish reasons that OpenAI names come back unchanged; the others
/// come back as `stop`.
pub proof fn finish_reason_round_trip(r: FinishReason, d: FinishReason)
    requires
        super::decode::finish_reason_decodes(spec_finish_reason_to_openai(r), d),
    ensures
        (r is Stop || r is Length || r is ToolCalls || r is ContentFilter) ==> d == r,
        (r is StopSequence || r is Error || r is Other) ==> d is Stop,
{
    reveal_strlit("stop");
    reveal_strlit("length");
    reveal_strlit("tool_calls");
    reveal_strlit("content_filter");
    assert("stop"@.len() == 4 && "length"@.len() == 6 && "tool_calls"@.len() == 10 && "content_filter"@.len() == 14);
}

/// In an encoded request, the system message (if any) comes first, then
/// one message per non-tool message, none of which names a tool call, then
/// one `tool` message per tool result of the tool messages, each naming the
/// call it answers.
pub proof fn tool_messages_come_last(req: CanonicalRequest, w: ChatCompletionRequest)
    requires
        request_encodes(req, w),
    ensures
        ({
            let k0: int = if req.system is Some { 1 } else { 0 };
            let n = count_emitting(req.messages@, |m: Message| m.role != Role::Tool);
            let t = count_emitting(tool_blocks(req.messages@), |b: ContentBlock| b is ToolResult);
            &&& w.messages@.len() == k0 + n + t
            &&& forall|j: int| k0 <= j < k0 + n ==> (#[trigger] w.messages@[j]).tool_call_id is None
                && w.messages@[j].role@ != "tool"@
            &&& forall|j: int| k0 + n <= j < w.messages@.len() ==> (#[trigger] w.messages@[j]).role@ == "tool"@
                && w.messages@[j].tool_call_id is Some
        }),
{
    let k0: int = if req.system is Some { 1 } else { 0 };
    let ms = w.messages@;
    let n = count_emitting(req.messages@, |m: Message| m.role != Role::Tool);
    let front = ms.subrange(k0, k0 + n);
    let back = ms.subrange(k0 + n, ms.len() as int);
    let nontool = |m: Message| m.role != Role::Tool;
    let is_result = |b: ContentBlock| b is ToolResult;
    let enc = |m: Message, w: ChatMessage| message_encodes(m, w);
    let tenc = |b: ContentBlock, w: ChatMessage| tool_message_encodes(b, w);
    crate::adapters::lemma_count_emitting_bounds(req.messages@, nontool);
    assert(k0 + n <= ms.len());
    crate::adapters::lemma_filter_mapped_len(tool_blocks(req.messages@), back, is_result, tenc);
    assert forall|j: int| k0 <= j < k0 + n implies (#[trigger] ms[j]).tool_call_id is None && ms[j].role@ != "tool"@ by {
        let i = crate::adapters::lemma_filter_mapped_outputs(req.messages@, front, nontool, enc, j - k0);
        assert(front[j - k0] == ms[j]);
        let r = req.messages@[i].role;
        reveal_strlit("tool");
        reveal_strlit("user");
        reveal_strlit("assistant");
        reveal_strlit("system");
        assert(role_name(r) != "tool"@) by {
            match r {
                Role::User => assert(role_name(r)[0] != "tool"@[0]),
                Role::Assistant => assert(role_name(r)[0] != "tool"@[0]),
                Role::System => assert(role_name(r)[0] != "tool"@[0]),
                Role::Tool => {},
            }
        }
    }
    assert forall|j: int| k0 + n <= j < ms.len() implies (#[trigger] ms[j]).role@ == "tool"@ && ms[j].tool_call_id is Some by {
        let i = crate::adapters::lemma_filter_mapped_outputs(tool_blocks(req.messages@), back, is_result, tenc, j - (k0 + n));
        assert(back[j - (k0 + n)] == ms[j]);
    }
}

/// A request that the encoder builds decodes without error, provided each
/// system-role message among its messages has some text: such a message
/// travels as a `system` message, which must carry text.
pub proof fn encoded_request_decodes(req: CanonicalRequest, w: ChatCompletionRequest)
    requires
        request_encodes(req, w),
        forall|i: int| 0 <= i < req.messages@.len() && (#[trigger] req.messages@[i]).role == Role::System
            ==> spec_block_texts(spec_blocks_of(req.messages@[i].content)).len() > 0,
    ensures
        first_error(w.messages@, |m: ChatMessage| crate::adapters::openai_chat::decode::message_error(m)) is None,
{
    let k0: int = if req.system is Some { 1 } else { 0 };
    let ms = w.messages@;
    let nontool = |m: Message| m.role != Role::Tool;
    let n = count_emitting(req.messages@, nontool);
    let front = ms.subrange(k0, k0 + n);
    let back = ms.subrange(k0 + n, ms.len() as int);
    let is_result = |b: ContentBlock| b is ToolResult;
    let enc = |m: Message, w: ChatMessage| message_encodes(m, w);
    let tenc = |b: ContentBlock, w: ChatMessage| tool_message_encodes(b, w);
    let err = |m: ChatMessage| crate::adapters::openai_chat::decode::message_error(m);
    crate::adapters::lemma_count_emitting_bounds(req.messages@, nontool);
    reveal_strlit("tool");
    reveal_strlit("user");
    reveal_strlit("assistant");
    reveal_strlit("system");
    reveal_strlit("developer");
    assert forall|k: int| 0 <= k < ms.len() implies (#[trigger] err(ms[k])) is None by {
        if k < k0 {
            assert(crate::adapters::openai_chat::decode::is_system_role(ms[k].role@));
        } else if k < k0 + n {
            let i = crate::adapters::lemma_filter_mapped_outputs(req.messages@, front, nontool, enc, k - k0);
            assert(front[k - k0] == ms[k]);
            let m = req.messages@[i];
            match m.role {
                Role::System => {
                    assert(crate::adapters::openai_chat::decode::is_system_role(ms[k].role@));
                },
                Role::User => {
                    assert(ms[k].role@[0] != "system"@[0] && ms[k].role@[0] != "developer"@[0] && ms[k].role@[0] != "tool"@[0]);
                },
                Role::Assistant => {
                    assert(ms[k].role@[0] != "system"@[0] && ms[k].role@[0] != "developer"@[0] && ms[k].role@[0] != "tool"@[0]);
                },
                Role::Tool => {},
            }
        } else {
            let i = crate::adapters::lemma_filter_mapped_outputs(tool_blocks(req.messages@), back, is_result, tenc, k - (k0 + n));
            assert(back[k - (k0 + n)] == ms[k]);
            assert(ms[k].role@[0] != "system"@[0] && ms[k].role@[0] != "developer"@[0]);
        }
    }
    crate::adapters::lemma_first_error_none(ms, err);
}

/// A streamed reply and a complete one say the same about why they ended:
/// the chunk written for a message delta carries the finish reason that the
/// complete response with that end reason carries, and none when the delta
/// has none.
pub proof fn stream_and_response_agree_on_finish(
    stop_reason: Option<FinishReason>,
    usage: Option<Usage>,
    id: Seq<char>,
    model: Seq<char>,
    created: u64,
    out: Option<ChatCompletionChunk>,
    resp: CanonicalResponse,
    resp_created: u64,
    w: ChatCompletionResponse,
)
    requires
        stream_event_encodes(CanonicalStreamEvent::MessageDelta { stop_reason, usage }, id, model, created, out),
        response_encodes(resp, resp_created, w),
        resp.finish_reason == stop_reason,
    ensures
        out matches Some(c) && c.choices@.len() == 1 && crate::text::opt_view(c.choices@[0].finish_reason)
            == crate::text::opt_view(w.choices@[0].finish_reason),
        stop_reason is None ==> (out matches Some(c) && c.choices@[0].finish_reason is None),
        stop_reason is Some ==> (out matches Some(c) && c.choices@[0].finish_reason is Some),
{
}

} // verus!
