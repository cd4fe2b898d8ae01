//! The mock LLM upstream's configuration and SSE body generator.
//!
//! The mock serves OpenAI-style SSE chunks (`data: ...` lines) or a single
//! JSON body; the server itself is part of the application.

use vstd::prelude::*;
use vstd::utf8::encode_utf8;
use core::time::Duration;
use crate::error::status_from_code;
use crate::sse::{parse_u64, spec_parse_u64};
use crate::text::{push_char, spec_decimal, str_chars, write_decimal};
use crate::workflow::extension::{duration_from_secs, spec_duration_from_secs};

verus! {

/// `Duration::clone`: a duration is a plain value, and its clone is equal to
/// it.
pub assume_specification[ <Duration as Clone>::clone ](d: &Duration) -> (r: Duration)
    ensures
        r == *d,
;

/// Mode of a mock endpoint.
#[derive(Debug, Clone, Copy, PartialEq, Eq, Structural)]
pub enum MockMode {
    /// Single-shot JSON response with Content-Length.
    Json,
    /// Streaming SSE response with chunked transfer encoding.
    Sse,
}

/// Configuration for the mock upstream.
#[derive(Debug, Clone)]
pub struct MockConfig {
    pub mode: MockMode,
    /// Number of SSE chunks to emit (SSE mode, when `raw_sse` is none).
    pub chunks: usize,
    /// Bytes per chunk (SSE mode, when `raw_sse` is none).
    pub chunk_size: usize,
    /// Artificial delay before the response headers.
    pub ttfb: Duration,
    /// Delay between chunks (SSE mode).
    pub chunk_delay: Duration,
    /// JSON response body for non-streaming mode.
    pub json_body: String,
    /// Status code of a non-streaming response; 200 when unset or not a
    /// valid status code. An error status replaces the body with an error
    /// body.
    pub json_status: Option<u16>,
    /// Raw SSE data lines for streaming mode, emitted in order as
    /// `data: <line>\n\n`; they take precedence over `chunks`.
    pub raw_sse: Option<Vec<String>>,
}

impl Default for MockConfig {
    /// SSE mode, ten chunks of 512 bytes, no delays, and a small JSON body.
    fn default() -> (c: Self)
        ensures
            c.mode == MockMode::Sse,
            c.chunks == 10,
            c.chunk_size == 512,
            c.ttfb == spec_duration_from_secs(0),
            c.chunk_delay == spec_duration_from_secs(0),
            c.json_body@ == "{\"ok\":true,\"result\":\"hello\"}"@,
            c.json_status is None,
            c.raw_sse is None,
    {
        MockConfig {
            mode: MockMode::Sse,
            chunks: 10,
            chunk_size: 512,
            ttfb: duration_from_secs(0),
            chunk_delay: duration_from_secs(0),
            json_body: String::from_str("{\"ok\":true,\"result\":\"hello\"}"),
            json_status: None,
            raw_sse: None,
        }
    }
}

/// Configuration for a single SSE response.
#[derive(Debug, Clone)]
pub struct SseConfig {
    /// Number of SSE `data:` chunks to emit.
    pub chunks: usize,
    /// Approximate bytes per `data:` chunk.
    pub chunk_size: usize,
    /// Delay between chunks.
    pub chunk_delay: Duration,
    /// If set, fail (drop the connection) after this many chunks.
    pub error_at: Option<usize>,
    /// Status code to use for a well-formed error response.
    pub error_status: u16,
}

impl Default for SseConfig {
    /// Ten chunks of 512 bytes, no delay, no error, error status 500.
    fn default() -> (c: Self)
        ensures
            c.chunks == 10,
            c.chunk_size == 512,
            c.chunk_delay == spec_duration_from_secs(0),
            c.error_at is None,
            c.error_status == 500,
    {
        SseConfig {
            chunks: 10,
            chunk_size: 512,
            chunk_delay: duration_from_secs(0),
            error_at: None,
            error_status: 500,
        }
    }
}

/// A single SSE event: a data line and an optional blank line after it.
#[derive(Debug, Clone)]
pub struct SseEvent {
    pub data: String,
    pub final_newline: bool,
}

/// The bytes of `data: `.
pub open spec fn data_prefix() -> Seq<u8> {
    seq![100u8, 97u8, 116u8, 97u8, 58u8, 32u8]
}

/// The wire form of an event: `data: <payload>\n`, and one more newline
/// when the event ends with a blank line.
pub open spec fn spec_wire(data: Seq<char>, final_newline: bool) -> Seq<u8> {
    data_prefix() + encode_utf8(data) + seq![10u8] + if final_newline {
        seq![10u8]
    } else {
        Seq::empty()
    }
}

impl SseEvent {
    /// Render the event to wire format: `data: <payload>\n\n`.
    pub fn to_wire(&self) -> (out: Vec<u8>)
        ensures
            out@ == spec_wire(self.data@, self.final_newline),
    {
        let mut out: Vec<u8> = Vec::new();
        out.push(100u8);
        out.push(97u8);
        out.push(116u8);
        out.push(97u8);
        out.push(58u8);
        out.push(32u8);
        let bytes = self.data.as_str().as_bytes();
        let mut i: usize = 0;
        let ghost start = out@;
        assert(start =~= data_prefix());
        while i < bytes.len()
            invariant
                i <= bytes@.len(),
                bytes@ == encode_utf8(self.data@),
                out@ == start + bytes@.subrange(0, i as int),
            decreases bytes@.len() - i,
        {
            out.push(bytes[i]);
            assert(out@ =~= start + bytes@.subrange(0, i + 1));
            i = i + 1;
        }
        assert(bytes@.subrange(0, bytes@.len() as int) =~= bytes@);
        out.push(10u8);
        if self.final_newline {
            out.push(10u8);
        }
        assert(out@ =~= spec_wire(self.data@, self.final_newline));
        out
    }
}

/// The filler payload: `mock-stream-data-filler-` repeated, cut to `n`
/// characters.
pub open spec fn spec_filler(n: nat) -> Seq<char> {
    Seq::new(n, |k: int| "mock-stream-data-filler-"@[k % 24])
}

/// The data line of chunk `i` of `size` bytes.
pub open spec fn spec_chunk_data(i: nat, size: nat) -> Seq<char> {
    "{\"id\":\"chunk-"@ + spec_decimal(i) + "\",\"chunk_bytes\":"@ + spec_decimal(size)
        + ",\"payload\":\""@ + spec_filler(size) + "\"}"@
}

/// Build the SSE events of a streaming response: `chunks` events, each a
/// JSON object with its chunk number, size and a filler payload of
/// `chunk_size` bytes.
pub fn build_sse_events(config: &SseConfig) -> (events: Vec<SseEvent>)
    ensures
        events@.len() == config.chunks,
        forall|i: int|
            0 <= i < events@.len() ==> (#[trigger] events@[i]).data@ == spec_chunk_data(
                i as nat,
                config.chunk_size as nat,
            ) && events@[i].final_newline,
{
    let filler_chars = crate::text::str_chars("mock-stream-data-filler-");
    proof {
        reveal_strlit("mock-stream-data-filler-");
    }
    assert(filler_chars@.len() == 24);
    let mut filler = String::new();
    let mut k: usize = 0;
    while k < config.chunk_size
        invariant
            k <= config.chunk_size,
            filler_chars@ == "mock-stream-data-filler-"@,
            filler_chars@.len() == 24,
            filler@ == spec_filler(k as nat),
        decreases config.chunk_size - k,
    {
        push_char(&mut filler, filler_chars[k % 24]);
        assert(filler@ =~= spec_filler((k + 1) as nat));
        k = k + 1;
    }
    let mut events: Vec<SseEvent> = Vec::new();
    let mut i: usize = 0;
    while i < config.chunks
        invariant
            i <= config.chunks,
            filler@ == spec_filler(config.chunk_size as nat),
            events@.len() == i,
            forall|q: int|
                0 <= q < i ==> (#[trigger] events@[q]).data@ == spec_chunk_data(
                    q as nat,
                    config.chunk_size as nat,
                ) && events@[q].final_newline,
        decreases config.chunks - i,
    {
        let mut data = String::from_str("{\"id\":\"chunk-");
        write_decimal(&mut data, i as u64);
        data.append("\",\"chunk_bytes\":");
        write_decimal(&mut data, config.chunk_size as u64);
        data.append(",\"payload\":\"");
        data.append(filler.as_str());
        data.append("\"}");
        assert(data@ =~= spec_chunk_data(i as nat, config.chunk_size as nat));
        events.push(SseEvent { data, final_newline: true });
        i = i + 1;
    }
    events
}

/// A status code, or `fallback` where `code` is not a valid one.
pub open spec fn valid_status_or(code: u16, fallback: u16) -> u16 {
    if 100 <= code <= 999 {
        code
    } else {
        fallback
    }
}

/// The status of a non-streaming response.
pub open spec fn json_reply_status(s: Option<u16>) -> u16 {
    match s {
        Some(c) => valid_status_or(c, 200),
        None => 200,
    }
}

/// The body of a rate-limited response.
pub open spec fn rate_limit_body() -> Seq<char> {
    "{\"error\":{\"message\":\"rate limit exceeded\",\"type\":\"rate_limit_error\"}}"@
}

/// The body of a non-streaming response with the status `status`: the
/// rate-limit body for 429, a generic error body naming any other client
/// or server error status, and the configured body otherwise.
pub open spec fn json_reply_body(status: u16, body: Seq<char>) -> Seq<char> {
    if status == 429 {
        rate_limit_body()
    } else if 400 <= status < 600 {
        "{\"error\":{\"message\":\"upstream error\",\"type\":\"upstream_error\",\"status\":"@ + spec_decimal(
            status as nat,
        ) + "}}"@
    } else {
        body
    }
}

/// The status and body of a non-streaming response.
pub fn json_reply(config: &MockConfig) -> (r: (u16, String))
    ensures
        r.0 == json_reply_status(config.json_status),
        r.1@ == json_reply_body(r.0, config.json_body@),
{
    let status: u16 = match config.json_status {
        Some(c) => match status_from_code(c) {
            Some(_) => c,
            None => 200,
        },
        None => 200,
    };
    if status == 429 {
        (status, String::from_str("{\"error\":{\"message\":\"rate limit exceeded\",\"type\":\"rate_limit_error\"}}"))
    } else if 400 <= status && status < 600 {
        let mut body = String::from_str("{\"error\":{\"message\":\"upstream error\",\"type\":\"upstream_error\",\"status\":");
        write_decimal(&mut body, status as u64);
        body.append("}}");
        (status, body)
    } else {
        (status, config.json_body.clone())
    }
}

/// The fixed Messages API response of the mock.
pub open spec fn default_messages_body() -> Seq<char> {
    "{\"content\":[{\"text\":\"Hello from Anthropic mock!\",\"type\":\"text\"}],\"id\":\"msg_mock_123\",\"model\":\"sonnet-3-mock\",\"role\":\"assistant\",\"stop_reason\":\"end_turn\",\"stop_sequence\":null,\"type\":\"message\",\"usage\":{\"input_tokens\":10,\"output_tokens\":5}}"@
}

/// The body of a Messages API response: the configured body, or a fixed
/// response when none is configured.
pub fn messages_body(config: &MockConfig) -> (b: String)
    ensures
        b@ == if config.json_body@.len() > 0 {
            config.json_body@
        } else {
            default_messages_body()
        },
{
    if config.json_body.as_str().unicode_len() > 0 {
        config.json_body.clone()
    } else {
        String::from_str("{\"content\":[{\"text\":\"Hello from Anthropic mock!\",\"type\":\"text\"}],\"id\":\"msg_mock_123\",\"model\":\"sonnet-3-mock\",\"role\":\"assistant\",\"stop_reason\":\"end_turn\",\"stop_sequence\":null,\"type\":\"message\",\"usage\":{\"input_tokens\":10,\"output_tokens\":5}}")
    }
}

/// `s` read as an unsigned number of at most `max`: an optional `+` and
/// decimal digits.
pub open spec fn parse_bounded(s: Seq<char>, max: u64) -> Option<u64> {
    match spec_parse_u64(s) {
        Some(v) => if v <= max {
            Some(v)
        } else {
            None
        },
        None => None,
    }
}

/// `s` read as an unsigned number of at most `max`.
fn parse_header_number(s: &str, max: u64) -> (r: Option<u64>)
    ensures
        r == parse_bounded(s@, max),
{
    let cs = str_chars(s);
    match parse_u64(cs.as_slice()) {
        Some(v) => if v <= max {
            Some(v)
        } else {
            None
        },
        None => None,
    }
}

/// The SSE configuration of a request: the mock's chunks and delay, with
/// the error point and status that the request's `x-mock-error-at` and
/// `x-mock-error-status` headers ask for (status 500 where the latter is
/// absent or no number).
pub fn sse_config_for(config: &MockConfig, error_at: Option<&str>, error_status: Option<&str>) -> (c: SseConfig)
    ensures
        c.chunks == config.chunks,
        c.chunk_size == config.chunk_size,
        c.chunk_delay == config.chunk_delay,
        c.error_at == match error_at {
            Some(h) => match parse_bounded(h@, usize::MAX as u64) {
                Some(v) => Some(v as usize),
                None => None,
            },
            None => None,
        },
        c.error_status == match error_status {
            Some(h) => match parse_bounded(h@, 65535) {
                Some(v) => v as u16,
                None => 500,
            },
            None => 500,
        },
{
    let at: Option<usize> = match error_at {
        Some(h) => match parse_header_number(h, usize::MAX as u64) {
            Some(v) => Some(v as usize),
            None => None,
        },
        None => None,
    };
    let status: u16 = match error_status {
        Some(h) => match parse_header_number(h, 65535) {
            Some(v) => v as u16,
            None => 500,
        },
        None => 500,
    };
    SseConfig {
        chunks: config.chunks,
        chunk_size: config.chunk_size,
        chunk_delay: config.chunk_delay.clone(),
        error_at: at,
        error_status: status,
    }
}

/// The response to a streaming request.
#[derive(Debug)]
pub enum SseReply {
    /// A well-formed error response, sent before any chunk.
    Failure { status: u16, message: String },
    /// A `200 text/event-stream` response: these events, with the delay
    /// before each; the connection drops after the last.
    Stream { events: Vec<SseEvent>, delay: Duration },
}

/// How many chunks a streaming response sends before it ends or drops.
pub open spec fn streamed_count(config: SseConfig) -> nat {
    match config.error_at {
        Some(limit) => if limit < config.chunks {
            limit as nat
        } else {
            config.chunks as nat
        },
        None => config.chunks as nat,
    }
}

/// The response to a streaming request: an error response with the
/// configured status (500 where it is no valid status) when the error
/// point comes before the first chunk; else the chunks up to the error
/// point.
pub fn sse_reply(config: &SseConfig) -> (r: SseReply)
    ensures
        config.error_at == Some(0usize) ==> (r matches SseReply::Failure { status, message }
            && status == valid_status_or(config.error_status, 500) && message@ == "mock error response"@),
        config.error_at != Some(0usize) ==> (r matches SseReply::Stream { events, delay } && delay == config.chunk_delay
            && events@.len() == streamed_count(*config) && forall|i: int|
            0 <= i < events@.len() ==> (#[trigger] events@[i]).data@ == spec_chunk_data(i as nat, config.chunk_size as nat)
                && events@[i].final_newline),
{
    if config.error_at == Some(0usize) {
        let status: u16 = match status_from_code(config.error_status) {
            Some(_) => config.error_status,
            None => 500,
        };
        return SseReply::Failure { status, message: String::from_str("mock error response") };
    }
    let all = build_sse_events(config);
    let count: usize = match config.error_at {
        Some(limit) => if limit < config.chunks {
            limit
        } else {
            config.chunks
        },
        None => config.chunks,
    };
    let mut events: Vec<SseEvent> = Vec::new();
    let mut i: usize = 0;
    while i < count
        invariant
            count <= all@.len(),
            i <= count,
            all@.len() == config.chunks,
            events@.len() == i,
            forall|q: int| 0 <= q < i ==> #[trigger] events@[q] == all@[q],
        decreases count - i,
    {
        events.push(SseEvent { data: all[i].data.clone(), final_newline: all[i].final_newline });
        i = i + 1;
    }
    SseReply::Stream { events, delay: config.chunk_delay.clone() }
}

/// The events of a raw SSE response: one per configured line, each ending
/// with a blank line.
pub fn raw_sse_events(raw: &Vec<String>) -> (events: Vec<SseEvent>)
    ensures
        events@.len() == raw@.len(),
        forall|i: int| 0 <= i < raw@.len() ==> (#[trigger] events@[i]).data == raw@[i] && events@[i].final_newline,
{
    let mut events: Vec<SseEvent> = Vec::new();
    let mut i: usize = 0;
    while i < raw.len()
        invariant
            i <= raw@.len(),
            events@.len() == i,
            forall|q: int| 0 <= q < i ==> (#[trigger] events@[q]).data == raw@[q] && events@[q].final_newline,
        decreases raw@.len() - i,
    {
        events.push(SseEvent { data: raw[i].clone(), final_newline: true });
        i = i + 1;
    }
    events
}

/// The response mode a name selects: `json` or `sse`; any other name is
/// refused.
pub fn mock_mode_named(name: &str) -> (r: Result<MockMode, String>)
    ensures
        name@ == "json"@ ==> r == Ok::<MockMode, String>(MockMode::Json),
        name@ == "sse"@ ==> r == Ok::<MockMode, String>(MockMode::Sse),
        name@ != "json"@ && name@ != "sse"@ ==> (r matches Err(m) && m@ == "unknown mode '"@ + name@
            + "' (expected 'sse' or 'json')"@),
{
    proof {
        reveal_strlit("json");
        reveal_strlit("sse");
        assert("json"@.len() != "sse"@.len());
    }
    if crate::json::str_eq(name, "json") {
        Ok(MockMode::Json)
    } else if crate::json::str_eq(name, "sse") {
        Ok(MockMode::Sse)
    } else {
        let mut m = String::from_str("unknown mode '");
        m.append(name);
        m.append("' (expected 'sse' or 'json')");
        Err(m)
    }
}

} // verus!
