//! Custom node extensions, executed out of process by a worker.
//!
//! Requests and responses travel as single JSON messages, each preceded by a
//! 4-byte big-endian length:
//!
//! ```text
//! [len u32 BE][json body]
//! ```
//!
//! This module holds the framing rules and the interpretation of a worker's
//! reply; the socket I/O itself lives with the application.

use vstd::prelude::*;
use core::time::Duration;
use std::path::{Path, PathBuf};
use crate::json::{Json, JsonValue};
use crate::workflow::error::{ExtensionError, NodeError};
use crate::workflow::nodes::{NodeInput, NodeOutput, RuntimeValue, from_json_rel, spec_to_json};
use crate::workflow::schema::CustomConfig;
use crate::text::{spec_decimal, write_decimal};

verus! {

#[verifier::external_type_specification]
#[verifier::external_body]
pub struct ExPathBuf(PathBuf);

#[verifier::external_type_specification]
#[verifier::external_body]
pub struct ExPath(Path);

/// Snapshot-level extension metadata (kind + version).
#[derive(Debug, Clone)]
pub struct ExtensionSpecSnapshot {
    /// The extension kind identifier.
    pub kind: String,
    /// Version of this extension.
    pub version: u64,
}

/// Default per-call timeout for worker RPC, in seconds.
pub const DEFAULT_RPC_TIMEOUT_SECS: u64 = 30;

/// Maximum response frame size (64 MiB).
pub const MAX_RESPONSE_FRAME: usize = 67108864;

/// `Duration::from_secs`: its result is named by `spec_duration_from_secs`.
#[verifier::external_body]
pub(crate) fn duration_from_secs(secs: u64) -> (d: Duration)
    ensures
        d == spec_duration_from_secs(secs),
{
    Duration::from_secs(secs)
}

/// The duration of `secs` whole seconds.
pub uninterp spec fn spec_duration_from_secs(secs: u64) -> Duration;

/// The path that `PathBuf::as_path` borrows from `p`.
pub uninterp spec fn spec_as_path(p: PathBuf) -> &'static Path;

/// `PathBuf::as_path`: the path it borrows depends on `p` alone and is
/// named by `spec_as_path`.
#[verifier::external_body]
fn path_of(p: &PathBuf) -> (r: &Path)
    ensures
        r == spec_as_path(*p),
{
    p.as_path()
}

/// An extension executor that talks to a worker process over a Unix domain
/// socket.
#[derive(Debug)]
pub struct UnixSocketExecutor {
    socket_path: PathBuf,
    /// Per-call timeout.
    timeout: Duration,
}

impl UnixSocketExecutor {
    /// The executor's per-call timeout.
    pub closed spec fn spec_timeout(&self) -> Duration {
        self.timeout
    }

    /// The socket the executor talks to.
    pub closed spec fn spec_socket_path(&self) -> PathBuf {
        self.socket_path
    }

    /// An executor for the worker at `socket_path`, with the default timeout
    /// of thirty seconds.
    pub fn new(socket_path: PathBuf) -> (r: Self)
        ensures
            r.spec_socket_path() == socket_path,
            r.spec_timeout() == spec_duration_from_secs(DEFAULT_RPC_TIMEOUT_SECS),
    {
        let timeout = duration_from_secs(DEFAULT_RPC_TIMEOUT_SECS);
        UnixSocketExecutor { socket_path, timeout }
    }

    /// The same executor with another per-call timeout.
    pub fn with_timeout(self, timeout: Duration) -> (r: Self)
        ensures
            r.spec_socket_path() == self.spec_socket_path(),
            r.spec_timeout() == timeout,
    {
        let mut s = self;
        s.timeout = timeout;
        s
    }

    /// The socket path this executor talks to.
    pub fn socket_path(&self) -> (r: &Path)
        ensures
            r == spec_as_path(self.spec_socket_path()),
    {
        path_of(&self.socket_path)
    }

    /// The per-call timeout.
    pub fn timeout(&self) -> (d: Duration)
        ensures
            d == self.spec_timeout(),
    {
        self.timeout
    }
}

// ─── Worker wire protocol ───────────────────────────────────────────────────

/// A request frame sent to a worker.
#[derive(Debug, Clone)]
pub struct ExtensionRequest {
    /// The extension kind.
    pub kind: String,
    /// The extension version.
    pub version: u64,
    /// The extension's configuration payload.
    pub payload: JsonValue,
    /// The node input value, as JSON.
    pub input: JsonValue,
}

/// A response frame received from a worker.
#[derive(Debug, Clone)]
pub struct ExtensionResponse {
    /// Whether execution succeeded.
    pub ok: bool,
    /// Output port on success.
    pub port: Option<String>,
    /// Output value on success.
    pub value: Option<JsonValue>,
    /// Error message on failure.
    pub error: Option<String>,
}

/// The request for running a custom node of version `version` on `input`.
pub fn build_request(config: &CustomConfig, version: u64, input: &NodeInput) -> (r: ExtensionRequest)
    ensures
        r.kind@ == config.kind@,
        r.version == version,
        r.payload@ == config.payload@,
        r.input@ == spec_to_json(input.value),
{
    ExtensionRequest {
        kind: config.kind.clone(),
        version,
        payload: config.payload.deep_clone(),
        input: input.value.to_json(),
    }
}

/// The big-endian bytes of a 32-bit length.
pub open spec fn be_bytes(n: u32) -> Seq<u8> {
    seq![(n / 16777216) as u8, ((n / 65536) % 256) as u8, ((n / 256) % 256) as u8, (n % 256) as u8]
}

/// Frame a request body: its length as 4 big-endian bytes, then the body.
/// A body longer than a 32-bit length can say is refused.
pub fn encode_frame(body: &[u8]) -> (r: Result<Vec<u8>, NodeError>)
    ensures
        body@.len() <= u32::MAX ==> (r matches Ok(f) && f@ == be_bytes(body@.len() as u32) + body@),
        body@.len() > u32::MAX ==> (r matches Err(NodeError::Extension(ExtensionError::Execution(m)))
            && m@ == "extension request body exceeds u32 frame limit"@),
{
    if body.len() > 4294967295usize {
        return Err(NodeError::Extension(ExtensionError::Execution(String::from_str("extension request body exceeds u32 frame limit"))));
    }
    let len = body.len() as u32;
    let mut frame: Vec<u8> = Vec::new();
    frame.push((len / 16777216) as u8);
    frame.push(((len / 65536) % 256) as u8);
    frame.push(((len / 256) % 256) as u8);
    frame.push((len % 256) as u8);
    let ghost head = frame@;
    assert(head =~= be_bytes(len));
    let mut i: usize = 0;
    while i < body.len()
        invariant
            i <= body@.len(),
            frame@ == head + body@.subrange(0, i as int),
        decreases body@.len() - i,
    {
        frame.push(body[i]);
        assert(frame@ =~= head + body@.subrange(0, i + 1));
        i = i + 1;
    }
    assert(body@.subrange(0, body@.len() as int) =~= body@);
    Ok(frame)
}

/// The length a response frame header announces.
pub open spec fn header_length(h: Seq<u8>) -> int {
    h[0] as int * 16777216 + h[1] as int * 65536 + h[2] as int * 256 + h[3] as int
}

/// The message of an oversized response frame.
pub open spec fn oversized_message(socket: Seq<char>, len: int) -> Seq<char> {
    "extension worker at '"@ + socket + "' returned an oversized frame ("@ + spec_decimal(len as nat) + " bytes)"@
}

/// The body length a response frame header announces, refused when larger
/// than the maximum response frame (64 MiB). `socket` names the worker in
/// the error.
pub fn response_frame_length(header: &[u8; 4], socket: &str) -> (r: Result<usize, NodeError>)
    ensures
        header_length(header@) <= MAX_RESPONSE_FRAME ==> (r matches Ok(n) && n as int == header_length(header@)),
        header_length(header@) > MAX_RESPONSE_FRAME ==> (r matches Err(NodeError::Extension(ExtensionError::Execution(m)))
            && m@ == oversized_message(socket@, header_length(header@))),
{
    let len: u64 = header[0] as u64 * 16777216 + header[1] as u64 * 65536 + header[2] as u64 * 256 + header[3] as u64;
    if len > MAX_RESPONSE_FRAME as u64 {
        let mut m = String::from_str("extension worker at '");
        m.append(socket);
        m.append("' returned an oversized frame (");
        write_decimal(&mut m, len);
        m.append(" bytes)");
        return Err(NodeError::Extension(ExtensionError::Execution(m)));
    }
    Ok(len as usize)
}

/// The message of a worker's failure.
pub open spec fn failure_message(socket: Seq<char>, error: Option<String>) -> Seq<char> {
    "extension worker at '"@ + socket + "' failed: "@ + match error {
        Some(e) => e@,
        None => "unknown error"@,
    }
}

/// The node output of a worker's response: its port and value (null when
/// absent) on success, else an execution error carrying the worker's
/// message. `socket` names the worker in the error.
pub fn interpret_response(response: ExtensionResponse, socket: &str) -> (r: Result<NodeOutput, NodeError>)
    ensures
        response.ok ==> (r matches Ok(o) && o.port == response.port && from_json_rel(match response.value {
            Some(v) => v@,
            None => Json::Null,
        }, o.value)),
        !response.ok ==> (r matches Err(NodeError::Extension(ExtensionError::Execution(m))) && m@ == failure_message(socket@, response.error)),
{
    if response.ok {
        let value = match response.value {
            Some(v) => v,
            None => JsonValue::Null,
        };
        Ok(NodeOutput { port: response.port, value: RuntimeValue::from_json(value) })
    } else {
        let mut m = String::from_str("extension worker at '");
        m.append(socket);
        m.append("' failed: ");
        match &response.error {
            Some(e) => m.append(e.as_str()),
            None => m.append("unknown error"),
        }
        Err(NodeError::Extension(ExtensionError::Execution(m)))
    }
}

/// A frame's length header announces the length it was written with.
pub proof fn frame_header_round_trip(n: u32)
    ensures
        header_length(be_bytes(n)) == n,
{
    let b = be_bytes(n);
    assert(b[0] as int == n as int / 16777216);
    assert(b[1] as int == (n as int / 65536) % 256);
    assert(b[2] as int == (n as int / 256) % 256);
    assert(b[3] as int == n as int % 256);
    assert((n as int / 16777216) * 16777216 + ((n as int / 65536) % 256) * 65536 + ((n as int / 256) % 256) * 256 + n as int % 256 == n as int) by (nonlinear_arith)
        requires
            0 <= n as int <= 4294967295,
    ;
}

} // verus!
