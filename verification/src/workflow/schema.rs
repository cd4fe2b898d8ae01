//! The workflow definition, as the runtime reads it: nodes with their kind
//! and configuration, and port-to-port edges between them.

use vstd::prelude::*;
use crate::json::JsonValue;

verus! {

/// The kind of a workflow node.
#[derive(Debug, Clone, Copy, PartialEq, Eq, Structural)]
pub enum NodeKind {
    Input,
    Output,
    Llm,
    Transform,
    Condition,
    Router,
    Mcp,
    Skill,
    Fallback,
    Retry,
    Custom,
}

/// The data type carried by a port.
#[derive(Debug, Clone, Copy, PartialEq, Eq, Structural)]
pub enum PortType {
    Message,
    Json,
    Text,
    Any,
}

/// A named, typed port of a node.
#[derive(Debug, Clone)]
pub struct PortDef {
    pub name: String,
    pub port_type: PortType,
}

/// Configuration of an LLM call.
#[derive(Debug, Clone)]
pub struct LlmConfig {
    /// The protocol name (`openai_chat`, `anthropic`, `openai_responses`, ...).
    pub protocol: Option<String>,
    pub model: Option<String>,
    /// Sampling temperature, as decimal text.
    pub temperature: Option<String>,
    pub max_tokens: Option<u32>,
    pub stream: bool,
    /// The lane the call goes through; needed when several lanes exist.
    pub lane_id: Option<String>,
}

/// One provider of a fallback chain.
#[derive(Debug, Clone)]
pub struct FallbackProvider {
    /// The lane the call goes through.
    pub lane_id: String,
    /// The model asked for.
    pub model: String,
    /// The protocol spoken to the lane, when not the default.
    pub protocol: Option<String>,
}

/// Where a fallback chain starts.
#[derive(Debug, Clone, Copy, PartialEq, Eq, Structural)]
pub enum FallbackStrategy {
    /// Always at the first provider.
    Sequential,
    /// Each request at the provider after the one the previous request
    /// started at.
    RoundRobin,
}

/// Configuration of a fallback node: providers tried in order.
#[derive(Debug, Clone)]
pub struct FallbackConfig {
    pub providers: Vec<FallbackProvider>,
    pub strategy: FallbackStrategy,
    /// How many times the whole provider list is cycled (at least once).
    pub rounds: u32,
    /// Upstream status codes that move on to the next provider.
    pub retry_on: Vec<u16>,
}

/// Configuration of a retry node.
#[derive(Debug, Clone)]
pub struct RetryConfig {
    pub max_attempts: u32,
    pub delay_ms: u64,
    /// Retry errors that look like timeouts.
    pub on_timeout: bool,
    /// Retry every provider error.
    pub on_provider_error: bool,
    /// Status codes that are always retried.
    pub retry_on: Vec<u16>,
    /// The LLM call to retry.
    pub target: LlmConfig,
}

/// The comparison a condition node makes.
#[derive(Debug, Clone, Copy, PartialEq, Eq, Structural)]
pub enum ConditionOp {
    Equal,
    NotEqual,
    GreaterThan,
    LessThan,
    Contains,
    NotContains,
    IsEmpty,
    IsNotEmpty,
}

/// Configuration of a condition node: a field of the input compared with a
/// value.
#[derive(Debug, Clone)]
pub struct ConditionConfig {
    /// A dotted path into the input.
    pub field: String,
    pub operator: ConditionOp,
    pub value: JsonValue,
}

/// The operation of a transform node.
#[derive(Debug, Clone, Copy, PartialEq, Eq, Structural)]
pub enum TransformOperation {
    Passthrough,
    Extract,
    Merge,
    Filter,
}

/// Configuration of a transform node.
#[derive(Debug, Clone)]
pub struct TransformConfig {
    pub operation: TransformOperation,
}

/// Configuration of a custom node, run by an extension.
#[derive(Debug, Clone)]
pub struct CustomConfig {
    /// The extension kind.
    pub kind: String,
    /// The extension's own configuration.
    pub payload: JsonValue,
}

/// A node's configuration. Router, MCP and skill nodes keep theirs as JSON.
#[derive(Debug, Clone)]
pub enum NodeConfig {
    Input,
    Output,
    Llm(LlmConfig),
    Transform(TransformConfig),
    Condition(ConditionConfig),
    Router(JsonValue),
    Mcp(JsonValue),
    Skill(JsonValue),
    Fallback(FallbackConfig),
    Retry(RetryConfig),
    Custom(CustomConfig),
}

/// A workflow node.
#[derive(Debug, Clone)]
pub struct Node {
    pub id: String,
    pub kind: NodeKind,
    pub config: NodeConfig,
    pub inputs: Vec<PortDef>,
    pub outputs: Vec<PortDef>,
}

/// A condition on an edge: a field of the source's output equals a value.
#[derive(Debug, Clone)]
pub struct EdgeConditionDef {
    pub field: String,
    pub value: JsonValue,
}

/// An edge from an output port of one node to an input port of another.
#[derive(Debug, Clone)]
pub struct Edge {
    pub source_node: String,
    pub source_port: String,
    pub target_node: String,
    pub target_port: String,
    pub condition: Option<EdgeConditionDef>,
}

/// A workflow definition.
#[derive(Debug, Clone)]
pub struct Workflow {
    pub id: String,
    pub name: String,
    pub version: u64,
    pub nodes: Vec<Node>,
    pub edges: Vec<Edge>,
}

// ─── Copies ─────────────────────────────────────────────────────────────────

/// `b` holds the same configuration as `a`, JSON compared by value.
pub open spec fn same_config(a: NodeConfig, b: NodeConfig) -> bool {
    match (a, b) {
        (NodeConfig::Input, NodeConfig::Input) => true,
        (NodeConfig::Output, NodeConfig::Output) => true,
        (NodeConfig::Llm(x), NodeConfig::Llm(y)) => x == y,
        (NodeConfig::Transform(x), NodeConfig::Transform(y)) => x == y,
        (NodeConfig::Condition(x), NodeConfig::Condition(y)) => x.field == y.field && x.operator == y.operator
            && x.value@ == y.value@,
        (NodeConfig::Router(x), NodeConfig::Router(y)) => x@ == y@,
        (NodeConfig::Mcp(x), NodeConfig::Mcp(y)) => x@ == y@,
        (NodeConfig::Skill(x), NodeConfig::Skill(y)) => x@ == y@,
        (NodeConfig::Fallback(x), NodeConfig::Fallback(y)) => x.providers@ == y.providers@ && x.strategy == y.strategy
            && x.rounds == y.rounds && x.retry_on@ == y.retry_on@,
        (NodeConfig::Retry(x), NodeConfig::Retry(y)) => x.max_attempts == y.max_attempts && x.delay_ms == y.delay_ms
            && x.on_timeout == y.on_timeout && x.on_provider_error == y.on_provider_error && x.retry_on@ == y.retry_on@
            && x.target == y.target,
        (NodeConfig::Custom(x), NodeConfig::Custom(y)) => x.kind == y.kind && x.payload@ == y.payload@,
        _ => false,
    }
}

/// A copy of a list of status codes.
fn copy_codes(v: &Vec<u16>) -> (r: Vec<u16>)
    ensures
        r@ == v@,
{
    let mut r: Vec<u16> = Vec::new();
    let mut i: usize = 0;
    while i < v.len()
        invariant
            i <= v@.len(),
            r@ == v@.subrange(0, i as int),
        decreases v@.len() - i,
    {
        r.push(v[i]);
        assert(r@ =~= v@.subrange(0, i + 1));
        i = i + 1;
    }
    assert(v@.subrange(0, v@.len() as int) =~= v@);
    r
}

impl LlmConfig {
    /// A copy of this configuration.
    pub fn copy(&self) -> (r: Self)
        ensures
            r == *self,
    {
        LlmConfig {
            protocol: crate::canonical::clone_opt_string(&self.protocol),
            model: crate::canonical::clone_opt_string(&self.model),
            temperature: crate::canonical::clone_opt_string(&self.temperature),
            max_tokens: self.max_tokens,
            stream: self.stream,
            lane_id: crate::canonical::clone_opt_string(&self.lane_id),
        }
    }
}

impl FallbackConfig {
    /// A copy of this configuration.
    pub fn copy(&self) -> (r: Self)
        ensures
            r.providers@ == self.providers@,
            r.strategy == self.strategy,
            r.rounds == self.rounds,
            r.retry_on@ == self.retry_on@,
    {
        let mut providers: Vec<FallbackProvider> = Vec::new();
        let mut i: usize = 0;
        while i < self.providers.len()
            invariant
                i <= self.providers@.len(),
                providers@ == self.providers@.subrange(0, i as int),
            decreases self.providers@.len() - i,
        {
            let p = &self.providers[i];
            providers.push(FallbackProvider {
                lane_id: p.lane_id.clone(),
                model: p.model.clone(),
                protocol: crate::canonical::clone_opt_string(&p.protocol),
            });
            assert(providers@ =~= self.providers@.subrange(0, i + 1));
            i = i + 1;
        }
        assert(self.providers@.subrange(0, self.providers@.len() as int) =~= self.providers@);
        FallbackConfig { providers, strategy: self.strategy, rounds: self.rounds, retry_on: copy_codes(&self.retry_on) }
    }
}

impl NodeConfig {
    /// A copy of this configuration.
    pub fn copy(&self) -> (r: Self)
        ensures
            same_config(*self, r),
    {
        match self {
            NodeConfig::Input => NodeConfig::Input,
            NodeConfig::Output => NodeConfig::Output,
            NodeConfig::Llm(c) => NodeConfig::Llm(c.copy()),
            NodeConfig::Transform(c) => NodeConfig::Transform(TransformConfig { operation: c.operation }),
            NodeConfig::Condition(c) => NodeConfig::Condition(
                ConditionConfig { field: c.field.clone(), operator: c.operator, value: c.value.deep_clone() },
            ),
            NodeConfig::Router(j) => NodeConfig::Router(j.deep_clone()),
            NodeConfig::Mcp(j) => NodeConfig::Mcp(j.deep_clone()),
            NodeConfig::Skill(j) => NodeConfig::Skill(j.deep_clone()),
            NodeConfig::Fallback(c) => NodeConfig::Fallback(c.copy()),
            NodeConfig::Retry(c) => NodeConfig::Retry(
                RetryConfig {
                    max_attempts: c.max_attempts,
                    delay_ms: c.delay_ms,
                    on_timeout: c.on_timeout,
                    on_provider_error: c.on_provider_error,
                    retry_on: copy_codes(&c.retry_on),
                    target: c.target.copy(),
                },
            ),
            NodeConfig::Custom(c) => NodeConfig::Custom(CustomConfig { kind: c.kind.clone(), payload: c.payload.deep_clone() }),
        }
    }
}

} // verus!
