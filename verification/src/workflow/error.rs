//! Workflow and node error types.

use vstd::prelude::*;
use crate::error::{spec_message, ProtocolEngineError};
use core::time::Duration;

verus! {

/// Errors produced during workflow compilation, validation, or execution.
#[derive(Debug)]
pub enum WorkflowError {
    /// The workflow definition is invalid.
    Validation(String),
    /// A node's configuration is invalid.
    NodeConfig(String),
    /// A node failed while running.
    Runtime { node_id: String, source: NodeError },
    /// The protocol engine failed.
    Protocol(ProtocolEngineError),
    /// The run was cancelled.
    Cancelled,
    /// The run exceeded its deadline.
    Timeout(Duration),
}

/// Errors from individual node execution.
#[derive(Debug)]
pub enum NodeError {
    /// The provider call failed.
    Provider(ProtocolEngineError),
    /// The node received a value of the wrong shape.
    InputMismatch { expected: String, got: String },
    /// A required input is absent.
    MissingInput(String),
    /// An internal failure.
    Internal(String),
    /// An extension failed.
    Extension(ExtensionError),
}

/// Errors from extension validation or execution.
#[derive(Debug)]
pub enum ExtensionError {
    /// The extension worker cannot be reached.
    WorkerUnavailable(String),
    /// No extension of that kind is registered.
    NotRegistered(String),
    /// The extension rejected its configuration.
    Validation(String),
    /// The extension failed while running.
    Execution(String),
}

/// The display form of an extension error.
pub open spec fn spec_extension_message(e: ExtensionError) -> Seq<char> {
    match e {
        ExtensionError::WorkerUnavailable(m) => "extension worker unavailable: "@ + m@,
        ExtensionError::NotRegistered(m) => "extension not registered: "@ + m@,
        ExtensionError::Validation(m) => "extension validation failed: "@ + m@,
        ExtensionError::Execution(m) => "extension execution failed: "@ + m@,
    }
}

/// The display form of a node error.
pub open spec fn spec_node_message(e: NodeError) -> Seq<char> {
    match e {
        NodeError::Provider(p) => "provider error: "@ + spec_message(p),
        NodeError::InputMismatch { expected, got } => "input mismatch: expected "@ + expected@
            + ", got "@ + got@,
        NodeError::MissingInput(m) => "missing required input: "@ + m@,
        NodeError::Internal(m) => "internal error: "@ + m@,
        NodeError::Extension(x) => "extension error: "@ + spec_extension_message(x),
    }
}

impl ExtensionError {
    /// The error's message (its display form).
    pub fn to_string(&self) -> (s: String)
        ensures
            s@ == spec_extension_message(*self),
    {
        let mut s = String::new();
        match self {
            ExtensionError::WorkerUnavailable(m) => {
                s.append("extension worker unavailable: ");
                s.append(m.as_str());
            },
            ExtensionError::NotRegistered(m) => {
                s.append("extension not registered: ");
                s.append(m.as_str());
            },
            ExtensionError::Validation(m) => {
                s.append("extension validation failed: ");
                s.append(m.as_str());
            },
            ExtensionError::Execution(m) => {
                s.append("extension execution failed: ");
                s.append(m.as_str());
            },
        }
        s
    }
}

impl NodeError {
    /// The error's message (its display form).
    pub fn to_string(&self) -> (s: String)
        ensures
            s@ == spec_node_message(*self),
    {
        let mut s = String::new();
        match self {
            NodeError::Provider(p) => {
                s.append("provider error: ");
                let m = p.to_string();
                s.append(m.as_str());
            },
            NodeError::InputMismatch { expected, got } => {
                s.append("input mismatch: expected ");
                s.append(expected.as_str());
                s.append(", got ");
                s.append(got.as_str());
            },
            NodeError::MissingInput(m) => {
                s.append("missing required input: ");
                s.append(m.as_str());
            },
            NodeError::Internal(m) => {
                s.append("internal error: ");
                s.append(m.as_str());
            },
            NodeError::Extension(x) => {
                s.append("extension error: ");
                let m = x.to_string();
                s.append(m.as_str());
            },
        }
        s
    }
}

/// The text `Duration`'s `Debug` writes for `d` (such as `5s` or `1.5ms`).
pub uninterp spec fn spec_debug_duration(d: Duration) -> Seq<char>;

/// `format!("{:?}", d)` for a duration. Claimed: the text depends on the
/// duration alone and is named by `spec_debug_duration`.
#[verifier::external_body]
fn debug_duration(d: &Duration) -> (s: String)
    ensures
        s@ == spec_debug_duration(*d),
{
    format!("{:?}", d)
}

/// The display form of a workflow error.
pub open spec fn spec_workflow_message(e: WorkflowError) -> Seq<char> {
    match e {
        WorkflowError::Validation(m) => "workflow validation failed: "@ + m@,
        WorkflowError::NodeConfig(m) => "node configuration error: "@ + m@,
        WorkflowError::Runtime { node_id, source } => "runtime execution error in node '"@
            + node_id@ + "': "@ + spec_node_message(source),
        WorkflowError::Protocol(p) => "protocol engine error: "@ + spec_message(p),
        WorkflowError::Cancelled => "workflow cancelled"@,
        WorkflowError::Timeout(d) => "workflow timed out after "@ + spec_debug_duration(d),
    }
}

impl WorkflowError {
    /// The error's message (its display form).
    pub fn to_string(&self) -> (s: String)
        ensures
            s@ == spec_workflow_message(*self),
    {
        let mut s = String::new();
        match self {
            WorkflowError::Validation(m) => {
                s.append("workflow validation failed: ");
                s.append(m.as_str());
            },
            WorkflowError::NodeConfig(m) => {
                s.append("node configuration error: ");
                s.append(m.as_str());
            },
            WorkflowError::Runtime { node_id, source } => {
                s.append("runtime execution error in node '");
                s.append(node_id.as_str());
                s.append("': ");
                let m = source.to_string();
                s.append(m.as_str());
            },
            WorkflowError::Protocol(p) => {
                s.append("protocol engine error: ");
                let m = p.to_string();
                s.append(m.as_str());
            },
            WorkflowError::Cancelled => {
                s.append("workflow cancelled");
            },
            WorkflowError::Timeout(d) => {
                s.append("workflow timed out after ");
                let m = debug_duration(d);
                s.append(m.as_str());
            },
        }
        s
    }
}

impl From<ProtocolEngineError> for WorkflowError {
    fn from(e: ProtocolEngineError) -> (r: Self)
        ensures
            r == WorkflowError::Protocol(e),
    {
        WorkflowError::Protocol(e)
    }
}

impl vstd::std_specs::convert::FromSpecImpl<ProtocolEngineError> for WorkflowError {
    open spec fn obeys_from_spec() -> bool {
        true
    }

    open spec fn from_spec(e: ProtocolEngineError) -> WorkflowError {
        WorkflowError::Protocol(e)
    }
}

impl From<ProtocolEngineError> for NodeError {
    fn from(e: ProtocolEngineError) -> (r: Self)
        ensures
            r == NodeError::Provider(e),
    {
        NodeError::Provider(e)
    }
}

impl vstd::std_specs::convert::FromSpecImpl<ProtocolEngineError> for NodeError {
    open spec fn obeys_from_spec() -> bool {
        true
    }

    open spec fn from_spec(e: ProtocolEngineError) -> NodeError {
        NodeError::Provider(e)
    }
}

impl From<ExtensionError> for NodeError {
    fn from(e: ExtensionError) -> (r: Self)
        ensures
            r == NodeError::Extension(e),
    {
        NodeError::Extension(e)
    }
}

impl vstd::std_specs::convert::FromSpecImpl<ExtensionError> for NodeError {
    open spec fn obeys_from_spec() -> bool {
        true
    }

    open spec fn from_spec(e: ExtensionError) -> NodeError {
        NodeError::Extension(e)
    }
}

} // verus!
