//! Observability metadata plumbing for execution contexts.
//!
//! `MilestoneReporter` carries execution milestones out of the runtime; when
//! no observer is attached the runtime uses the no-op reporter.

use vstd::prelude::*;

verus! {

/// Receives execution milestones for a node run.
pub trait MilestoneReporter: Send + Sync {
    /// A node completed, with the port its output went out on.
    fn node_completed(&self, node_id: &str, output_port: Option<&str>);

    /// A node failed.
    fn node_failed(&self, node_id: &str, error: &str);
}

/// Reporter that records nothing; used when no observer is attached.
pub struct NoopReporter;

impl MilestoneReporter for NoopReporter {
    fn node_completed(&self, _node_id: &str, _output_port: Option<&str>) {
    }

    fn node_failed(&self, _node_id: &str, _error: &str) {
    }
}

} // verus!
