//! Which nodes run without outside work, and what they give.

use vstd::prelude::*;
use crate::workflow::condition::{ConditionEval, condition_eval, condition_output, evaluate_condition};
use crate::workflow::error::NodeError;
use crate::workflow::nodes::{NodeInput, NodeOutput};
use crate::workflow::schema::NodeConfig;
use crate::workflow::transform::transforms;

verus! {

/// How far a node runs here.
#[derive(Debug)]
pub enum LocalRun {
    /// The node's outcome.
    Done(Result<NodeOutput, NodeError>),
    /// A condition whose answer needs a floating-point comparison; the
    /// caller makes it and sends the answer out with `condition_output`.
    Compare(ConditionEval),
    /// The node needs outside work (a provider call, a tool, an
    /// extension); its input is handed back.
    External(NodeInput),
}

/// `r` is how far the node with configuration `config` runs here on
/// `input`: input, output and router nodes pass the value on; transform
/// nodes reshape it; condition nodes answer on their `true` or `false`
/// port where no floating point is needed; all others need outside work.
pub open spec fn runs_locally(config: NodeConfig, input: NodeInput, r: LocalRun) -> bool {
    match config {
        NodeConfig::Input | NodeConfig::Output | NodeConfig::Router(_) => r matches LocalRun::Done(Ok(o))
            && o.port is None && o.value == input.value,
        NodeConfig::Transform(t) => r matches LocalRun::Done(Ok(o)) && o.port is None && transforms(t.operation, input.value, o.value),
        NodeConfig::Condition(c) => match r {
            LocalRun::Done(Ok(o)) => exists|b: bool| #[trigger] condition_eval(c, input.value, ConditionEval::Decided(b))
                && o.value == crate::workflow::nodes::RuntimeValue::Bool(b)
                && (o.port matches Some(p) && p@ == (if b { "true"@ } else { "false"@ })),
            LocalRun::Compare(e) => condition_eval(c, input.value, e) && !(e is Decided),
            _ => false,
        },
        _ => r == LocalRun::External(input),
    }
}

/// Run a node as far as it runs without outside work.
pub fn run_local(config: &NodeConfig, input: NodeInput) -> (r: LocalRun)
    ensures
        runs_locally(*config, input, r),
{
    match config {
        NodeConfig::Input | NodeConfig::Output | NodeConfig::Router(_) => LocalRun::Done(Ok(NodeOutput::message(input.value))),
        NodeConfig::Transform(t) => LocalRun::Done(crate::workflow::transform::execute(t, input)),
        NodeConfig::Condition(c) => {
            let e = evaluate_condition(c, &input.value);
            match e {
                ConditionEval::Decided(b) => LocalRun::Done(condition_output(b)),
                _ => LocalRun::Compare(e),
            }
        },
        _ => LocalRun::External(input),
    }
}

} // verus!
