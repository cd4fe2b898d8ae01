//! The retry policy of retry nodes: which failures earn another attempt.

use vstd::prelude::*;
use crate::error::{ProtocolEngineError, spec_status};
use crate::text::{contains_seq, str_contains};
use crate::workflow::error::NodeError;
use crate::workflow::nodes::NodeOutput;
use crate::workflow::schema::RetryConfig;

verus! {

/// What `str::to_lowercase` makes of `s`: its Unicode lowercase mapping.
pub uninterp spec fn spec_lowercase(s: Seq<char>) -> Seq<char>;

/// `str::to_lowercase`; the result is named by `spec_lowercase`.
#[verifier::external_body]
fn to_lowercase(s: &str) -> (r: String)
    ensures
        r@ == spec_lowercase(s@),
{
    s.to_lowercase()
}

/// Whether a provider error looks like a timeout: its lowercased message
/// mentions `timeout` or `timed out`.
pub open spec fn spec_is_timeout(pe: ProtocolEngineError) -> bool {
    match pe {
        ProtocolEngineError::ProviderError { message, .. } => contains_seq(spec_lowercase(message@), "timeout"@)
            || contains_seq(spec_lowercase(message@), "timed out"@),
        _ => false,
    }
}

/// Heuristic timeout detection: upstream transport errors surface as
/// provider errors whose message mentions a timeout.
pub fn is_timeout_error(pe: &ProtocolEngineError) -> (b: bool)
    ensures
        b == spec_is_timeout(*pe),
{
    match pe {
        ProtocolEngineError::ProviderError { message, .. } => {
            let msg = to_lowercase(message.as_str());
            str_contains(msg.as_str(), "timeout") || str_contains(msg.as_str(), "timed out")
        },
        _ => false,
    }
}

/// Whether an error earns another attempt under the policy: only provider
/// errors do, when their upstream status is one the policy lists, when the
/// policy retries every provider error, or when it retries timeouts and the
/// error is one.
pub open spec fn spec_should_retry(config: RetryConfig, e: NodeError) -> bool {
    match e {
        NodeError::Provider(pe) => (spec_status(pe) matches Some(s) && config.retry_on@.contains(s))
            || config.on_provider_error || (config.on_timeout && spec_is_timeout(pe)),
        _ => false,
    }
}

/// Whether `code` is among `codes`.
fn lists_code(codes: &Vec<u16>, code: u16) -> (b: bool)
    ensures
        b == codes@.contains(code),
{
    let mut i: usize = 0;
    while i < codes.len()
        invariant
            i <= codes@.len(),
            forall|k: int| 0 <= k < i ==> codes@[k] != code,
        decreases codes@.len() - i,
    {
        if codes[i] == code {
            return true;
        }
        i = i + 1;
    }
    false
}

/// Whether an error should trigger another attempt under the config policy.
pub fn should_retry(config: &RetryConfig, e: &NodeError) -> (b: bool)
    ensures
        b == spec_should_retry(*config, *e),
{
    match e {
        NodeError::Provider(pe) => {
            match pe.status() {
                Some(status) => {
                    if lists_code(&config.retry_on, status) {
                        return true;
                    }
                },
                None => {},
            }
            if config.on_provider_error {
                return true;
            }
            if config.on_timeout && is_timeout_error(pe) {
                return true;
            }
            false
        },
        _ => false,
    }
}

/// What the caller of a retry node does next.
#[derive(Debug)]
pub enum RetryAction {
    /// Wait this many milliseconds, then call the target again and report
    /// the outcome with `on_outcome`.
    WaitThenCall(u64),
    /// The node's result.
    Finish(Result<NodeOutput, NodeError>),
}

/// The progress of one retry node: the attempt under way, counted from 1.
#[derive(Debug)]
pub struct RetryRun {
    pub attempt: u32,
    pub max_attempts: u32,
}

impl RetryRun {
    /// The run fits the configuration.
    pub open spec fn wf(&self, config: RetryConfig) -> bool {
        &&& self.max_attempts == config.max_attempts
        &&& 1 <= self.attempt <= self.max_attempts
    }

    /// Begin a run; the caller then makes the first call. A policy that
    /// allows no attempt is refused.
    pub fn start(config: &RetryConfig) -> (r: Result<RetryRun, NodeError>)
        ensures
            config.max_attempts == 0 <==> (r matches Err(NodeError::Internal(m))
                && m@ == "retry: max_attempts must be \u{2265} 1"@),
            r matches Ok(run) ==> run.wf(*config) && run.attempt == 1,
    {
        if config.max_attempts == 0 {
            return Err(NodeError::Internal(String::from_str("retry: max_attempts must be \u{2265} 1")));
        }
        Ok(RetryRun { attempt: 1, max_attempts: config.max_attempts })
    }

    /// Take in the outcome of the current attempt: an answer ends the node,
    /// and so does a failure that the policy does not retry or that used
    /// the last attempt; any other failure earns another attempt after the
    /// configured delay.
    pub fn on_outcome(&mut self, config: &RetryConfig, outcome: Result<NodeOutput, NodeError>) -> (a: RetryAction)
        requires
            old(self).wf(*config),
        ensures
            final(self).wf(*config),
            match outcome {
                Ok(o) => (a matches RetryAction::Finish(Ok(x)) && x == o) && *final(self) == *old(self),
                Err(e) => if spec_should_retry(*config, e) && old(self).attempt < config.max_attempts {
                    a == RetryAction::WaitThenCall(config.delay_ms) && final(self).attempt == old(self).attempt + 1
                } else {
                    a == RetryAction::Finish(Err(e)) && *final(self) == *old(self)
                },
            },
    {
        match outcome {
            Ok(o) => RetryAction::Finish(Ok(o)),
            Err(e) => {
                if should_retry(config, &e) && self.attempt < self.max_attempts {
                    self.attempt = self.attempt + 1;
                    RetryAction::WaitThenCall(config.delay_ms)
                } else {
                    RetryAction::Finish(Err(e))
                }
            },
        }
    }
}

} // verus!
