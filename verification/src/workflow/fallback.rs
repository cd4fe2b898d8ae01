//! Fallback nodes: providers tried in turn until one answers.
//!
//! The whole provider list is cycled up to `rounds` times. A provider whose
//! lane is not registered is skipped as a failure; a lane without a
//! connection pool ends the node at once. The caller drives the run: it
//! looks up pools and makes the calls that the run asks for, and reports
//! what came of them.

use vstd::prelude::*;
use crate::canonical::clone_opt_string;
use crate::workflow::context::LaneRegistry;
use crate::workflow::error::NodeError;
use crate::workflow::nodes::NodeOutput;
use crate::workflow::schema::{FallbackConfig, FallbackProvider, FallbackStrategy, LlmConfig};

verus! {

/// Why the provider tried last did not answer.
#[derive(Debug)]
pub enum Failure {
    /// The provider at this index names a lane that is not registered.
    LaneNotFound(usize),
    /// The provider's lane has no usable upstream client.
    NoUpstreamClient,
    /// The call failed with this error.
    Call(NodeError),
}

/// What a lane's connection pool offers, as the caller found it.
#[derive(Debug, Clone, Copy, PartialEq, Eq, Structural)]
pub enum LanePool {
    /// The lane has no connection pool.
    Missing,
    /// The pool has no usable client.
    Unavailable,
    /// A client is ready.
    Available,
}

/// What the caller does next.
#[derive(Debug)]
pub enum FallbackAction {
    /// Look up the connection pool of this lane and report it with
    /// `on_pool`.
    CheckPool(String),
    /// Make this LLM call and report its outcome with `on_outcome`.
    Call(LlmConfig),
    /// The node's result.
    Finish(Result<NodeOutput, NodeError>),
}

/// The progress of one fallback node through its providers.
#[derive(Debug)]
pub struct FallbackRun {
    /// The offset of the first provider tried in each round.
    pub start: usize,
    /// How many rounds are run.
    pub rounds: u32,
    /// The current round.
    pub round: u32,
    /// The current provider, counted from `start`.
    pub offset: usize,
    /// Whether some provider was called.
    pub any_ran: bool,
    /// The failure of the provider tried last.
    pub last: Option<Failure>,
}

/// The index of the provider `offset` places after `start` in a list of
/// `n`, wrapping around.
pub open spec fn provider_index(start: int, offset: int, n: int) -> int {
    (start + offset) % n
}

/// The message of a run that called no provider.
pub open spec fn nothing_attempted() -> Seq<char> {
    "fallback: no provider could be attempted (missing lanes or client)"@
}

/// `r` is the result of a run that has gone through all its providers in
/// the state `s`: a failure when no provider could be called, else the
/// failure of the provider tried last.
pub open spec fn finishes_with(config: FallbackConfig, s: FallbackRun, r: Result<NodeOutput, NodeError>) -> bool {
    if !s.any_ran {
        r matches Err(NodeError::Internal(m)) && m@ == nothing_attempted()
    } else {
        match s.last {
            Some(Failure::LaneNotFound(i)) => r matches Err(NodeError::Internal(m)) && m@ == "lane not found: "@
                + config.providers@[i as int].lane_id@,
            Some(Failure::NoUpstreamClient) => r matches Err(NodeError::Internal(m)) && m@ == "no upstream client"@,
            Some(Failure::Call(e)) => r == Err::<NodeOutput, NodeError>(e),
            None => r matches Err(NodeError::Internal(m)) && m@ == "fallback: all providers exhausted"@,
        }
    }
}

/// `c` is the LLM call made for the provider `p`: its lane, model and
/// protocol, with a buffered (not streamed) answer.
pub open spec fn call_config(p: FallbackProvider, c: LlmConfig) -> bool {
    &&& c.protocol == p.protocol
    &&& c.model == Some(p.model)
    &&& c.temperature is None
    &&& c.max_tokens is None
    &&& !c.stream
    &&& c.lane_id == Some(p.lane_id)
}

impl FallbackRun {
    /// The run fits the configuration.
    pub open spec fn wf(&self, config: FallbackConfig) -> bool {
        let n = config.providers@.len();
        &&& n > 0
        &&& self.start < n
        &&& self.offset < n
        &&& 1 <= self.rounds
        &&& self.round <= self.rounds
        &&& (self.last matches Some(Failure::LaneNotFound(i)) ==> i < n)
    }

    /// The index of the current provider.
    pub open spec fn current(&self, config: FallbackConfig) -> int {
        provider_index(self.start as int, self.offset as int, config.providers@.len() as int)
    }

    /// The run moved on to the next provider, or to the next round.
    pub open spec fn advanced(self, n: int) -> FallbackRun {
        if self.offset + 1 < n && self.offset < usize::MAX {
            FallbackRun { offset: (self.offset + 1) as usize, ..self }
        } else {
            FallbackRun { round: (self.round + 1) as u32, offset: 0, ..self }
        }
    }
}

/// The run `s` after the providers whose lanes are not registered, from
/// the current one on, have been skipped, each recorded as the last
/// failure.
pub open spec fn skip_missing(config: FallbackConfig, lanes: LaneRegistry, s: FallbackRun) -> FallbackRun
    decreases s.rounds - s.round, config.providers@.len() - s.offset,
{
    let n = config.providers@.len();
    if s.round >= s.rounds || s.offset >= n {
        s
    } else {
        let i = provider_index(s.start as int, s.offset as int, n as int);
        if lanes.has_lane(config.providers@[i].lane_id@) {
            s
        } else {
            skip_missing(config, lanes, FallbackRun { last: Some(Failure::LaneNotFound(i as usize)), ..s }.advanced(n as int))
        }
    }
}

/// `a` is what a run in the state `s`, with its skipping done, asks for
/// next: the pool of the current provider's lane, or its result once all
/// rounds are over.
pub open spec fn asks_next(config: FallbackConfig, s: FallbackRun, a: FallbackAction) -> bool {
    if s.round < s.rounds {
        a matches FallbackAction::CheckPool(l) && l@ == config.providers@[s.current(config)].lane_id@
    } else {
        a matches FallbackAction::Finish(r) && finishes_with(config, s, r)
    }
}

/// `f` is the run `s` as it stands after the caller has been told what to
/// do: unchanged while rounds remain, with its last failure handed out in
/// the result once they are over.
pub open spec fn settled(s: FallbackRun, f: FallbackRun) -> bool {
    if s.round < s.rounds {
        f == s
    } else {
        f == (FallbackRun { last: None, ..s })
    }
}

/// The message of a lane that has no connection pool.
pub open spec fn no_pool_message(lane: Seq<char>) -> Seq<char> {
    "no connection pool for lane '"@ + lane + "' (masked egress requires a lane pool)"@
}

impl FallbackStrategy {
    /// Whether a run draws a turn from the node's request counter.
    pub fn takes_turns(&self) -> (b: bool)
        ensures
            b == (*self == FallbackStrategy::RoundRobin),
    {
        match self {
            FallbackStrategy::Sequential => false,
            FallbackStrategy::RoundRobin => true,
        }
    }
}

impl FallbackRun {
    /// Begin a run. `turn` is the node's request counter before this
    /// request, which a round-robin chain starts from.
    pub fn start(config: &FallbackConfig, turn: usize) -> (r: Result<FallbackRun, NodeError>)
        ensures
            config.providers@.len() == 0 <==> (r matches Err(NodeError::Internal(m)) && m@ == "fallback: no providers"@),
            r matches Ok(s) ==> {
                &&& s.wf(*config)
                &&& s.start == match config.strategy {
                    FallbackStrategy::Sequential => 0usize,
                    FallbackStrategy::RoundRobin => turn % config.providers.len(),
                }
                &&& s.rounds == if config.rounds == 0 { 1 } else { config.rounds }
                &&& s.round == 0
                &&& s.offset == 0
                &&& !s.any_ran
                &&& s.last is None
            },
    {
        let n = config.providers.len();
        if n == 0 {
            return Err(NodeError::Internal(String::from_str("fallback: no providers")));
        }
        let start = match config.strategy {
            FallbackStrategy::Sequential => 0,
            FallbackStrategy::RoundRobin => turn % n,
        };
        let rounds = if config.rounds == 0 { 1 } else { config.rounds };
        Ok(FallbackRun { start, rounds, round: 0, offset: 0, any_ran: false, last: None })
    }

    /// The index of the current provider.
    fn current_index(&self, n: usize) -> (i: usize)
        requires
            self.start < n,
            self.offset < n,
        ensures
            i == provider_index(self.start as int, self.offset as int, n as int),
            i < n,
    {
        if self.offset < n - self.start {
            proof {
                vstd::arithmetic::div_mod::lemma_small_mod((self.start + self.offset) as nat, n as nat);
            }
            self.start + self.offset
        } else {
            let i = self.offset - (n - self.start);
            proof {
                vstd::arithmetic::div_mod::lemma_mod_sub_multiples_vanish((self.start + self.offset) as int, n as int);
                vstd::arithmetic::div_mod::lemma_small_mod(i as nat, n as nat);
            }
            i
        }
    }

    /// Move on to the next provider, or to the next round.
    fn advance(&mut self, n: usize)
        requires
            old(self).offset < n,
            old(self).round < old(self).rounds,
        ensures
            *final(self) == old(self).advanced(n as int),
    {
        if self.offset + 1 < n {
            self.offset = self.offset + 1;
        } else {
            self.round = self.round + 1;
            self.offset = 0;
        }
    }

    /// Skip the providers whose lanes are not registered, then say what
    /// the caller does next.
    pub fn next(&mut self, config: &FallbackConfig, lanes: &LaneRegistry) -> (a: FallbackAction)
        requires
            old(self).wf(*config),
        ensures
            final(self).wf(*config),
            asks_next(*config, skip_missing(*config, *lanes, *old(self)), a),
            settled(skip_missing(*config, *lanes, *old(self)), *final(self)),
    {
        let n = config.providers.len();
        while self.round < self.rounds
            invariant
                self.wf(*config),
                n == config.providers@.len(),
                skip_missing(*config, *lanes, *self) == skip_missing(*config, *lanes, *old(self)),
            decreases self.rounds - self.round, n - self.offset,
        {
            let i = self.current_index(n);
            if lanes.get(config.providers[i].lane_id.as_str()).is_some() {
                return FallbackAction::CheckPool(config.providers[i].lane_id.clone());
            }
            self.last = Some(Failure::LaneNotFound(i));
            self.advance(n);
        }
        FallbackAction::Finish(self.final_result(config))
    }

    /// The result of a run that has gone through all its providers; the
    /// last failure is handed out.
    fn final_result(&mut self, config: &FallbackConfig) -> (r: Result<NodeOutput, NodeError>)
        requires
            old(self).wf(*config),
        ensures
            finishes_with(*config, *old(self), r),
            *final(self) == (FallbackRun { last: None, ..*old(self) }),
    {
        let last = self.last.take();
        if !self.any_ran {
            return Err(NodeError::Internal(String::from_str("fallback: no provider could be attempted (missing lanes or client)")));
        }
        match last {
            Some(Failure::LaneNotFound(i)) => {
                let mut m = String::from_str("lane not found: ");
                m.append(config.providers[i].lane_id.as_str());
                Err(NodeError::Internal(m))
            },
            Some(Failure::NoUpstreamClient) => Err(NodeError::Internal(String::from_str("no upstream client"))),
            Some(Failure::Call(e)) => Err(e),
            None => Err(NodeError::Internal(String::from_str("fallback: all providers exhausted"))),
        }
    }

    /// Take in what the caller found of the current lane's pool: no pool
    /// ends the node; no usable client counts as a failure of this
    /// provider; a ready client is used for the call.
    pub fn on_pool(&mut self, config: &FallbackConfig, lanes: &LaneRegistry, pool: LanePool) -> (a: FallbackAction)
        requires
            old(self).wf(*config),
            old(self).round < old(self).rounds,
        ensures
            final(self).wf(*config),
            match pool {
                LanePool::Missing => {
                    &&& a matches FallbackAction::Finish(Err(NodeError::Internal(m)))
                        && m@ == no_pool_message(config.providers@[old(self).current(*config)].lane_id@)
                    &&& *final(self) == *old(self)
                },
                LanePool::Unavailable => {
                    let s = skip_missing(
                        *config,
                        *lanes,
                        FallbackRun { last: Some(Failure::NoUpstreamClient), ..*old(self) }.advanced(config.providers@.len() as int),
                    );
                    asks_next(*config, s, a) && settled(s, *final(self))
                },
                LanePool::Available => {
                    &&& a matches FallbackAction::Call(c) && call_config(config.providers@[old(self).current(*config)], c)
                    &&& *final(self) == (FallbackRun { any_ran: true, ..*old(self) })
                },
            },
    {
        let n = config.providers.len();
        let i = self.current_index(n);
        let provider = &config.providers[i];
        match pool {
            LanePool::Missing => {
                let mut m = String::from_str("no connection pool for lane '");
                m.append(provider.lane_id.as_str());
                m.append("' (masked egress requires a lane pool)");
                FallbackAction::Finish(Err(NodeError::Internal(m)))
            },
            LanePool::Unavailable => {
                self.last = Some(Failure::NoUpstreamClient);
                self.advance(n);
                self.next(config, lanes)
            },
            LanePool::Available => {
                self.any_ran = true;
                FallbackAction::Call(LlmConfig {
                    protocol: clone_opt_string(&provider.protocol),
                    model: Some(provider.model.clone()),
                    temperature: None,
                    max_tokens: None,
                    stream: false,
                    lane_id: Some(provider.lane_id.clone()),
                })
            },
        }
    }

    /// Take in the outcome of the current provider's call: an answer ends
    /// the node; a failure is recorded and the next provider is tried.
    pub fn on_outcome(
        &mut self,
        config: &FallbackConfig,
        lanes: &LaneRegistry,
        outcome: Result<NodeOutput, NodeError>,
    ) -> (a: FallbackAction)
        requires
            old(self).wf(*config),
            old(self).round < old(self).rounds,
        ensures
            final(self).wf(*config),
            match outcome {
                Ok(o) => (a matches FallbackAction::Finish(Ok(x)) && x == o) && *final(self) == *old(self),
                Err(e) => {
                    let s = skip_missing(
                        *config,
                        *lanes,
                        FallbackRun { last: Some(Failure::Call(e)), ..*old(self) }.advanced(config.providers@.len() as int),
                    );
                    asks_next(*config, s, a) && settled(s, *final(self))
                },
            },
    {
        match outcome {
            Ok(o) => FallbackAction::Finish(Ok(o)),
            Err(e) => {
                let n = config.providers.len();
                self.last = Some(Failure::Call(e));
                self.advance(n);
                self.next(config, lanes)
            },
        }
    }
}

/// Some offset of a round reaches the provider index `i`.
pub open spec fn reached_in_round(start: int, n: int, i: int) -> bool {
    exists|o: int| 0 <= o < n && #[trigger] provider_index(start, o, n) == i
}

/// Each round tries every provider exactly once: the offsets of a round
/// reach each index of the provider list, and no two reach the same one.
pub proof fn each_provider_once_per_round(start: int, n: int)
    requires
        0 <= start < n,
    ensures
        forall|i: int| 0 <= i < n ==> #[trigger] reached_in_round(start, n, i),
        forall|o1: int, o2: int|
            0 <= o1 < n && 0 <= o2 < n && o1 != o2 ==> #[trigger] provider_index(start, o1, n) != #[trigger] provider_index(start, o2, n),
{
    assert forall|o: int| 0 <= o < n implies #[trigger] provider_index(start, o, n) == if start + o < n {
        start + o
    } else {
        start + o - n
    } by {
        lemma_index_closed(start, o, n);
    }
    assert forall|i: int| 0 <= i < n implies #[trigger] reached_in_round(start, n, i) by {
        let o = if i >= start { i - start } else { i + n - start };
        assert(provider_index(start, o, n) == i);
    }
}

/// The index `offset` places after `start`, without the modulus.
proof fn lemma_index_closed(start: int, o: int, n: int)
    requires
        0 <= start < n,
        0 <= o < n,
    ensures
        provider_index(start, o, n) == if start + o < n {
            start + o
        } else {
            start + o - n
        },
{
    if start + o < n {
        vstd::arithmetic::div_mod::lemma_small_mod((start + o) as nat, n as nat);
    } else {
        vstd::arithmetic::div_mod::lemma_mod_sub_multiples_vanish(start + o, n);
        vstd::arithmetic::div_mod::lemma_small_mod((start + o - n) as nat, n as nat);
    }
}

/// Skipping never passes over a provider whose lane is registered: a run
/// either has finished its rounds or stands at such a provider.
pub proof fn skipping_stops_at_registered_lane(config: FallbackConfig, lanes: LaneRegistry, s: FallbackRun)
    requires
        s.wf(config),
    ensures
        ({
            let t = skip_missing(config, lanes, s);
            t.round >= t.rounds || lanes.has_lane(config.providers@[t.current(config)].lane_id@)
        }),
    decreases s.rounds - s.round, config.providers@.len() - s.offset,
{
    let n = config.providers@.len();
    if s.round < s.rounds {
        let i = provider_index(s.start as int, s.offset as int, n as int);
        if !lanes.has_lane(config.providers@[i].lane_id@) {
            lemma_index_closed(s.start as int, s.offset as int, n as int);
            let t = FallbackRun { last: Some(Failure::LaneNotFound(i as usize)), ..s }.advanced(n as int);
            skipping_stops_at_registered_lane(config, lanes, t);
        }
    }
}

} // verus!
