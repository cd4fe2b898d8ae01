//! Stable capability representation.
//!
//! Capabilities describe what a provider or node supports. The compiler
//! checks compatibility between node requirements and provider capabilities
//! before execution begins.

use vstd::prelude::*;
use crate::canonical::ProtocolCapabilities;

verus! {

/// What a provider or node supports.
#[derive(Debug, Clone, Copy, PartialEq, Eq, Structural)]
pub struct Capabilities {
    /// Supports streaming responses.
    pub streaming: bool,
    /// Supports tool/function calling.
    pub tools: bool,
    /// Supports structured output (JSON schema).
    pub structured_output: bool,
    /// Supports reasoning / thinking blocks.
    pub reasoning: bool,
    /// Supports image inputs.
    pub vision: bool,
    /// Supports audio inputs.
    pub audio: bool,
    /// Supports citations in responses.
    pub citations: bool,
    /// Supports deferred (lazy) tool references.
    pub deferred_tools: bool,
    /// Supports cache hints.
    pub cache_hints: bool,
}

/// Number of capability fields.
pub const CAPABILITY_COUNT: usize = 9;

/// The capability with no flag set.
pub open spec fn no_caps() -> Capabilities {
    Capabilities {
        streaming: false,
        tools: false,
        structured_output: false,
        reasoning: false,
        vision: false,
        audio: false,
        citations: false,
        deferred_tools: false,
        cache_hints: false,
    }
}

impl Default for Capabilities {
    fn default() -> (c: Self)
        ensures
            c == no_caps(),
    {
        Capabilities {
            streaming: false,
            tools: false,
            structured_output: false,
            reasoning: false,
            vision: false,
            audio: false,
            citations: false,
            deferred_tools: false,
            cache_hints: false,
        }
    }
}

/// The flags in declaration order.
pub open spec fn spec_bools(c: Capabilities) -> Seq<bool> {
    seq![
        c.streaming,
        c.tools,
        c.structured_output,
        c.reasoning,
        c.vision,
        c.audio,
        c.citations,
        c.deferred_tools,
        c.cache_hints,
    ]
}

/// The field names in declaration order.
pub open spec fn spec_field_names() -> Seq<Seq<char>> {
    seq![
        "streaming"@,
        "tools"@,
        "structured_output"@,
        "reasoning"@,
        "vision"@,
        "audio"@,
        "citations"@,
        "deferred_tools"@,
        "cache_hints"@,
    ]
}

/// The names of the first `n` fields that are set in `a` and unset in `b`,
/// in declaration order.
pub open spec fn spec_excess_upto(a: Capabilities, b: Capabilities, n: int) -> Seq<Seq<char>>
    decreases n,
{
    if n <= 0 {
        Seq::empty()
    } else {
        let rest = spec_excess_upto(a, b, n - 1);
        if spec_bools(a)[n - 1] && !spec_bools(b)[n - 1] {
            rest.push(spec_field_names()[n - 1])
        } else {
            rest
        }
    }
}

/// The names of the fields set in `a` and unset in `b`, in declaration order.
pub open spec fn spec_excess(a: Capabilities, b: Capabilities) -> Seq<Seq<char>> {
    spec_excess_upto(a, b, 9)
}

/// Every flag set in `a` is set in `b`.
pub open spec fn covers(b: Capabilities, a: Capabilities) -> bool {
    forall|i: int| 0 <= i < 9 ==> spec_bools(a)[i] ==> spec_bools(b)[i]
}

proof fn lemma_excess_empty(a: Capabilities, b: Capabilities, n: int)
    requires
        0 <= n <= 9,
    ensures
        spec_excess_upto(a, b, n).len() == 0 <==> (forall|i: int|
            0 <= i < n ==> spec_bools(a)[i] ==> spec_bools(b)[i]),
    decreases n,
{
    if n > 0 {
        lemma_excess_empty(a, b, n - 1);
        lemma_excess_len(a, b, n - 1);
    }
}

proof fn lemma_excess_len(a: Capabilities, b: Capabilities, n: int)
    ensures
        n >= 0 ==> spec_excess_upto(a, b, n).len() <= n,
    decreases n,
{
    if n > 0 {
        lemma_excess_len(a, b, n - 1);
    }
}

fn field_name(i: usize) -> (s: &'static str)
    requires
        i < 9,
    ensures
        s@ == spec_field_names()[i as int],
{
    match i {
        0 => "streaming",
        1 => "tools",
        2 => "structured_output",
        3 => "reasoning",
        4 => "vision",
        5 => "audio",
        6 => "citations",
        7 => "deferred_tools",
        _ => "cache_hints",
    }
}

impl Capabilities {
    /// The names of the capability fields that are set in `self` but not in
    /// `other`, in declaration order.
    pub fn excess(&self, other: &Capabilities) -> (r: Vec<&'static str>)
        ensures
            r@.map_values(|s: &'static str| s@) == spec_excess(*self, *other),
    {
        let self_bools = self.bools();
        let other_bools = other.bools();
        let mut r: Vec<&'static str> = Vec::new();
        let mut i: usize = 0;
        while i < 9
            invariant
                i <= 9,
                self_bools@ == spec_bools(*self),
                other_bools@ == spec_bools(*other),
                r@.map_values(|s: &'static str| s@) == spec_excess_upto(*self, *other, i as int),
            decreases 9 - i,
        {
            if self_bools[i] && !other_bools[i] {
                let name = field_name(i);
                r.push(name);
                assert(r@.map_values(|s: &'static str| s@) =~= spec_excess_upto(
                    *self,
                    *other,
                    i as int,
                ).push(spec_field_names()[i as int]));
            }
            i = i + 1;
        }
        r
    }

    /// The capability flags in declaration order.
    fn bools(&self) -> (r: [bool; 9])
        ensures
            r@ == spec_bools(*self),
    {
        let r = [
            self.streaming,
            self.tools,
            self.structured_output,
            self.reasoning,
            self.vision,
            self.audio,
            self.citations,
            self.deferred_tools,
            self.cache_hints,
        ];
        assert(r@ =~= spec_bools(*self));
        r
    }

    /// Whether `other` has every capability that `self` requires.
    pub fn is_satisfied_by(&self, other: &Capabilities) -> (b: bool)
        ensures
            b == covers(*other, *self),
            b == (spec_excess(*self, *other).len() == 0),
    {
        let e = self.excess(other);
        proof {
            lemma_excess_empty(*self, *other, 9);
        }
        e.len() == 0
    }

    /// The workflow view of a protocol's capabilities.
    pub fn from_protocol(caps: &ProtocolCapabilities) -> (c: Self)
        ensures
            c == spec_from_protocol(*caps),
    {
        Capabilities {
            streaming: caps.streaming,
            tools: caps.tools,
            structured_output: caps.structured_output,
            reasoning: caps.reasoning,
            vision: caps.multimodal_input,
            audio: false,
            citations: false,
            deferred_tools: caps.deferred_tools,
            cache_hints: false,
        }
    }
}

pub open spec fn spec_from_protocol(caps: ProtocolCapabilities) -> Capabilities {
    Capabilities {
        streaming: caps.streaming,
        tools: caps.tools,
        structured_output: caps.structured_output,
        reasoning: caps.reasoning,
        vision: caps.multimodal_input,
        audio: false,
        citations: false,
        deferred_tools: caps.deferred_tools,
        cache_hints: false,
    }
}

/// A capability set is satisfied by itself, and by every set that covers a
/// set that covers it.
pub proof fn satisfaction_is_a_preorder(a: Capabilities, b: Capabilities, c: Capabilities)
    ensures
        covers(a, a),
        covers(b, a) && covers(c, b) ==> covers(c, a),
{
}

/// The empty requirement is satisfied by anything, and a missing capability
/// is named in the excess exactly when it is required and not offered.
pub proof fn excess_names_missing_capabilities(a: Capabilities, b: Capabilities)
    ensures
        spec_excess(no_caps(), b).len() == 0,
        forall|i: int|
            0 <= i < 9 ==> (spec_excess(a, b).contains(spec_field_names()[i]) <==> (
            spec_bools(a)[i] && !spec_bools(b)[i])),
{
    lemma_excess_empty(no_caps(), b, 9);
    lemma_excess_contains(a, b, 9);
}

proof fn lemma_names_distinct()
    ensures
        forall|i: int, j: int|
            0 <= i < 9 && 0 <= j < 9 && spec_field_names()[i] == spec_field_names()[j] ==> i == j,
{
    reveal_strlit("streaming");
    reveal_strlit("tools");
    reveal_strlit("structured_output");
    reveal_strlit("reasoning");
    reveal_strlit("vision");
    reveal_strlit("audio");
    reveal_strlit("citations");
    reveal_strlit("deferred_tools");
    reveal_strlit("cache_hints");
    let names = spec_field_names();
    let key = |s: Seq<char>| (s.len() as int, s[0]);
    assert(key(names[0]) == (9int, 's'));
    assert(key(names[1]) == (5int, 't'));
    assert(key(names[2]) == (17int, 's'));
    assert(key(names[3]) == (9int, 'r'));
    assert(key(names[4]) == (6int, 'v'));
    assert(key(names[5]) == (5int, 'a'));
    assert(key(names[6]) == (9int, 'c'));
    assert(key(names[7]) == (14int, 'd'));
    assert(key(names[8]) == (11int, 'c'));
}

proof fn lemma_excess_contains(a: Capabilities, b: Capabilities, n: int)
    requires
        0 <= n <= 9,
    ensures
        forall|i: int|
            0 <= i < 9 ==> (spec_excess_upto(a, b, n).contains(spec_field_names()[i]) <==> (
            i < n && spec_bools(a)[i] && !spec_bools(b)[i])),
    decreases n,
{
    lemma_names_distinct();
    if n > 0 {
        lemma_excess_contains(a, b, n - 1);
        let names = spec_field_names();
        let rest = spec_excess_upto(a, b, n - 1);
        if spec_bools(a)[n - 1] && !spec_bools(b)[n - 1] {
            assert forall|i: int| 0 <= i < 9 implies (rest.push(names[n - 1]).contains(names[i])
                <==> (rest.contains(names[i]) || i == n - 1)) by {
                if rest.push(names[n - 1]).contains(names[i]) {
                    let k = choose|k: int| 0 <= k < rest.len() + 1 && #[trigger] rest.push(names[n - 1])[k] == names[i];
                    if k < rest.len() {
                        assert(rest.contains(names[i]));
                    }
                }
                if rest.contains(names[i]) {
                    let k = choose|k: int| 0 <= k < rest.len() && #[trigger] rest[k] == names[i];
                    assert(rest.push(names[n - 1])[k] == names[i]);
                }
                if i == n - 1 {
                    assert(rest.push(names[n - 1])[rest.len() as int] == names[i]);
                }
            }
        }
    }
}

} // verus!
