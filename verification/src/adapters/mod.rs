//! Protocol adapters: each converts between one wire format and the
//! canonical model.
//!
//! The contracts relate inputs to outputs element by element. A list that is
//! translated with some elements dropped is described by [`filter_mapped`].

pub mod anthropic_messages;
pub mod openai_chat;
pub mod openai_responses;

use vstd::prelude::*;

verus! {

/// `outs` is what a filter-map over `ins` yields: in order, one output
/// related by `rel` to each input for which `emits` holds, and nothing for
/// the other inputs.
pub open spec fn filter_mapped<A, B>(
    ins: Seq<A>,
    outs: Seq<B>,
    emits: spec_fn(A) -> bool,
    rel: spec_fn(A, B) -> bool,
) -> bool
    decreases ins.len(),
{
    if ins.len() == 0 {
        outs.len() == 0
    } else if emits(ins.last()) {
        outs.len() > 0 && rel(ins.last(), outs.last()) && filter_mapped(
            ins.drop_last(),
            outs.drop_last(),
            emits,
            rel,
        )
    } else {
        filter_mapped(ins.drop_last(), outs, emits, rel)
    }
}

/// `outs` is what a map over `ins` yields: one output related by `rel` to
/// each input, in order.
pub open spec fn mapped<A, B>(ins: Seq<A>, outs: Seq<B>, rel: spec_fn(A, B) -> bool) -> bool {
    ins.len() == outs.len() && forall|i: int| 0 <= i < ins.len() ==> #[trigger] rel(ins[i], outs[i])
}

/// Extending a filter-map by one input.
pub(crate) proof fn lemma_filter_mapped_push<A, B>(
    ins: Seq<A>,
    outs: Seq<B>,
    emits: spec_fn(A) -> bool,
    rel: spec_fn(A, B) -> bool,
    x: A,
    y: B,
)
    requires
        filter_mapped(ins, outs, emits, rel),
    ensures
        emits(x) && rel(x, y) ==> filter_mapped(ins.push(x), outs.push(y), emits, rel),
        !emits(x) ==> filter_mapped(ins.push(x), outs, emits, rel),
{
    assert(ins.push(x).drop_last() =~= ins);
    assert(outs.push(y).drop_last() =~= outs);
}

/// One element of a map.
pub(crate) proof fn lemma_mapped_at<A, B>(ins: Seq<A>, outs: Seq<B>, rel: spec_fn(A, B) -> bool, i: int)
    requires
        mapped(ins, outs, rel),
        0 <= i < ins.len(),
    ensures
        rel(ins[i], outs[i]),
{
}

/// A filter-map in which every input emits is a map.
pub(crate) proof fn lemma_filter_mapped_all<A, B>(
    ins: Seq<A>,
    outs: Seq<B>,
    emits: spec_fn(A) -> bool,
    rel: spec_fn(A, B) -> bool,
)
    requires
        filter_mapped(ins, outs, emits, rel),
        forall|i: int| 0 <= i < ins.len() ==> emits(#[trigger] ins[i]),
    ensures
        outs.len() == ins.len(),
        forall|i: int| 0 <= i < ins.len() ==> rel(#[trigger] ins[i], outs[i]),
    decreases ins.len(),
{
    if ins.len() > 0 {
        assert forall|i: int| 0 <= i < ins.len() - 1 implies emits(#[trigger] ins.drop_last()[i]) by {
            assert(ins.drop_last()[i] == ins[i]);
        }
        assert(emits(ins[ins.len() - 1]));
        lemma_filter_mapped_all(ins.drop_last(), outs.drop_last(), emits, rel);
        assert forall|i: int| 0 <= i < ins.len() implies rel(#[trigger] ins[i], outs[i]) by {
            if i < ins.len() - 1 {
                assert(ins.drop_last()[i] == ins[i]);
                assert(outs.drop_last()[i] == outs[i]);
            }
        }
    }
}

/// A count of emitting inputs is at least zero and at most the number of
/// inputs.
pub(crate) proof fn lemma_count_emitting_bounds<A>(ins: Seq<A>, emits: spec_fn(A) -> bool)
    ensures
        0 <= count_emitting(ins, emits) <= ins.len(),
    decreases ins.len(),
{
    if ins.len() > 0 {
        lemma_count_emitting_bounds(ins.drop_last(), emits);
    }
}

/// Every output of a filter-map comes from an emitting input.
pub(crate) proof fn lemma_filter_mapped_outputs<A, B>(
    ins: Seq<A>,
    outs: Seq<B>,
    emits: spec_fn(A) -> bool,
    rel: spec_fn(A, B) -> bool,
    j: int,
) -> (i: int)
    requires
        filter_mapped(ins, outs, emits, rel),
        0 <= j < outs.len(),
    ensures
        0 <= i < ins.len(),
        emits(ins[i]),
        rel(ins[i], outs[j]),
    decreases ins.len(),
{
    if emits(ins.last()) {
        if j == outs.len() - 1 {
            ins.len() - 1
        } else {
            let k = lemma_filter_mapped_outputs(ins.drop_last(), outs.drop_last(), emits, rel, j);
            assert(ins.drop_last()[k] == ins[k]);
            assert(outs.drop_last()[j] == outs[j]);
            k
        }
    } else {
        let k = lemma_filter_mapped_outputs(ins.drop_last(), outs, emits, rel, j);
        assert(ins.drop_last()[k] == ins[k]);
        k
    }
}

/// The number of elements of `ins` for which `emits` holds.
pub open spec fn count_emitting<A>(ins: Seq<A>, emits: spec_fn(A) -> bool) -> int
    decreases ins.len(),
{
    if ins.len() == 0 {
        0
    } else {
        count_emitting(ins.drop_last(), emits) + if emits(ins.last()) {
            1int
        } else {
            0int
        }
    }
}

/// A filter-map yields one output per emitting input.
pub(crate) proof fn lemma_filter_mapped_len<A, B>(
    ins: Seq<A>,
    outs: Seq<B>,
    emits: spec_fn(A) -> bool,
    rel: spec_fn(A, B) -> bool,
)
    requires
        filter_mapped(ins, outs, emits, rel),
    ensures
        outs.len() == count_emitting(ins, emits),
    decreases ins.len(),
{
    if ins.len() > 0 {
        lemma_filter_mapped_len(ins.drop_last(), if emits(ins.last()) {
            outs.drop_last()
        } else {
            outs
        }, emits, rel);
    }
}

/// A filter-map yields nothing exactly when no input emits.
pub(crate) proof fn lemma_filter_mapped_empty<A, B>(
    ins: Seq<A>,
    outs: Seq<B>,
    emits: spec_fn(A) -> bool,
    rel: spec_fn(A, B) -> bool,
)
    requires
        filter_mapped(ins, outs, emits, rel),
    ensures
        outs.len() == 0 <==> forall|i: int| 0 <= i < ins.len() ==> !emits(#[trigger] ins[i]),
        outs.len() <= ins.len(),
    decreases ins.len(),
{
    if ins.len() > 0 {
        lemma_filter_mapped_empty(ins.drop_last(), if emits(ins.last()) {
            outs.drop_last()
        } else {
            outs
        }, emits, rel);
        assert forall|i: int| 0 <= i < ins.len() - 1 implies ins.drop_last()[i] == ins[i] by {}
        if !emits(ins.last()) && outs.len() == 0 {
            assert forall|i: int| 0 <= i < ins.len() implies !emits(#[trigger] ins[i]) by {
                if i < ins.len() - 1 {
                    assert(ins.drop_last()[i] == ins[i]);
                }
            }
        }
    }
}

/// The prefix of length `i + 1` is the prefix of length `i` and one more.
pub(crate) proof fn lemma_prefix_push<A>(s: Seq<A>, i: int)
    requires
        0 <= i < s.len(),
    ensures
        s.subrange(0, i + 1) == s.subrange(0, i).push(s[i]),
{
    assert(s.subrange(0, i + 1) =~= s.subrange(0, i).push(s[i]));
}

/// `cuts` splits `outs` into one segment per input of `ins`, each related
/// to its input by `rel`: segment `i` runs from `cuts[i]` to `cuts[i + 1]`.
pub open spec fn segments<A, B>(ins: Seq<A>, outs: Seq<B>, rel: spec_fn(A, Seq<B>) -> bool, cuts: Seq<int>) -> bool {
    &&& cuts.len() == ins.len() + 1
    &&& cuts[0] == 0
    &&& cuts[ins.len() as int] == outs.len()
    &&& forall|i: int| 0 <= i < ins.len() ==> cuts[i] <= #[trigger] cuts[i + 1]
    &&& forall|i: int| 0 <= i < ins.len() ==> #[trigger] rel(ins[i], outs.subrange(cuts[i], cuts[i + 1]))
}

/// `outs` is the concatenation of one segment per input, each segment
/// related to its input by `rel`.
pub open spec fn flat_mapped<A, B>(ins: Seq<A>, outs: Seq<B>, rel: spec_fn(A, Seq<B>) -> bool) -> bool {
    exists|cuts: Seq<int>| segments(ins, outs, rel, cuts)
}

/// The cuts that witness a flat map.
pub(crate) proof fn lemma_flat_mapped_cuts<A, B>(ins: Seq<A>, outs: Seq<B>, rel: spec_fn(A, Seq<B>) -> bool) -> (cuts: Seq<int>)
    requires
        flat_mapped(ins, outs, rel),
    ensures
        segments(ins, outs, rel, cuts),
{
    choose|cuts: Seq<int>| segments(ins, outs, rel, cuts)
}

/// One segment of a flat map, with its bounds.
pub(crate) proof fn lemma_segment_at<A, B>(ins: Seq<A>, outs: Seq<B>, rel: spec_fn(A, Seq<B>) -> bool, cuts: Seq<int>, i: int)
    requires
        segments(ins, outs, rel, cuts),
        0 <= i < ins.len(),
    ensures
        0 <= cuts[i] <= cuts[i + 1] <= outs.len(),
        rel(ins[i], outs.subrange(cuts[i], cuts[i + 1])),
{
    lemma_cuts_bounded(ins, outs, rel, cuts, i + 1);
    lemma_cuts_lower(ins, outs, rel, cuts, i);
    assert(cuts[i] <= cuts[i + 1]);
}

/// Nothing maps to nothing.
pub(crate) proof fn lemma_flat_mapped_empty<A, B>(rel: spec_fn(A, Seq<B>) -> bool)
    ensures
        flat_mapped(Seq::<A>::empty(), Seq::<B>::empty(), rel),
{
    assert(segments(Seq::<A>::empty(), Seq::<B>::empty(), rel, seq![0int]));
}

/// Extending a flat map by one input and its segment.
pub(crate) proof fn lemma_flat_mapped_push<A, B>(
    ins: Seq<A>,
    outs: Seq<B>,
    rel: spec_fn(A, Seq<B>) -> bool,
    x: A,
    seg: Seq<B>,
)
    requires
        flat_mapped(ins, outs, rel),
        rel(x, seg),
    ensures
        flat_mapped(ins.push(x), outs + seg, rel),
{
    let cuts = choose|cuts: Seq<int>| segments(ins, outs, rel, cuts);
    let all = outs + seg;
    let ys = ins.push(x);
    let c2 = cuts.push(all.len() as int);
    assert forall|i: int| 0 <= i < ys.len() implies c2[i] <= #[trigger] c2[i + 1] by {
        if i < ins.len() {
            assert(cuts[i] <= cuts[i + 1]);
        }
    }
    assert forall|i: int| 0 <= i < ys.len() implies #[trigger] rel(ys[i], all.subrange(c2[i], c2[i + 1])) by {
        if i < ins.len() {
            lemma_cuts_bounded(ins, outs, rel, cuts, i + 1);
            lemma_cuts_lower(ins, outs, rel, cuts, i);
            assert(cuts[i] <= cuts[i + 1]);
            assert(rel(ins[i], outs.subrange(cuts[i], cuts[i + 1])));
            assert(all.subrange(c2[i], c2[i + 1]) =~= outs.subrange(cuts[i], cuts[i + 1]));
        } else {
            assert(all.subrange(c2[i], c2[i + 1]) =~= seg);
        }
    }
    assert(segments(ys, all, rel, c2));
}

proof fn lemma_cuts_bounded<A, B>(ins: Seq<A>, outs: Seq<B>, rel: spec_fn(A, Seq<B>) -> bool, cuts: Seq<int>, i: int)
    requires
        segments(ins, outs, rel, cuts),
        0 <= i <= ins.len(),
    ensures
        0 <= cuts[i] <= outs.len(),
    decreases ins.len() - i,
{
    if i < ins.len() {
        lemma_cuts_bounded(ins, outs, rel, cuts, i + 1);
        assert(cuts[i] <= cuts[i + 1]);
        lemma_cuts_lower(ins, outs, rel, cuts, i);
    }
}

proof fn lemma_cuts_lower<A, B>(ins: Seq<A>, outs: Seq<B>, rel: spec_fn(A, Seq<B>) -> bool, cuts: Seq<int>, i: int)
    requires
        segments(ins, outs, rel, cuts),
        0 <= i <= ins.len(),
    ensures
        0 <= cuts[i],
    decreases i,
{
    if i > 0 {
        lemma_cuts_lower(ins, outs, rel, cuts, i - 1);
        let j = i - 1;
        assert(cuts[j] <= cuts[j + 1]);
    }
}

/// The error of the first element of `s` for which `err` gives one.
pub open spec fn first_error<A>(s: Seq<A>, err: spec_fn(A) -> Option<Seq<char>>) -> Option<Seq<char>>
    decreases s.len(),
{
    if s.len() == 0 {
        None
    } else {
        match first_error(s.drop_last(), err) {
            Some(e) => Some(e),
            None => err(s.last()),
        }
    }
}

/// Extending a list by one element leaves its first error, or adds that of
/// the new element.
pub(crate) proof fn lemma_first_error_push<A>(s: Seq<A>, err: spec_fn(A) -> Option<Seq<char>>, x: A)
    ensures
        first_error(s.push(x), err) == match first_error(s, err) {
            Some(e) => Some(e),
            None => err(x),
        },
{
    assert(s.push(x).drop_last() =~= s);
}

/// A list none of whose elements has an error has no first error.
pub(crate) proof fn lemma_first_error_none<A>(s: Seq<A>, err: spec_fn(A) -> Option<Seq<char>>)
    requires
        forall|k: int| 0 <= k < s.len() ==> (#[trigger] err(s[k])) is None,
    ensures
        first_error(s, err) is None,
    decreases s.len(),
{
    if s.len() > 0 {
        assert forall|k: int| 0 <= k < s.drop_last().len() implies (#[trigger] err(s.drop_last()[k])) is None by {
            assert(s.drop_last()[k] == s[k]);
        }
        lemma_first_error_none(s.drop_last(), err);
        assert(err(s[s.len() - 1]) is None);
    }
}

/// The first error of a prefix, when it has one, is the first error of the
/// whole.
pub(crate) proof fn lemma_first_error_prefix<A>(s: Seq<A>, err: spec_fn(A) -> Option<Seq<char>>, n: int)
    requires
        0 <= n <= s.len(),
        first_error(s.subrange(0, n), err) is Some,
    ensures
        first_error(s, err) == first_error(s.subrange(0, n), err),
    decreases s.len() - n,
{
    if n < s.len() {
        assert(s.subrange(0, n + 1).drop_last() =~= s.subrange(0, n));
        lemma_first_error_prefix(s, err, n + 1);
    } else {
        assert(s.subrange(0, n) =~= s);
    }
}

} // verus!
