//! Entry points that compile a workflow against a list of lanes given as
//! `(id, base URL)` pairs.

use vstd::prelude::*;
use std::sync::Arc;
use crate::workflow::compiler::{CompileContext, compile_workflow, compiles_to, converts_to};
use crate::workflow::context::{LaneEntry, LaneRegistry};
use crate::workflow::error::WorkflowError;
use crate::workflow::execution::ExecutionPlan;
use crate::workflow::schema::Workflow;
use crate::workflow::snapshot::{RuntimeSnapshot, RuntimeSnapshotBuilder};

verus! {

/// What `url::Url::parse` makes of `s`: the parsed URL's text
/// (`Url::as_str`), or the message of its `ParseError`.
pub uninterp spec fn spec_url_parse(s: Seq<char>) -> Result<Seq<char>, Seq<char>>;

/// The error `url::Url::parse` reports of `s`, if any.
pub open spec fn spec_url_error(s: Seq<char>) -> Option<Seq<char>> {
    match spec_url_parse(s) {
        Ok(_) => None,
        Err(e) => Some(e),
    }
}

/// `url::Url::parse`, the URL and the error shown as text. Claimed: the
/// outcome depends on `s` alone and is named by `spec_url_parse`.
#[verifier::external_body]
fn parse_url(s: &str) -> (r: Result<String, String>)
    ensures
        match r {
            Ok(u) => spec_url_parse(s@) == Ok::<Seq<char>, Seq<char>>(u@),
            Err(m) => spec_url_parse(s@) == Err::<Seq<char>, Seq<char>>(m@),
        },
{
    match url::Url::parse(s) {
        Ok(u) => Ok(u.to_string()),
        Err(e) => Err(e.to_string()),
    }
}

/// A direct lane with no credentials.
fn direct_lane(id: String, base_url: String) -> (e: LaneEntry)
    ensures
        e.id == id,
        e.base_url == base_url,
        e.authorization is None,
        e.egress@ == "direct"@,
        e.proxy_url is None,
{
    LaneEntry { id, base_url, authorization: None, egress: String::from_str("direct"), proxy_url: None }
}

/// Some lane of the list has the ID `id`.
pub open spec fn lists_lane(lanes: Seq<(String, String)>, id: Seq<char>) -> bool {
    exists|k: int| 0 <= k < lanes.len() && (#[trigger] lanes[k]).0@ == id
}

/// `reg` holds exactly the lanes of the list, by ID.
pub open spec fn registers(reg: LaneRegistry, lanes: Seq<(String, String)>) -> bool {
    &&& reg.wf()
    &&& forall|id: Seq<char>| #[trigger] reg.has_lane(id) <==> lists_lane(lanes, id)
}

/// The parsed base URL of the last lane of the list with the ID `id`
/// whose URL parses.
pub open spec fn last_good_url(lanes: Seq<(String, String)>, id: Seq<char>) -> Option<Seq<char>>
    decreases lanes.len(),
{
    if lanes.len() == 0 {
        None
    } else {
        match spec_url_parse(lanes.last().1@) {
            Ok(u) => if lanes.last().0@ == id {
                Some(u)
            } else {
                last_good_url(lanes.drop_last(), id)
            },
            Err(_) => last_good_url(lanes.drop_last(), id),
        }
    }
}

/// Every lane of `reg` is a direct lane without credentials whose base URL
/// is the parsed URL of the last lane of the list with its ID whose URL
/// parses.
pub open spec fn holds_urls(reg: LaneRegistry, lanes: Seq<(String, String)>) -> bool {
    forall|i: int| 0 <= i < reg.spec_lanes().len() ==> {
        let e = #[trigger] reg.spec_lanes()[i];
        &&& last_good_url(lanes, e.id@) == Some(e.base_url@)
        &&& e.egress@ == "direct"@
        &&& e.authorization is None
        &&& e.proxy_url is None
    }
}

/// Registering the next lane of the list (or skipping it when its URL
/// does not parse) keeps the registry's URLs those of the longer list.
proof fn lemma_holds_urls_step(before: LaneRegistry, after: LaneRegistry, lanes: Seq<(String, String)>, i: int)
    requires
        0 <= i < lanes.len(),
        holds_urls(before, lanes.take(i)),
        spec_url_parse(lanes[i].1@) is Err ==> after == before,
        spec_url_parse(lanes[i].1@) matches Ok(u) ==> {
            &&& forall|k: int| 0 <= k < after.spec_lanes().len() && (#[trigger] after.spec_lanes()[k]).id@ == lanes[i].0@
                ==> after.spec_lanes()[k].id@ == lanes[i].0@ && after.spec_lanes()[k].base_url@ == u
                && after.spec_lanes()[k].egress@ == "direct"@ && after.spec_lanes()[k].authorization is None
                && after.spec_lanes()[k].proxy_url is None
            &&& forall|k: int| 0 <= k < after.spec_lanes().len() && (#[trigger] after.spec_lanes()[k]).id@ != lanes[i].0@
                ==> before.spec_lanes().contains(after.spec_lanes()[k])
        },
    ensures
        holds_urls(after, lanes.take(i + 1)),
{
    let t = lanes.take(i + 1);
    assert(t.drop_last() =~= lanes.take(i));
    assert(t.last() == lanes[i]);
    assert forall|k: int| 0 <= k < after.spec_lanes().len() implies {
        let e = #[trigger] after.spec_lanes()[k];
        &&& last_good_url(t, e.id@) == Some(e.base_url@)
        &&& e.egress@ == "direct"@
        &&& e.authorization is None
        &&& e.proxy_url is None
    } by {
        let e = after.spec_lanes()[k];
        match spec_url_parse(lanes[i].1@) {
            Ok(u) => {
                if e.id@ != lanes[i].0@ {
                    let j = choose|j: int| 0 <= j < before.spec_lanes().len() && before.spec_lanes()[j] == e;
                    assert(before.spec_lanes()[j] == e);
                }
            },
            Err(_) => {
                assert(before.spec_lanes()[k] == e);
            },
        }
    }
}

/// The first lane whose base URL does not parse.
pub open spec fn first_bad_url(lanes: Seq<(String, String)>) -> Option<int>
    decreases lanes.len(),
{
    if lanes.len() == 0 {
        None
    } else {
        match first_bad_url(lanes.drop_last()) {
            Some(i) => Some(i),
            None => if spec_url_error(lanes.last().1@) is Some {
                Some(lanes.len() - 1)
            } else {
                None
            },
        }
    }
}

/// The message of a lane whose base URL does not parse.
pub open spec fn bad_url_message(id: Seq<char>, error: Seq<char>) -> Seq<char> {
    "lane '"@ + id + "' has invalid base_url: "@ + error
}

/// Compile a workflow against lanes given as `(id, base URL)` pairs, each
/// a direct lane without credentials: a lane whose URL does not parse
/// fails the whole compile.
pub fn compile_workflow_with_lanes(workflow: &Workflow, lanes: &[(String, String)]) -> (r: Result<ExecutionPlan, WorkflowError>)
    requires
        workflow.edges@.len() < usize::MAX,
    ensures
        match first_bad_url(lanes@) {
            Some(i) => r matches Err(WorkflowError::NodeConfig(m)) && spec_url_error(lanes@[i].1@) matches Some(e)
                && m@ == bad_url_message(lanes@[i].0@, e),
            None => exists|reg: LaneRegistry, c: Result<ExecutionPlan, crate::workflow::compiler::CompileError>|
                registers(reg, lanes@) && holds_urls(reg, lanes@) && #[trigger] compiles_to(*workflow, reg, c) && match (c, r) {
                    (Ok(p), Ok(q)) => p == q,
                    (Err(e), Err(w)) => converts_to(e, w),
                    _ => false,
                },
        },
{
    let mut registry = LaneRegistry::new();
    let mut i: usize = 0;
    while i < lanes.len()
        invariant
            i <= lanes@.len(),
            registers(registry, lanes@.take(i as int)),
            holds_urls(registry, lanes@.take(i as int)),
            first_bad_url(lanes@.take(i as int)) is None,
        decreases lanes@.len() - i,
    {
        let ghost before = registry;
        assert(lanes@.take(i + 1).drop_last() =~= lanes@.take(i as int));
        let id = &lanes[i].0;
        match parse_url(lanes[i].1.as_str()) {
            Ok(base_url) => {
                registry.register(direct_lane(id.clone(), base_url));
                proof {
                    lemma_holds_urls_step(before, registry, lanes@, i as int);
                    assert forall|x: Seq<char>| #[trigger] registry.has_lane(x) <==> lists_lane(lanes@.take(i + 1), x) by {
                        if lists_lane(lanes@.take(i as int), x) {
                            let k = choose|k: int| 0 <= k < i && (#[trigger] lanes@.take(i as int)[k]).0@ == x;
                            assert(lanes@.take(i + 1)[k] == lanes@.take(i as int)[k]);
                        }
                        if lists_lane(lanes@.take(i + 1), x) {
                            let k = choose|k: int| 0 <= k < i + 1 && (#[trigger] lanes@.take(i + 1)[k]).0@ == x;
                            if k < i {
                                assert(lanes@.take(i as int)[k] == lanes@.take(i + 1)[k]);
                            }
                        }
                        assert(lanes@.take(i + 1)[i as int] == lanes@[i as int]);
                    }
                }
            },
            Err(e) => {
                proof {
                    assert(first_bad_url(lanes@.take(i + 1)) == Some(i as int));
                    lemma_first_bad_url_prefix(lanes@, i as int + 1);
                }
                let mut m = String::from_str("lane '");
                m.append(id.as_str());
                m.append("' has invalid base_url: ");
                m.append(e.as_str());
                return Err(WorkflowError::NodeConfig(m));
            },
        }
        i = i + 1;
    }
    assert(lanes@.take(lanes@.len() as int) =~= lanes@);
    let ctx = CompileContext { lanes: Arc::new(registry) };
    let c = compile_workflow(workflow, &ctx);
    match c {
        Ok(plan) => Ok(plan),
        Err(e) => Err(e.into_workflow_error()),
    }
}

/// A bad URL in a prefix is the first bad URL of the whole list.
proof fn lemma_first_bad_url_prefix(lanes: Seq<(String, String)>, n: int)
    requires
        0 <= n <= lanes.len(),
        first_bad_url(lanes.take(n)) is Some,
    ensures
        first_bad_url(lanes) == first_bad_url(lanes.take(n)),
    decreases lanes.len() - n,
{
    if n < lanes.len() {
        assert(lanes.take(n + 1).drop_last() =~= lanes.take(n));
        lemma_first_bad_url_prefix(lanes, n + 1);
    } else {
        assert(lanes.take(n) =~= lanes);
    }
}

/// Some lane of the list with a base URL that parses has the ID `id`.
pub open spec fn lists_good_lane(lanes: Seq<(String, String)>, id: Seq<char>) -> bool {
    exists|k: int| 0 <= k < lanes.len() && (#[trigger] lanes[k]).0@ == id && spec_url_error(lanes[k].1@) is None
}

/// Build a snapshot (version 1) holding one plan, at workflow version 0,
/// and the lanes of the list whose base URLs parse, each a direct lane
/// without credentials; the others are left out.
pub fn build_snapshot(workflow_id: &str, plan: ExecutionPlan, lanes: &[(String, String)]) -> (s: RuntimeSnapshot)
    ensures
        s.wf(),
        s.spec_version() == 1,
        s.spec_plans() == seq![(workflow_id@, plan, 0u64)],
        s.spec_lanes().wf(),
        forall|id: Seq<char>| #[trigger] s.spec_lanes().has_lane(id) <==> lists_good_lane(lanes@, id),
        holds_urls(s.spec_lanes(), lanes@),
{
    let mut registry = LaneRegistry::new();
    let mut i: usize = 0;
    while i < lanes.len()
        invariant
            i <= lanes@.len(),
            registry.wf(),
            forall|x: Seq<char>| #[trigger] registry.has_lane(x) <==> lists_good_lane(lanes@.take(i as int), x),
            holds_urls(registry, lanes@.take(i as int)),
        decreases lanes@.len() - i,
    {
        let ghost before = registry;
        match parse_url(lanes[i].1.as_str()) {
            Ok(base_url) => {
                registry.register(direct_lane(lanes[i].0.clone(), base_url));
            },
            Err(_) => {},
        }
        proof {
            lemma_holds_urls_step(before, registry, lanes@, i as int);
            assert forall|x: Seq<char>| #[trigger] registry.has_lane(x) <==> lists_good_lane(lanes@.take(i + 1), x) by {
                if lists_good_lane(lanes@.take(i as int), x) {
                    let k = choose|k: int| 0 <= k < i && (#[trigger] lanes@.take(i as int)[k]).0@ == x
                        && spec_url_error(lanes@.take(i as int)[k].1@) is None;
                    assert(lanes@.take(i + 1)[k] == lanes@.take(i as int)[k]);
                }
                if lists_good_lane(lanes@.take(i + 1), x) {
                    let k = choose|k: int| 0 <= k < i + 1 && (#[trigger] lanes@.take(i + 1)[k]).0@ == x
                        && spec_url_error(lanes@.take(i + 1)[k].1@) is None;
                    if k < i {
                        assert(lanes@.take(i as int)[k] == lanes@.take(i + 1)[k]);
                    }
                }
                assert(lanes@.take(i + 1)[i as int] == lanes@[i as int]);
            }
        }
        i = i + 1;
    }
    assert(lanes@.take(lanes@.len() as int) =~= lanes@);
    let builder = RuntimeSnapshotBuilder::new(1).with_lanes(Arc::new(registry));
    let builder = builder.with_plan(String::from_str(workflow_id), plan);
    assert(builder.spec_plans() =~= seq![(workflow_id@, plan, 0u64)]);
    builder.build()
}

} // verus!
