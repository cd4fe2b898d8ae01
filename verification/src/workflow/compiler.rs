//! The workflow compiler: structural and lane validation, then the
//! execution plan.

use vstd::prelude::*;
use std::sync::Arc;
use crate::workflow::context::LaneRegistry;
use crate::workflow::error::{WorkflowError, spec_workflow_message};
use crate::workflow::execution::{ExecutionPlan, node_ids, validated, index_in, workflow_graph};
use crate::workflow::graph::is_topo_order;
use crate::workflow::schema::{Node, NodeConfig, Workflow};

verus! {

/// What the compiler validates against.
#[derive(Debug)]
pub struct CompileContext {
    /// Available lanes.
    pub lanes: Arc<LaneRegistry>,
}

/// Compiler-specific validation errors.
#[derive(Debug)]
pub enum CompileError {
    /// The workflow's structure is invalid.
    Schema(String),
    /// A workflow references a lane that does not exist.
    LaneNotFound(String),
    /// The compiler failed internally.
    Internal(String),
    /// The workflow itself is structurally invalid.
    Workflow(WorkflowError),
}

/// `w` is the workflow error that the compile error `e` becomes.
pub open spec fn converts_to(e: CompileError, w: WorkflowError) -> bool {
    match e {
        CompileError::Schema(m) => w matches WorkflowError::Validation(x) && x == m,
        CompileError::Internal(m) => w matches WorkflowError::Validation(x) && x == m,
        CompileError::LaneNotFound(id) => w matches WorkflowError::Validation(x) && x@ == "lane '"@ + id@ + "' not found in registry"@,
        CompileError::Workflow(x) => w == x,
    }
}

impl CompileError {
    /// The error's message (its display form); a wrapped workflow error
    /// continues with that error's message.
    pub fn to_string(&self) -> (s: String)
        ensures
            match *self {
                CompileError::Schema(m) => s@ == "schema validation failed: "@ + m@,
                CompileError::LaneNotFound(id) => s@ == "lane '"@ + id@ + "' not found in registry"@,
                CompileError::Internal(m) => s@ == "compilation failed: "@ + m@,
                CompileError::Workflow(w) => s@ == "workflow error: "@ + crate::workflow::error::spec_workflow_message(w),
            },
    {
        let mut s = String::new();
        match self {
            CompileError::Schema(m) => {
                s.append("schema validation failed: ");
                s.append(m.as_str());
            },
            CompileError::LaneNotFound(id) => {
                s.append("lane '");
                s.append(id.as_str());
                s.append("' not found in registry");
            },
            CompileError::Internal(m) => {
                s.append("compilation failed: ");
                s.append(m.as_str());
            },
            CompileError::Workflow(w) => {
                s.append("workflow error: ");
                let m = w.to_string();
                s.append(m.as_str());
            },
        }
        s
    }
}

impl From<WorkflowError> for CompileError {
    fn from(e: WorkflowError) -> (r: Self)
        ensures
            r == CompileError::Workflow(e),
    {
        CompileError::Workflow(e)
    }
}

impl vstd::std_specs::convert::FromSpecImpl<WorkflowError> for CompileError {
    open spec fn obeys_from_spec() -> bool {
        true
    }

    open spec fn from_spec(e: WorkflowError) -> CompileError {
        CompileError::Workflow(e)
    }
}

impl CompileError {
    /// The workflow error this compile error stands for: schema and
    /// internal errors become validation errors with their message; a
    /// missing lane, a validation error naming it.
    pub fn into_workflow_error(self) -> (r: WorkflowError)
        ensures
            converts_to(self, r),
    {
        match self {
            CompileError::Schema(msg) => WorkflowError::Validation(msg),
            CompileError::Internal(msg) => WorkflowError::Validation(msg),
            CompileError::LaneNotFound(id) => {
                let mut m = String::from_str("lane '");
                m.append(id.as_str());
                m.append("' not found in registry");
                WorkflowError::Validation(m)
            },
            CompileError::Workflow(w) => w,
        }
    }
}

/// What lane validation finds wrong with a node.
pub enum LaneProblem {
    /// A lane is named that is not registered.
    NotFound(Seq<char>),
    /// The node needs a lane and cannot pick one.
    Ambiguous(Seq<char>),
}

/// The message of an LLM node without a lane when none is registered.
pub open spec fn no_lane_message() -> Seq<char> {
    "LLM node has no lane_id and no lane is registered"@
}

/// The message of an LLM node without a lane when several are registered.
pub open spec fn many_lanes_message() -> Seq<char> {
    "LLM node has no lane_id but multiple lanes exist; a lane_id is required"@
}

/// The first fallback provider whose lane is missing.
pub open spec fn missing_provider(ps: Seq<crate::workflow::schema::FallbackProvider>, reg: LaneRegistry) -> Option<Seq<char>>
    decreases ps.len(),
{
    if ps.len() == 0 {
        None
    } else {
        match missing_provider(ps.drop_last(), reg) {
            Some(id) => Some(id),
            None => if reg.has_lane(ps.last().lane_id@) {
                None
            } else {
                Some(ps.last().lane_id@)
            },
        }
    }
}

/// What is wrong with a node's lane references, if anything: an LLM node
/// names a missing lane, or names none while there is not exactly one; a
/// fallback node names a missing lane; a retry node's target names a
/// missing lane.
pub open spec fn node_lane_problem(n: Node, reg: LaneRegistry) -> Option<LaneProblem> {
    match n.config {
        NodeConfig::Llm(cfg) => match cfg.lane_id {
            Some(l) => if reg.has_lane(l@) {
                None
            } else {
                Some(LaneProblem::NotFound(l@))
            },
            None => if reg.spec_lanes().len() == 0 {
                Some(LaneProblem::Ambiguous(no_lane_message()))
            } else if reg.spec_lanes().len() > 1 {
                Some(LaneProblem::Ambiguous(many_lanes_message()))
            } else {
                None
            },
        },
        NodeConfig::Fallback(cfg) => match missing_provider(cfg.providers@, reg) {
            Some(id) => Some(LaneProblem::NotFound(id)),
            None => None,
        },
        NodeConfig::Retry(cfg) => match cfg.target.lane_id {
            Some(l) => if reg.has_lane(l@) {
                None
            } else {
                Some(LaneProblem::NotFound(l@))
            },
            None => None,
        },
        _ => None,
    }
}

/// The lane problem of the first node that has one.
pub open spec fn lane_problem(ns: Seq<Node>, reg: LaneRegistry) -> Option<LaneProblem>
    decreases ns.len(),
{
    if ns.len() == 0 {
        None
    } else {
        match lane_problem(ns.drop_last(), reg) {
            Some(p) => Some(p),
            None => node_lane_problem(ns.last(), reg),
        }
    }
}

/// `e` reports the lane problem `p`.
pub open spec fn reports(p: LaneProblem, e: CompileError) -> bool {
    match p {
        LaneProblem::NotFound(id) => e matches CompileError::LaneNotFound(x) && x@ == id,
        LaneProblem::Ambiguous(m) => e matches CompileError::Schema(x) && x@ == m,
    }
}

proof fn lemma_lane_problem_prefix(ns: Seq<Node>, reg: LaneRegistry, n: int)
    requires
        0 <= n <= ns.len(),
        lane_problem(ns.subrange(0, n), reg) is Some,
    ensures
        lane_problem(ns, reg) == lane_problem(ns.subrange(0, n), reg),
    decreases ns.len() - n,
{
    if n < ns.len() {
        assert(ns.subrange(0, n + 1).drop_last() =~= ns.subrange(0, n));
        lemma_lane_problem_prefix(ns, reg, n + 1);
    } else {
        assert(ns.subrange(0, n) =~= ns);
    }
}

/// The lane problem of one node.
#[verifier::loop_isolation(false)]
fn check_node_lanes(node: &Node, lanes: &LaneRegistry) -> (r: Result<(), CompileError>)
    ensures
        match node_lane_problem(*node, *lanes) {
            Some(p) => r matches Err(e) && reports(p, e),
            None => r is Ok,
        },
{
    match &node.config {
        NodeConfig::Llm(cfg) => match &cfg.lane_id {
            Some(lane_id) => {
                if lanes.get(lane_id.as_str()).is_none() {
                    return Err(CompileError::LaneNotFound(lane_id.clone()));
                }
                Ok(())
            },
            None => {
                // A lane-less LLM node is only unambiguous with exactly one
                // lane.
                if lanes.is_empty() {
                    return Err(CompileError::Schema(String::from_str("LLM node has no lane_id and no lane is registered")));
                }
                if lanes.len() > 1 {
                    return Err(CompileError::Schema(String::from_str("LLM node has no lane_id but multiple lanes exist; a lane_id is required")));
                }
                Ok(())
            },
        },
        NodeConfig::Fallback(cfg) => {
            let mut i: usize = 0;
            assert(cfg.providers@.subrange(0, 0) =~= Seq::<crate::workflow::schema::FallbackProvider>::empty());
            while i < cfg.providers.len()
                invariant
                    i <= cfg.providers@.len(),
                    missing_provider(cfg.providers@.subrange(0, i as int), *lanes) is None,
                decreases cfg.providers@.len() - i,
            {
                proof {
                    assert(cfg.providers@.subrange(0, i + 1).drop_last() =~= cfg.providers@.subrange(0, i as int));
                    assert(cfg.providers@.subrange(0, i + 1).last() == cfg.providers@[i as int]);
                }
                let p = &cfg.providers[i];
                if lanes.get(p.lane_id.as_str()).is_none() {
                    proof {
                        lemma_missing_provider_prefix(cfg.providers@, *lanes, i as int + 1);
                    }
                    return Err(CompileError::LaneNotFound(p.lane_id.clone()));
                }
                i = i + 1;
            }
            assert(cfg.providers@.subrange(0, cfg.providers@.len() as int) =~= cfg.providers@);
            Ok(())
        },
        NodeConfig::Retry(cfg) => match &cfg.target.lane_id {
            Some(lane_id) => {
                if lanes.get(lane_id.as_str()).is_none() {
                    return Err(CompileError::LaneNotFound(lane_id.clone()));
                }
                Ok(())
            },
            None => Ok(()),
        },
        _ => Ok(()),
    }
}

proof fn lemma_missing_provider_prefix(ps: Seq<crate::workflow::schema::FallbackProvider>, reg: LaneRegistry, n: int)
    requires
        0 <= n <= ps.len(),
        missing_provider(ps.subrange(0, n), reg) is Some,
    ensures
        missing_provider(ps, reg) == missing_provider(ps.subrange(0, n), reg),
    decreases ps.len() - n,
{
    if n < ps.len() {
        assert(ps.subrange(0, n + 1).drop_last() =~= ps.subrange(0, n));
        lemma_missing_provider_prefix(ps, reg, n + 1);
    } else {
        assert(ps.subrange(0, n) =~= ps);
    }
}

/// Check every lane reference of the workflow against the registry; the
/// error is that of the first node with a problem.
pub fn validate_lane_refs(workflow: &Workflow, ctx: &CompileContext) -> (r: Result<(), CompileError>)
    ensures
        match lane_problem(workflow.nodes@, *ctx.lanes) {
            Some(p) => r matches Err(e) && reports(p, e),
            None => r is Ok,
        },
{
    let lanes: &LaneRegistry = &ctx.lanes;
    let mut i: usize = 0;
    assert(workflow.nodes@.subrange(0, 0) =~= Seq::<Node>::empty());
    while i < workflow.nodes.len()
        invariant
            i <= workflow.nodes@.len(),
            *lanes == *ctx.lanes,
            lane_problem(workflow.nodes@.subrange(0, i as int), *lanes) is None,
        decreases workflow.nodes@.len() - i,
    {
        proof {
            assert(workflow.nodes@.subrange(0, i + 1).drop_last() =~= workflow.nodes@.subrange(0, i as int));
        }
        match check_node_lanes(&workflow.nodes[i], lanes) {
            Ok(()) => {},
            Err(e) => {
                proof {
                    lemma_lane_problem_prefix(workflow.nodes@, *lanes, i as int + 1);
                }
                return Err(e);
            },
        }
        i = i + 1;
    }
    assert(workflow.nodes@.subrange(0, workflow.nodes@.len() as int) =~= workflow.nodes@);
    Ok(())
}

/// Whether node IDs are distinct and every edge joins two nodes.
pub fn check_structure(workflow: &Workflow) -> (b: bool)
    ensures
        b == validated(*workflow),
{
    let ghost ids = node_ids(workflow.nodes@);
    let n = workflow.nodes.len();
    let mut i: usize = 0;
    while i < n
        invariant
            i <= n,
            n == workflow.nodes@.len(),
            ids == node_ids(workflow.nodes@),
            forall|a: int, b: int| 0 <= a < i && 0 <= b < n && a != b ==> ids[a] != ids[b],
        decreases n - i,
    {
        let mut j: usize = 0;
        while j < n
            invariant
                i < n,
                j <= n,
                n == workflow.nodes@.len(),
                ids == node_ids(workflow.nodes@),
                forall|a: int, b: int| 0 <= a < i && 0 <= b < n && a != b ==> ids[a] != ids[b],
                forall|b: int| 0 <= b < j && b != i ==> ids[i as int] != ids[b],
            decreases n - j,
        {
            if i != j && crate::json::str_eq(workflow.nodes[i].id.as_str(), workflow.nodes[j].id.as_str()) {
                assert(ids[i as int] == ids[j as int]);
                return false;
            }
            j = j + 1;
        }
        i = i + 1;
    }
    let mut e: usize = 0;
    while e < workflow.edges.len()
        invariant
            e <= workflow.edges@.len(),
            n == workflow.nodes@.len(),
            ids == node_ids(workflow.nodes@),
            forall|a: int, b: int| 0 <= a < n && 0 <= b < n && a != b ==> ids[a] != ids[b],
            forall|k: int| 0 <= k < e ==> ids.contains((#[trigger] workflow.edges@[k]).source_node@) && ids.contains(workflow.edges@[k].target_node@),
        decreases workflow.edges@.len() - e,
    {
        let edge = &workflow.edges[e];
        if !has_node(workflow, edge.source_node.as_str()) || !has_node(workflow, edge.target_node.as_str()) {
            return false;
        }
        e = e + 1;
    }
    true
}

fn has_node(workflow: &Workflow, id: &str) -> (b: bool)
    ensures
        b == node_ids(workflow.nodes@).contains(id@),
{
    let mut i: usize = 0;
    while i < workflow.nodes.len()
        invariant
            i <= workflow.nodes@.len(),
            forall|k: int| 0 <= k < i ==> node_ids(workflow.nodes@)[k] != id@,
        decreases workflow.nodes@.len() - i,
    {
        if crate::json::str_eq(workflow.nodes[i].id.as_str(), id) {
            assert(node_ids(workflow.nodes@)[i as int] == id@);
            return true;
        }
        i = i + 1;
    }
    false
}

/// The message of a structurally invalid workflow.
pub open spec fn structure_message() -> Seq<char> {
    "workflow has duplicate node ids or edges to unknown nodes"@
}

/// `r` is the outcome of compiling `workflow` against the lanes `lanes`: a
/// schema error for a structurally invalid workflow, else the first lane
/// problem, else the execution plan, which fails only on a cycle.
pub open spec fn compiles_to(workflow: Workflow, lanes: LaneRegistry, r: Result<ExecutionPlan, CompileError>) -> bool {
    &&& !validated(workflow) ==> (r matches Err(CompileError::Schema(m)) && m@ == structure_message())
    &&& validated(workflow) ==> match lane_problem(workflow.nodes@, lanes) {
        Some(p) => r matches Err(e) && reports(p, e),
        None => match r {
            Ok(plan) => plan.compiled_from(workflow),
            Err(e) => (forall|order: Seq<usize>| !#[trigger] is_topo_order(workflow_graph(workflow), order))
                && (e matches CompileError::Workflow(WorkflowError::Validation(m)) && m@ == "workflow contains a cycle"@),
        },
    }
}

/// Compile a workflow with validation against the data-plane registries:
/// first its structure (distinct node IDs, edges between known nodes), then
/// its lane references, then the execution plan.
pub fn compile_workflow(workflow: &Workflow, ctx: &CompileContext) -> (r: Result<ExecutionPlan, CompileError>)
    requires
        workflow.edges@.len() < usize::MAX,
    ensures
        compiles_to(*workflow, *ctx.lanes, r),
{
    if !check_structure(workflow) {
        return Err(CompileError::Schema(String::from_str("workflow has duplicate node ids or edges to unknown nodes")));
    }
    match validate_lane_refs(workflow, ctx) {
        Ok(()) => {},
        Err(e) => {
            return Err(e);
        },
    }
    match ExecutionPlan::compile(workflow) {
        Ok(plan) => Ok(plan),
        Err(e) => Err(CompileError::Workflow(e)),
    }
}

/// A node that names no lane: neither an LLM, a fallback nor a retry node.
pub open spec fn names_no_lane(n: Node) -> bool {
    !(n.config is Llm) && !(n.config is Fallback) && !(n.config is Retry)
}

/// When no node has a lane problem, the nodes have none.
proof fn lemma_no_lane_problem(ns: Seq<Node>, reg: LaneRegistry)
    requires
        forall|j: int| 0 <= j < ns.len() ==> (#[trigger] node_lane_problem(ns[j], reg)) is None,
    ensures
        lane_problem(ns, reg) is None,
    decreases ns.len(),
{
    if ns.len() > 0 {
        assert forall|j: int| 0 <= j < ns.drop_last().len() implies (#[trigger] node_lane_problem(ns.drop_last()[j], reg)) is None by {
            assert(ns.drop_last()[j] == ns[j]);
        }
        lemma_no_lane_problem(ns.drop_last(), reg);
        assert(node_lane_problem(ns[ns.len() - 1], reg) is None);
    }
}

/// When only the node at `i` can have a lane problem, the nodes' problem is
/// that node's.
proof fn lemma_single_lane_problem(ns: Seq<Node>, reg: LaneRegistry, i: int)
    requires
        0 <= i < ns.len(),
        forall|j: int| 0 <= j < ns.len() && j != i ==> (#[trigger] node_lane_problem(ns[j], reg)) is None,
    ensures
        lane_problem(ns, reg) == node_lane_problem(ns[i], reg),
    decreases ns.len(),
{
    let init = ns.drop_last();
    if i == ns.len() - 1 {
        assert forall|j: int| 0 <= j < init.len() implies (#[trigger] node_lane_problem(init[j], reg)) is None by {
            assert(init[j] == ns[j]);
        }
        lemma_no_lane_problem(init, reg);
    } else {
        assert forall|j: int| 0 <= j < init.len() && j != i implies (#[trigger] node_lane_problem(init[j], reg)) is None by {
            assert(init[j] == ns[j]);
        }
        lemma_single_lane_problem(init, reg, i);
        assert(init[i] == ns[i]);
        assert(node_lane_problem(ns[ns.len() - 1], reg) is None);
    }
}

/// A workflow whose only lane-referencing node is an LLM node without a
/// lane compiles past the lane check exactly when one lane is registered:
/// with none or several, the compile fails with a schema error.
pub proof fn lane_less_llm_needs_one_lane(
    workflow: Workflow,
    lanes: LaneRegistry,
    i: int,
    r: Result<ExecutionPlan, CompileError>,
)
    requires
        validated(workflow),
        0 <= i < workflow.nodes@.len(),
        workflow.nodes@[i].config matches NodeConfig::Llm(c) && c.lane_id is None,
        forall|j: int| 0 <= j < workflow.nodes@.len() && j != i ==> names_no_lane(#[trigger] workflow.nodes@[j]),
        compiles_to(workflow, lanes, r),
    ensures
        lanes.spec_lanes().len() != 1 ==> r matches Err(CompileError::Schema(_)),
        lanes.spec_lanes().len() == 1 ==> (r is Ok || (r matches Err(CompileError::Workflow(WorkflowError::Validation(m)))
            && m@ == "workflow contains a cycle"@)),
{
    assert forall|j: int| 0 <= j < workflow.nodes@.len() && j != i implies (#[trigger] node_lane_problem(workflow.nodes@[j], lanes)) is None by {
        assert(names_no_lane(workflow.nodes@[j]));
    }
    lemma_single_lane_problem(workflow.nodes@, lanes, i);
}

/// Every lane that the node names is registered, and a lane-less LLM node
/// has exactly one lane to use.
pub open spec fn node_lanes_registered(n: Node, reg: LaneRegistry) -> bool {
    match n.config {
        NodeConfig::Llm(c) => match c.lane_id {
            Some(l) => reg.has_lane(l@),
            None => reg.spec_lanes().len() == 1,
        },
        NodeConfig::Fallback(c) => forall|k: int| 0 <= k < c.providers@.len() ==> reg.has_lane(#[trigger] c.providers@[k].lane_id@),
        NodeConfig::Retry(c) => c.target.lane_id matches Some(l) ==> reg.has_lane(l@),
        _ => true,
    }
}

/// No missing provider lane: every provider's lane is registered.
proof fn lemma_no_missing_provider(ps: Seq<crate::workflow::schema::FallbackProvider>, reg: LaneRegistry)
    requires
        missing_provider(ps, reg) is None,
    ensures
        forall|k: int| 0 <= k < ps.len() ==> reg.has_lane(#[trigger] ps[k].lane_id@),
    decreases ps.len(),
{
    if ps.len() > 0 {
        lemma_no_missing_provider(ps.drop_last(), reg);
        assert forall|k: int| 0 <= k < ps.len() implies reg.has_lane(#[trigger] ps[k].lane_id@) by {
            if k < ps.len() - 1 {
                assert(ps.drop_last()[k] == ps[k]);
            }
        }
    }
}

/// No lane problem among the nodes: none in any one of them.
proof fn lemma_lane_problem_none(ns: Seq<Node>, reg: LaneRegistry)
    requires
        lane_problem(ns, reg) is None,
    ensures
        forall|i: int| 0 <= i < ns.len() ==> (#[trigger] node_lane_problem(ns[i], reg)) is None,
    decreases ns.len(),
{
    if ns.len() > 0 {
        lemma_lane_problem_none(ns.drop_last(), reg);
        assert forall|i: int| 0 <= i < ns.len() implies (#[trigger] node_lane_problem(ns[i], reg)) is None by {
            if i < ns.len() - 1 {
                assert(ns.drop_last()[i] == ns[i]);
            }
        }
    }
}

/// A workflow that compiles uses only registered lanes: every lane named by
/// an LLM node, a fallback provider or a retry node's target is in the
/// registry, and a lane-less LLM node has exactly one lane to use.
pub proof fn compiled_lanes_are_registered(workflow: Workflow, lanes: LaneRegistry, r: Result<ExecutionPlan, CompileError>)
    requires
        compiles_to(workflow, lanes, r),
        r is Ok,
    ensures
        forall|i: int| 0 <= i < workflow.nodes@.len() ==> node_lanes_registered(#[trigger] workflow.nodes@[i], lanes),
{
    lemma_lane_problem_none(workflow.nodes@, lanes);
    assert forall|i: int| 0 <= i < workflow.nodes@.len() implies node_lanes_registered(#[trigger] workflow.nodes@[i], lanes) by {
        let n = workflow.nodes@[i];
        assert(node_lane_problem(n, lanes) is None);
        if let NodeConfig::Fallback(c) = n.config {
            lemma_no_missing_provider(c.providers@, lanes);
        }
    }
}

} // verus!
