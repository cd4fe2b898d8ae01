//! Execution IR: a flat, validated execution graph with its nodes in
//! topological order, edges carrying their activation conditions.

use vstd::prelude::*;
use crate::json::{Json, JsonValue, json_as_bool};
use crate::text::opt_view;
use crate::workflow::error::WorkflowError;
use crate::workflow::graph::{has_edge, is_topo_order, lists_view, topo_order, well_formed, edge_count};
use crate::workflow::nodes::{RuntimeValue, json_path, normalize, spec_to_json, split_on};
use crate::workflow::schema::{Edge, Node, NodeConfig, NodeKind, Workflow, same_config};

verus! {

// ─── Edge conditions ────────────────────────────────────────────────────────

/// A condition that gates an execution edge.
#[derive(Debug, Clone)]
pub enum EdgeCondition {
    /// True when a field of the source node's output equals a value.
    FieldEquals { field: String, value: JsonValue },
    /// True when the source node's output port is (or, for a value other
    /// than `true`, is not) the given port.
    PortEquals { port: String, value: JsonValue },
}

/// Whether the condition holds of an output on `output_port` with value
/// `output_value`.
pub open spec fn spec_evaluate(c: EdgeCondition, output_port: Option<Seq<char>>, output_value: RuntimeValue) -> bool {
    match c {
        EdgeCondition::FieldEquals { field, value } => match json_path(spec_to_json(output_value), split_on(field@, '.')) {
            Some(j) => normalize(j) == value@,
            None => false,
        },
        EdgeCondition::PortEquals { port, value } => {
            let port_matches = output_port == Some(port@);
            if json_as_bool(value@) == Some(true) {
                port_matches
            } else {
                !port_matches
            }
        },
    }
}

impl EdgeCondition {
    /// Evaluate this condition against a node's output port and value.
    pub fn evaluate(&self, output_port: Option<&str>, output_value: &RuntimeValue) -> (b: bool)
        ensures
            b == spec_evaluate(*self, crate::sse::opt_str_view(output_port), *output_value),
    {
        match self {
            EdgeCondition::FieldEquals { field, value } => {
                match output_value.get_field(field.as_str()) {
                    Some(rv) => {
                        let j = rv.to_json();
                        j.json_eq(value)
                    },
                    None => false,
                }
            },
            EdgeCondition::PortEquals { port, value } => {
                let port_matches = match output_port {
                    Some(p) => crate::json::str_eq(p, port.as_str()),
                    None => false,
                };
                if value.as_bool() == Some(true) {
                    port_matches
                } else {
                    !port_matches
                }
            },
        }
    }
}

// ─── Execution IR types ─────────────────────────────────────────────────────

/// A compiled execution node.
#[derive(Debug, Clone)]
pub struct ExecNode {
    /// Unique node ID.
    pub id: String,
    /// The kind of node.
    pub kind: NodeKind,
    /// Configuration payload.
    pub config: NodeConfig,
    /// Node IDs that feed into this node, one per incoming edge.
    pub upstream: Vec<String>,
    /// Node IDs this node feeds into, one per outgoing edge.
    pub downstream: Vec<String>,
}

/// A compiled edge: data flow between two ports.
#[derive(Debug, Clone)]
pub struct ExecEdge {
    pub source: String,
    pub source_port: String,
    pub target: String,
    pub target_port: String,
    /// A condition that must hold for this edge to be active.
    pub condition: Option<EdgeCondition>,
}

/// A compiled execution plan: the runtime model of a validated workflow.
#[derive(Debug, Clone)]
pub struct ExecutionPlan {
    /// All nodes, in topological execution order.
    pub nodes: Vec<ExecNode>,
    /// All edges, in definition order.
    pub edges: Vec<ExecEdge>,
    /// For each node of `nodes`, its position in the workflow definition.
    pub positions: Vec<usize>,
}

// ─── The workflow graph ─────────────────────────────────────────────────────

/// The IDs of the nodes.
pub open spec fn node_ids(ns: Seq<Node>) -> Seq<Seq<char>> {
    ns.map_values(|n: Node| n.id@)
}

/// The position of `id` among `ids`, or -1.
pub open spec fn index_in(ids: Seq<Seq<char>>, id: Seq<char>) -> int
    decreases ids.len(),
{
    if ids.len() == 0 {
        -1
    } else if index_in(ids.drop_last(), id) >= 0 {
        index_in(ids.drop_last(), id)
    } else if ids.last() == id {
        ids.len() - 1
    } else {
        -1
    }
}

/// A validated workflow: node IDs are distinct and every edge joins two
/// of its nodes.
pub open spec fn validated(w: Workflow) -> bool {
    let ids = node_ids(w.nodes@);
    &&& forall|i: int, j: int| 0 <= i < ids.len() && 0 <= j < ids.len() && i != j ==> ids[i] != ids[j]
    &&& forall|e: int|
        0 <= e < w.edges@.len() ==> ids.contains((#[trigger] w.edges@[e]).source_node@) && ids.contains(
            w.edges@[e].target_node@,
        )
}

/// The targets, by position, of the edges out of the node `id`, in edge
/// order.
pub open spec fn targets_of(ids: Seq<Seq<char>>, edges: Seq<Edge>, id: Seq<char>) -> Seq<usize>
    decreases edges.len(),
{
    if edges.len() == 0 {
        Seq::empty()
    } else {
        let init = targets_of(ids, edges.drop_last(), id);
        if edges.last().source_node@ == id {
            init.push(index_in(ids, edges.last().target_node@) as usize)
        } else {
            init
        }
    }
}

/// The IDs of the targets of the edges out of `id`, in edge order.
pub open spec fn downstream_ids(edges: Seq<Edge>, id: Seq<char>) -> Seq<Seq<char>>
    decreases edges.len(),
{
    if edges.len() == 0 {
        Seq::empty()
    } else {
        let init = downstream_ids(edges.drop_last(), id);
        if edges.last().source_node@ == id {
            init.push(edges.last().target_node@)
        } else {
            init
        }
    }
}

/// The IDs of the sources of the edges into `id`, in edge order.
pub open spec fn upstream_ids(edges: Seq<Edge>, id: Seq<char>) -> Seq<Seq<char>>
    decreases edges.len(),
{
    if edges.len() == 0 {
        Seq::empty()
    } else {
        let init = upstream_ids(edges.drop_last(), id);
        if edges.last().target_node@ == id {
            init.push(edges.last().source_node@)
        } else {
            init
        }
    }
}

/// The workflow as a graph on node positions.
pub open spec fn workflow_graph(w: Workflow) -> Seq<Seq<usize>> {
    let ids = node_ids(w.nodes@);
    Seq::new(ids.len(), |u: int| targets_of(ids, w.edges@, ids[u]))
}

/// `x` is the execution node of the definition's node at position `i`.
pub open spec fn exec_node_of(w: Workflow, i: int, x: ExecNode) -> bool {
    &&& x.id@ == w.nodes@[i].id@
    &&& x.kind == w.nodes@[i].kind
    &&& same_config(w.nodes@[i].config, x.config)
    &&& x.upstream@.map_values(|s: String| s@) == upstream_ids(w.edges@, w.nodes@[i].id@)
    &&& x.downstream@.map_values(|s: String| s@) == downstream_ids(w.edges@, w.nodes@[i].id@)
}

/// The condition an edge gets: its own field condition, or, out of a
/// condition node, that the source's output port is the edge's port.
pub open spec fn edge_condition_of(w: Workflow, e: Edge, c: Option<EdgeCondition>) -> bool {
    match e.condition {
        Some(d) => c matches Some(EdgeCondition::FieldEquals { field, value }) && field@ == d.field@ && value@ == d.value@,
        None => {
            let s = index_in(node_ids(w.nodes@), e.source_node@);
            if 0 <= s && w.nodes@[s].kind == NodeKind::Condition {
                c matches Some(EdgeCondition::PortEquals { port, value }) && port@ == e.source_port@ && value@ == Json::Bool(true)
            } else {
                c is None
            }
        },
    }
}

/// `x` is the execution edge of the definition's edge `e`.
pub open spec fn exec_edge_of(w: Workflow, e: Edge, x: ExecEdge) -> bool {
    &&& x.source@ == e.source_node@
    &&& x.source_port@ == e.source_port@
    &&& x.target@ == e.target_node@
    &&& x.target_port@ == e.target_port@
    &&& edge_condition_of(w, e, x.condition)
}

impl ExecutionPlan {
    /// The plan compiled from `w`: its nodes are those of `w` in an order
    /// in which every edge goes forward, and its edges are those of `w`.
    pub open spec fn compiled_from(&self, w: Workflow) -> bool {
        &&& is_topo_order(workflow_graph(w), self.positions@)
        &&& self.nodes@.len() == w.nodes@.len()
        &&& forall|k: int| 0 <= k < self.nodes@.len() ==> exec_node_of(w, self.positions@[k] as int, #[trigger] self.nodes@[k])
        &&& self.edges@.len() == w.edges@.len()
        &&& forall|k: int| 0 <= k < self.edges@.len() ==> exec_edge_of(w, w.edges@[k], #[trigger] self.edges@[k])
    }
}

// ─── Compilation ────────────────────────────────────────────────────────────

proof fn lemma_index_in(ids: Seq<Seq<char>>, id: Seq<char>)
    ensures
        -1 <= index_in(ids, id) < ids.len(),
        index_in(ids, id) >= 0 ==> ids[index_in(ids, id)] == id && forall|k: int| 0 <= k < index_in(ids, id) ==> ids[k] != id,
        index_in(ids, id) == -1 ==> forall|k: int| 0 <= k < ids.len() ==> ids[k] != id,
    decreases ids.len(),
{
    if ids.len() > 0 {
        lemma_index_in(ids.drop_last(), id);
        assert forall|k: int| 0 <= k < ids.len() - 1 implies ids.drop_last()[k] == ids[k] by {}
    }
}

/// The position of `id` among `ids`, if it is there.
fn find_index(ids: &Vec<String>, id: &str) -> (r: Option<usize>)
    ensures
        match r {
            Some(i) => i as int == index_in(ids@.map_values(|s: String| s@), id@),
            None => index_in(ids@.map_values(|s: String| s@), id@) == -1,
        },
{
    let ghost v = ids@.map_values(|s: String| s@);
    proof {
        lemma_index_in(v, id@);
    }
    let mut i: usize = 0;
    while i < ids.len()
        invariant
            i <= ids@.len(),
            v == ids@.map_values(|s: String| s@),
            forall|k: int| 0 <= k < i ==> v[k] != id@,
            -1 <= index_in(v, id@) < v.len(),
            index_in(v, id@) >= 0 ==> v[index_in(v, id@)] == id@ && forall|k: int| 0 <= k < index_in(v, id@) ==> v[k] != id@,
            index_in(v, id@) == -1 ==> forall|k: int| 0 <= k < v.len() ==> v[k] != id@,
        decreases ids@.len() - i,
    {
        if crate::json::str_eq(ids[i].as_str(), id) {
            assert(v[i as int] == id@);
            return Some(i);
        }
        i = i + 1;
    }
    None
}

/// Adding an edge out of the node at `j` adds one edge to the graph.
proof fn lemma_edge_count_update(g: Seq<Seq<usize>>, j: int, x: usize)
    requires
        0 <= j < g.len(),
    ensures
        edge_count(g.update(j, g[j].push(x))) == edge_count(g) + 1,
    decreases g.len(),
{
    let h = g.update(j, g[j].push(x));
    if j == g.len() - 1 {
        assert(h.drop_last() =~= g.drop_last());
    } else {
        lemma_edge_count_update(g.drop_last(), j, x);
        assert(h.drop_last() =~= g.drop_last().update(j, g.drop_last()[j].push(x)));
    }
}

/// With distinct IDs and every edge out of a known node, the graph has one
/// edge per workflow edge.
proof fn lemma_graph_edge_count(ids: Seq<Seq<char>>, edges: Seq<Edge>)
    requires
        forall|i: int, j: int| 0 <= i < ids.len() && 0 <= j < ids.len() && i != j ==> ids[i] != ids[j],
        forall|e: int| 0 <= e < edges.len() ==> ids.contains((#[trigger] edges[e]).source_node@),
    ensures
        edge_count(Seq::new(ids.len(), |u: int| targets_of(ids, edges, ids[u]))) == edges.len(),
    decreases edges.len(),
{
    let g = Seq::new(ids.len(), |u: int| targets_of(ids, edges, ids[u]));
    if edges.len() == 0 {
        lemma_edge_count_zero(g);
    } else {
        let init = edges.drop_last();
        let e = edges.last();
        assert forall|k: int| 0 <= k < init.len() implies ids.contains((#[trigger] init[k]).source_node@) by {
            assert(init[k] == edges[k]);
        }
        lemma_graph_edge_count(ids, init);
        let g0 = Seq::new(ids.len(), |u: int| targets_of(ids, init, ids[u]));
        assert(ids.contains(edges[edges.len() - 1].source_node@));
        let j = choose|j: int| 0 <= j < ids.len() && ids[j] == e.source_node@;
        let x = index_in(ids, e.target_node@) as usize;
        assert(g =~= g0.update(j, g0[j].push(x))) by {
            assert forall|u: int| 0 <= u < ids.len() implies g[u] == g0.update(j, g0[j].push(x))[u] by {
                if u != j {
                    assert(ids[u] != e.source_node@);
                }
            }
        }
        lemma_edge_count_update(g0, j, x);
    }
}

proof fn lemma_edge_count_zero(g: Seq<Seq<usize>>)
    requires
        forall|u: int| 0 <= u < g.len() ==> (#[trigger] g[u]).len() == 0,
    ensures
        edge_count(g) == 0,
    decreases g.len(),
{
    if g.len() > 0 {
        lemma_edge_count_zero(g.drop_last());
    }
}

/// The edges of one node: the IDs upstream and downstream, and the
/// positions of its targets.
fn node_edges(ids: &Vec<String>, edges: &Vec<Edge>, id: &str) -> (r: (Vec<String>, Vec<String>, Vec<usize>))
    requires
        forall|e: int| 0 <= e < edges@.len() ==> ids@.map_values(|s: String| s@).contains((#[trigger] edges@[e]).target_node@),
    ensures
        r.0@.map_values(|s: String| s@) == upstream_ids(edges@, id@),
        r.1@.map_values(|s: String| s@) == downstream_ids(edges@, id@),
        r.2@ == targets_of(ids@.map_values(|s: String| s@), edges@, id@),
{
    let ghost v = ids@.map_values(|s: String| s@);
    let mut up: Vec<String> = Vec::new();
    let mut down: Vec<String> = Vec::new();
    let mut targets: Vec<usize> = Vec::new();
    let mut k: usize = 0;
    assert(edges@.subrange(0, 0) =~= Seq::<Edge>::empty());
    assert(up@.map_values(|s: String| s@) =~= Seq::<Seq<char>>::empty());
    assert(down@.map_values(|s: String| s@) =~= Seq::<Seq<char>>::empty());
    while k < edges.len()
        invariant
            k <= edges@.len(),
            v == ids@.map_values(|s: String| s@),
            forall|e: int| 0 <= e < edges@.len() ==> v.contains((#[trigger] edges@[e]).target_node@),
            up@.map_values(|s: String| s@) == upstream_ids(edges@.subrange(0, k as int), id@),
            down@.map_values(|s: String| s@) == downstream_ids(edges@.subrange(0, k as int), id@),
            targets@ == targets_of(v, edges@.subrange(0, k as int), id@),
        decreases edges@.len() - k,
    {
        let e = &edges[k];
        proof {
            assert(edges@.subrange(0, k + 1).drop_last() =~= edges@.subrange(0, k as int));
            assert(edges@.subrange(0, k + 1).last() == edges@[k as int]);
        }
        if crate::json::str_eq(e.source_node.as_str(), id) {
            let ghost d0 = down@.map_values(|s: String| s@);
            down.push(e.target_node.clone());
            assert(down@.map_values(|s: String| s@) =~= d0.push(e.target_node@));
            proof {
                lemma_index_in(v, e.target_node@);
                assert(v.contains(edges@[k as int].target_node@));
            }
            match find_index(ids, e.target_node.as_str()) {
                Some(t) => {
                    targets.push(t);
                },
                None => {
                    proof {
                        let q = choose|q: int| 0 <= q < v.len() && v[q] == e.target_node@;
                    }
                    targets.push(0);
                },
            }
        }
        if crate::json::str_eq(e.target_node.as_str(), id) {
            let ghost u0 = up@.map_values(|s: String| s@);
            up.push(e.source_node.clone());
            assert(up@.map_values(|s: String| s@) =~= u0.push(e.source_node@));
        }
        k = k + 1;
    }
    assert(edges@.subrange(0, edges@.len() as int) =~= edges@);
    (up, down, targets)
}

/// The condition an edge gets in the plan.
fn edge_condition(w: &Workflow, ids: &Vec<String>, e: &Edge) -> (c: Option<EdgeCondition>)
    requires
        ids@.map_values(|s: String| s@) == node_ids(w.nodes@),
    ensures
        edge_condition_of(*w, *e, c),
{
    match &e.condition {
        Some(d) => Some(EdgeCondition::FieldEquals { field: d.field.clone(), value: d.value.deep_clone() }),
        None => {
            proof {
                lemma_index_in(node_ids(w.nodes@), e.source_node@);
            }
            match find_index(ids, e.source_node.as_str()) {
                Some(s) => {
                    if w.nodes[s].kind == NodeKind::Condition {
                        let v = JsonValue::Bool(true);
                        Some(EdgeCondition::PortEquals { port: e.source_port.clone(), value: v })
                    } else {
                        None
                    }
                },
                None => None,
            }
        },
    }
}

impl ExecutionPlan {
    /// Build an execution plan from a validated workflow definition (node
    /// IDs distinct, every edge between two of its nodes): its nodes in an
    /// order in which every edge goes forward (Kahn's algorithm). It fails
    /// exactly when the workflow has a cycle, that is when no such order
    /// exists.
    pub fn compile(workflow: &Workflow) -> (r: Result<ExecutionPlan, WorkflowError>)
        requires
            validated(*workflow),
            workflow.edges@.len() < usize::MAX,
        ensures
            match r {
                Ok(plan) => plan.compiled_from(*workflow),
                Err(e) => (forall|order: Seq<usize>| !#[trigger] is_topo_order(workflow_graph(*workflow), order))
                    && (e matches WorkflowError::Validation(m) && m@ == "workflow contains a cycle"@),
            },
    {
        let n = workflow.nodes.len();
        let ghost g = workflow_graph(*workflow);
        let mut ids: Vec<String> = Vec::new();
        let mut i: usize = 0;
        while i < n
            invariant
                i <= n,
                n == workflow.nodes@.len(),
                ids@.len() == i,
                ids@.map_values(|s: String| s@) == node_ids(workflow.nodes@).subrange(0, i as int),
            decreases n - i,
        {
            let ghost pre = ids@.map_values(|s: String| s@);
            let ghost before = ids@;
            let id = workflow.nodes[i].id.clone();
            assert(id@ == workflow.nodes@[i as int].id@);
            ids.push(id);
            assert(ids@.len() == i + 1);
            assert(ids@[i as int]@ == node_ids(workflow.nodes@)[i as int]);
            assert forall|q: int| 0 <= q < i + 1 implies ids@.map_values(|s: String| s@)[q] == #[trigger] node_ids(workflow.nodes@).subrange(0, i + 1)[q] by {
                if q < i {
                    assert(pre[q] == node_ids(workflow.nodes@).subrange(0, i as int)[q]);
                    assert(ids@[q] == before[q]);
                }
            }
            assert(ids@.map_values(|s: String| s@) =~= node_ids(workflow.nodes@).subrange(0, i + 1));
            i = i + 1;
        }
        let ghost v = node_ids(workflow.nodes@);
        assert(ids@.map_values(|s: String| s@) =~= v);

        let mut ups: Vec<Vec<String>> = Vec::new();
        let mut downs: Vec<Vec<String>> = Vec::new();
        let mut graph: Vec<Vec<usize>> = Vec::new();
        let mut u: usize = 0;
        while u < n
            invariant
                u <= n,
                n == workflow.nodes@.len(),
                v == node_ids(workflow.nodes@),
                ids@.map_values(|s: String| s@) == v,
                validated(*workflow),
                ups@.len() == u,
                downs@.len() == u,
                graph@.len() == u,
                forall|q: int| 0 <= q < u ==> (#[trigger] ups@[q])@.map_values(|s: String| s@) == upstream_ids(workflow.edges@, v[q]),
                forall|q: int| 0 <= q < u ==> (#[trigger] downs@[q])@.map_values(|s: String| s@) == downstream_ids(workflow.edges@, v[q]),
                forall|q: int| 0 <= q < u ==> (#[trigger] graph@[q])@ == targets_of(v, workflow.edges@, v[q]),
            decreases n - u,
        {
            let (up, down, targets) = node_edges(&ids, &workflow.edges, workflow.nodes[u].id.as_str());
            ups.push(up);
            downs.push(down);
            graph.push(targets);
            u = u + 1;
        }
        assert(lists_view(graph@) =~= g);
        proof {
            assert forall|a: int, k: int| 0 <= a < g.len() && 0 <= k < g[a].len() implies (#[trigger] g[a][k] as int) < g.len() by {
                lemma_targets_in_range(v, workflow.edges@, v[a], k);
            }
            lemma_graph_edge_count(v, workflow.edges@);
        }
        let order = match topo_order(&graph) {
            Some(o) => o,
            None => {
                return Err(WorkflowError::Validation(String::from_str("workflow contains a cycle")));
            },
        };

        let mut nodes: Vec<ExecNode> = Vec::new();
        let mut k: usize = 0;
        while k < order.len()
            invariant
                k <= order@.len(),
                order@.len() == n,
                n == workflow.nodes@.len(),
                v == node_ids(workflow.nodes@),
                is_topo_order(g, order@),
                g.len() == n,
                ups@.len() == n,
                downs@.len() == n,
                forall|q: int| 0 <= q < n ==> (#[trigger] ups@[q])@.map_values(|s: String| s@) == upstream_ids(workflow.edges@, v[q]),
                forall|q: int| 0 <= q < n ==> (#[trigger] downs@[q])@.map_values(|s: String| s@) == downstream_ids(workflow.edges@, v[q]),
                nodes@.len() == k,
                forall|q: int| 0 <= q < k ==> exec_node_of(*workflow, order@[q] as int, #[trigger] nodes@[q]),
            decreases order@.len() - k,
        {
            let p = order[k];
            assert((p as int) < n);
            let node = &workflow.nodes[p];
            let up = crate::canonical::clone_strings(&ups[p]);
            let down = crate::canonical::clone_strings(&downs[p]);
            proof {
                assert(up@.map_values(|s: String| s@) =~= ups@[p as int]@.map_values(|s: String| s@));
                assert(down@.map_values(|s: String| s@) =~= downs@[p as int]@.map_values(|s: String| s@));
            }
            nodes.push(ExecNode { id: node.id.clone(), kind: node.kind, config: node.config.copy(), upstream: up, downstream: down });
            k = k + 1;
        }

        let mut edges: Vec<ExecEdge> = Vec::new();
        let mut e: usize = 0;
        while e < workflow.edges.len()
            invariant
                e <= workflow.edges@.len(),
                ids@.map_values(|s: String| s@) == node_ids(workflow.nodes@),
                edges@.len() == e,
                forall|q: int| 0 <= q < e ==> exec_edge_of(*workflow, workflow.edges@[q], #[trigger] edges@[q]),
            decreases workflow.edges@.len() - e,
        {
            let d = &workflow.edges[e];
            let condition = edge_condition(workflow, &ids, d);
            edges.push(ExecEdge {
                source: d.source_node.clone(),
                source_port: d.source_port.clone(),
                target: d.target_node.clone(),
                target_port: d.target_port.clone(),
                condition,
            });
            e = e + 1;
        }
        Ok(ExecutionPlan { nodes, edges, positions: order })
    }
}

/// Every target position is a node's.
proof fn lemma_targets_in_range(ids: Seq<Seq<char>>, edges: Seq<Edge>, id: Seq<char>, k: int)
    requires
        forall|e: int| 0 <= e < edges.len() ==> ids.contains((#[trigger] edges[e]).target_node@),
        0 <= k < targets_of(ids, edges, id).len(),
    ensures
        0 <= targets_of(ids, edges, id)[k] < ids.len(),
    decreases edges.len(),
{
    let init = edges.drop_last();
    assert forall|e: int| 0 <= e < init.len() implies ids.contains((#[trigger] init[e]).target_node@) by {
        assert(init[e] == edges[e]);
    }
    if k < targets_of(ids, init, id).len() {
        lemma_targets_in_range(ids, init, id, k);
    } else {
        lemma_index_in(ids, edges.last().target_node@);
        assert(ids.contains(edges[edges.len() - 1].target_node@));
        let q = choose|q: int| 0 <= q < ids.len() && ids[q] == edges.last().target_node@;
    }
}

/// An edge out of a node gives that node's graph an edge to the target's
/// position.
proof fn lemma_targets_contains(ids: Seq<Seq<char>>, edges: Seq<Edge>, e: int)
    requires
        0 <= e < edges.len(),
    ensures
        targets_of(ids, edges, edges[e].source_node@).contains(index_in(ids, edges[e].target_node@) as usize),
    decreases edges.len(),
{
    let id = edges[e].source_node@;
    let x = index_in(ids, edges[e].target_node@) as usize;
    let init = targets_of(ids, edges.drop_last(), id);
    if e == edges.len() - 1 {
        assert(targets_of(ids, edges, id) == init.push(x));
        assert(init.push(x)[init.len() as int] == x);
    } else {
        assert(edges.drop_last()[e] == edges[e]);
        lemma_targets_contains(ids, edges.drop_last(), e);
        let k = choose|k: int| 0 <= k < init.len() && init[k] == x;
        if edges.last().source_node@ == id {
            let y = index_in(ids, edges.last().target_node@) as usize;
            assert(targets_of(ids, edges, id) == init.push(y));
            assert(init.push(y)[k] == x);
        } else {
            assert(targets_of(ids, edges, id) == init);
        }
    }
}

/// Every edge of a compiled workflow goes forward in the plan: its source
/// node runs before its target node.
pub proof fn edges_go_forward(w: Workflow, plan: ExecutionPlan, e: int)
    requires
        validated(w),
        plan.compiled_from(w),
        0 <= e < w.edges@.len(),
    ensures
        exists|i: int, j: int|
            0 <= i < j < plan.nodes@.len() && (#[trigger] plan.nodes@[i]).id@ == w.edges@[e].source_node@
                && (#[trigger] plan.nodes@[j]).id@ == w.edges@[e].target_node@,
{
    let ids = node_ids(w.nodes@);
    let g = workflow_graph(w);
    let order = plan.positions@;
    let src = w.edges@[e].source_node@;
    let tgt = w.edges@[e].target_node@;
    lemma_index_in(ids, src);
    lemma_index_in(ids, tgt);
    assert(ids.contains(src) && ids.contains(tgt));
    let s = index_in(ids, src);
    let t = index_in(ids, tgt);
    if s < 0 {
        let q = choose|q: int| 0 <= q < ids.len() && ids[q] == src;
        assert(ids[q] != src);
    }
    if t < 0 {
        let q = choose|q: int| 0 <= q < ids.len() && ids[q] == tgt;
        assert(ids[q] != tgt);
    }
    lemma_targets_contains(ids, w.edges@, e);
    assert(g[s] == targets_of(ids, w.edges@, ids[s]));
    assert(has_edge(g, s, t));
    crate::workflow::graph::lemma_distinct_bound(order, usize::MAX + 1);
    crate::workflow::graph::lemma_permutation_complete(order, g.len() as int);
    assert(order.contains(s as usize));
    assert(order.contains(t as usize));
    let i = choose|i: int| 0 <= i < order.len() && order[i] == s as usize;
    let j = choose|j: int| 0 <= j < order.len() && order[j] == t as usize;
    assert(has_edge(g, order[i] as int, order[j] as int));
    assert(i < j);
    assert(exec_node_of(w, order[i] as int, plan.nodes@[i]));
    assert(exec_node_of(w, order[j] as int, plan.nodes@[j]));
    assert(ids[s] == w.nodes@[s].id@);
    assert(ids[t] == w.nodes@[t].id@);
}

impl ExecutionPlan {
    /// The topological index of a node: its position in `nodes`.
    pub fn index_of(&self, node_id: &str) -> (r: Option<usize>)
        ensures
            match r {
                Some(i) => i < self.nodes@.len() && self.nodes@[i as int].id@ == node_id@ && forall|k: int| 0 <= k < i ==> self.nodes@[k].id@ != node_id@,
                None => forall|k: int| 0 <= k < self.nodes@.len() ==> self.nodes@[k].id@ != node_id@,
            },
    {
        let mut i: usize = 0;
        while i < self.nodes.len()
            invariant
                i <= self.nodes@.len(),
                forall|k: int| 0 <= k < i ==> self.nodes@[k].id@ != node_id@,
            decreases self.nodes@.len() - i,
        {
            if crate::json::str_eq(self.nodes[i].id.as_str(), node_id) {
                return Some(i);
            }
            i = i + 1;
        }
        None
    }

    /// Look up a node by ID.
    pub fn get_node(&self, node_id: &str) -> (r: Option<&ExecNode>)
        ensures
            match r {
                Some(n) => exists|i: int| 0 <= i < self.nodes@.len() && self.nodes@[i] == *n && n.id@ == node_id@ && forall|k: int| 0 <= k < i ==> self.nodes@[k].id@ != node_id@,
                None => forall|k: int| 0 <= k < self.nodes@.len() ==> self.nodes@[k].id@ != node_id@,
            },
    {
        match self.index_of(node_id) {
            Some(i) => Some(&self.nodes[i]),
            None => None,
        }
    }

    /// The positions, in `edges`, of the edges out of a node.
    pub fn edges_from(&self, source: &str) -> (r: Vec<usize>)
        ensures
            forall|k: int| 0 <= k < r@.len() ==> (r@[k] as int) < self.edges@.len() && self.edges@[r@[k] as int].source@ == source@,
            forall|k: int, q: int| 0 <= k < q < r@.len() ==> r@[k] < r@[q],
            forall|e: int| 0 <= e < self.edges@.len() && self.edges@[e].source@ == source@ ==> r@.contains(e as usize),
    {
        let mut r: Vec<usize> = Vec::new();
        let mut i: usize = 0;
        while i < self.edges.len()
            invariant
                i <= self.edges@.len(),
                forall|k: int| 0 <= k < r@.len() ==> (r@[k] as int) < i && self.edges@[r@[k] as int].source@ == source@,
                forall|k: int, q: int| 0 <= k < q < r@.len() ==> r@[k] < r@[q],
                forall|e: int| 0 <= e < i && self.edges@[e].source@ == source@ ==> r@.contains(e as usize),
            decreases self.edges@.len() - i,
        {
            if crate::json::str_eq(self.edges[i].source.as_str(), source) {
                let ghost before = r@;
                r.push(i);
                proof {
                    assert forall|e: int| 0 <= e < i + 1 && self.edges@[e].source@ == source@ implies r@.contains(e as usize) by {
                        if e < i {
                            let q = choose|q: int| 0 <= q < before.len() && before[q] == e as usize;
                            assert(r@[q] == e as usize);
                        } else {
                            assert(r@[before.len() as int] == e as usize);
                        }
                    }
                }
            }
            i = i + 1;
        }
        r
    }
}

} // verus!
