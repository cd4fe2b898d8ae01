//! The node runtime: runs a compiled plan node by node, routing each
//! node's output to its downstream nodes through ports and skipping the
//! targets of inactive conditional edges.
//!
//! The runtime decides; the application executes. It asks
//! [`NodeRuntime::next_step`] what to run next, runs that node, and hands
//! the outcome back through [`NodeRuntime::record_output`] or
//! [`NodeRuntime::record_error`].

use vstd::prelude::*;
use crate::json::{Json, JsonValue, array_of};
use crate::text::opt_view;
use crate::workflow::error::{NodeError, WorkflowError};
use crate::workflow::execution::{EdgeCondition, ExecEdge, ExecutionPlan, spec_evaluate};
use crate::workflow::nodes::{NodeInput, NodeOutput, RuntimeValue, same_value, spec_to_json};
use crate::workflow::schema::NodeKind;

verus! {

// ─── Port data store ────────────────────────────────────────────────────────

/// Per-run data keyed by node ID and port name.
#[derive(Debug)]
pub struct PortDataStore {
    entries: Vec<(String, String, RuntimeValue)>,
}

/// The value stored for `node` and `port`: that of the first entry with
/// both.
pub open spec fn store_lookup(es: Seq<(String, String, RuntimeValue)>, node: Seq<char>, port: Seq<char>) -> Option<RuntimeValue>
    decreases es.len(),
{
    if es.len() == 0 {
        None
    } else {
        match store_lookup(es.drop_last(), node, port) {
            Some(v) => Some(v),
            None => if es.last().0@ == node && es.last().1@ == port {
                Some(es.last().2)
            } else {
                None
            },
        }
    }
}

/// The value of the first entry stored for `node`, on any port.
pub open spec fn store_first(es: Seq<(String, String, RuntimeValue)>, node: Seq<char>) -> Option<RuntimeValue>
    decreases es.len(),
{
    if es.len() == 0 {
        None
    } else {
        match store_first(es.drop_last(), node) {
            Some(v) => Some(v),
            None => if es.last().0@ == node {
                Some(es.last().2)
            } else {
                None
            },
        }
    }
}

proof fn lemma_lookup_prefix(es: Seq<(String, String, RuntimeValue)>, node: Seq<char>, port: Seq<char>, i: int)
    requires
        0 <= i < es.len(),
        es[i].0@ == node && es[i].1@ == port,
        forall|k: int| 0 <= k < i ==> !(es[k].0@ == node && es[k].1@ == port),
    ensures
        store_lookup(es, node, port) == Some(es[i].2),
        forall|v: RuntimeValue| store_lookup(es.update(i, (es[i].0, es[i].1, v)), node, port) == Some(v),
    decreases es.len(),
{
    if i < es.len() - 1 {
        lemma_lookup_prefix(es.drop_last(), node, port, i);
        assert forall|v: RuntimeValue| store_lookup(es.update(i, (es[i].0, es[i].1, v)), node, port) == Some(v) by {
            lemma_lookup_prefix(es.drop_last(), node, port, i);
            assert(es.update(i, (es[i].0, es[i].1, v)).drop_last() =~= es.drop_last().update(i, (es[i].0, es[i].1, v)));
        }
    } else {
        lemma_lookup_none(es.drop_last(), node, port);
        assert forall|v: RuntimeValue| store_lookup(es.update(i, (es[i].0, es[i].1, v)), node, port) == Some(v) by {
            assert(es.update(i, (es[i].0, es[i].1, v)).drop_last() =~= es.drop_last());
        }
    }
}

proof fn lemma_lookup_none(es: Seq<(String, String, RuntimeValue)>, node: Seq<char>, port: Seq<char>)
    requires
        forall|k: int| 0 <= k < es.len() ==> !(es[k].0@ == node && es[k].1@ == port),
    ensures
        store_lookup(es, node, port) is None,
    decreases es.len(),
{
    if es.len() > 0 {
        lemma_lookup_none(es.drop_last(), node, port);
    }
}

/// Replacing the value at `i` leaves the lookups of other keys as they were.
proof fn lemma_lookup_other(es: Seq<(String, String, RuntimeValue)>, i: int, v: RuntimeValue, node: Seq<char>, port: Seq<char>)
    requires
        0 <= i < es.len(),
        !(es[i].0@ == node && es[i].1@ == port),
    ensures
        store_lookup(es.update(i, (es[i].0, es[i].1, v)), node, port) == store_lookup(es, node, port),
    decreases es.len(),
{
    if es.len() > 0 && i < es.len() - 1 {
        lemma_lookup_other(es.drop_last(), i, v, node, port);
        assert(es.update(i, (es[i].0, es[i].1, v)).drop_last() =~= es.drop_last().update(i, (es[i].0, es[i].1, v)));
    } else {
        assert(es.update(i, (es[i].0, es[i].1, v)).drop_last() =~= es.drop_last());
    }
}

impl PortDataStore {
    /// The stored entries, in the order they were first stored.
    pub closed spec fn spec_entries(&self) -> Seq<(String, String, RuntimeValue)> {
        self.entries@
    }

    /// An empty store.
    pub fn new() -> (s: Self)
        ensures
            s.spec_entries().len() == 0,
    {
        PortDataStore { entries: Vec::new() }
    }

    /// Store a value for a node and port, replacing an earlier one.
    pub fn store(&mut self, node_id: &str, port: &str, value: RuntimeValue)
        ensures
            store_lookup(final(self).spec_entries(), node_id@, port@) == Some(value),
            forall|n: Seq<char>, p: Seq<char>| !(n == node_id@ && p == port@) ==> store_lookup(final(self).spec_entries(), n, p) == store_lookup(old(self).spec_entries(), n, p),
            forall|n: Seq<char>| n != node_id@ ==> store_first(final(self).spec_entries(), n) == store_first(old(self).spec_entries(), n),
            store_first(old(self).spec_entries(), node_id@) is None ==> store_first(final(self).spec_entries(), node_id@) == Some(value),
    {
        let mut i: usize = 0;
        while i < self.entries.len()
            invariant
                i <= self.entries@.len(),
                self.entries@ == old(self).entries@,
                forall|k: int| 0 <= k < i ==> !(self.entries@[k].0@ == node_id@ && self.entries@[k].1@ == port@),
            decreases self.entries@.len() - i,
        {
            if crate::json::str_eq(self.entries[i].0.as_str(), node_id) && crate::json::str_eq(self.entries[i].1.as_str(), port) {
                let ghost es = self.entries@;
                let n = self.entries[i].0.clone();
                let p = self.entries[i].1.clone();
                self.entries.set(i, (n, p, value));
                proof {
                    assert(self.entries@ == es.update(i as int, (es[i as int].0, es[i as int].1, value)));
                    lemma_lookup_prefix(es, node_id@, port@, i as int);
                    assert forall|n: Seq<char>, p: Seq<char>| !(n == node_id@ && p == port@) implies store_lookup(self.entries@, n, p) == store_lookup(es, n, p) by {
                        lemma_lookup_other(es, i as int, value, n, p);
                    }
                    assert forall|n: Seq<char>| n != node_id@ implies store_first(self.entries@, n) == store_first(es, n) by {
                        lemma_first_other(es, i as int, value, n);
                    }
                    lemma_first_some(es, node_id@, i as int);
                }
                return;
            }
            i = i + 1;
        }
        let ghost es = self.entries@;
        self.entries.push((String::from_str(node_id), String::from_str(port), value));
        proof {
            let e2 = self.entries@;
            assert(e2.drop_last() =~= es);
            lemma_lookup_none(es, node_id@, port@);
        }
    }

    /// The value for a node and port.
    pub fn get(&self, node_id: &str, port: &str) -> (r: Option<&RuntimeValue>)
        ensures
            match store_lookup(self.spec_entries(), node_id@, port@) {
                Some(v) => r matches Some(x) && *x == v,
                None => r is None,
            },
    {
        let mut i: usize = 0;
        while i < self.entries.len()
            invariant
                i <= self.entries@.len(),
                forall|k: int| 0 <= k < i ==> !(self.entries@[k].0@ == node_id@ && self.entries@[k].1@ == port@),
            decreases self.entries@.len() - i,
        {
            if crate::json::str_eq(self.entries[i].0.as_str(), node_id) && crate::json::str_eq(self.entries[i].1.as_str(), port) {
                proof {
                    lemma_lookup_prefix(self.entries@, node_id@, port@, i as int);
                }
                return Some(&self.entries[i].2);
            }
            i = i + 1;
        }
        proof {
            lemma_lookup_none(self.entries@, node_id@, port@);
        }
        None
    }

    /// The first value stored for a node, on any port.
    pub fn get_first(&self, node_id: &str) -> (r: Option<&RuntimeValue>)
        ensures
            match store_first(self.spec_entries(), node_id@) {
                Some(v) => r matches Some(x) && *x == v,
                None => r is None,
            },
    {
        let mut i: usize = 0;
        while i < self.entries.len()
            invariant
                i <= self.entries@.len(),
                forall|k: int| 0 <= k < i ==> self.entries@[k].0@ != node_id@,
            decreases self.entries@.len() - i,
        {
            if crate::json::str_eq(self.entries[i].0.as_str(), node_id) {
                proof {
                    lemma_first_at(self.entries@, node_id@, i as int);
                }
                return Some(&self.entries[i].2);
            }
            i = i + 1;
        }
        proof {
            lemma_first_none(self.entries@, node_id@);
        }
        None
    }
}

proof fn lemma_first_at(es: Seq<(String, String, RuntimeValue)>, node: Seq<char>, i: int)
    requires
        0 <= i < es.len(),
        es[i].0@ == node,
        forall|k: int| 0 <= k < i ==> es[k].0@ != node,
    ensures
        store_first(es, node) == Some(es[i].2),
    decreases es.len(),
{
    if i < es.len() - 1 {
        lemma_first_at(es.drop_last(), node, i);
    } else {
        lemma_first_none(es.drop_last(), node);
    }
}

proof fn lemma_first_none(es: Seq<(String, String, RuntimeValue)>, node: Seq<char>)
    requires
        forall|k: int| 0 <= k < es.len() ==> es[k].0@ != node,
    ensures
        store_first(es, node) is None,
    decreases es.len(),
{
    if es.len() > 0 {
        lemma_first_none(es.drop_last(), node);
    }
}

proof fn lemma_first_other(es: Seq<(String, String, RuntimeValue)>, i: int, v: RuntimeValue, node: Seq<char>)
    requires
        0 <= i < es.len(),
        es[i].0@ != node,
    ensures
        store_first(es.update(i, (es[i].0, es[i].1, v)), node) == store_first(es, node),
    decreases es.len(),
{
    if i < es.len() - 1 {
        lemma_first_other(es.drop_last(), i, v, node);
        assert(es.update(i, (es[i].0, es[i].1, v)).drop_last() =~= es.drop_last().update(i, (es[i].0, es[i].1, v)));
    } else {
        assert(es.update(i, (es[i].0, es[i].1, v)).drop_last() =~= es.drop_last());
    }
}

/// A node with an entry has a first value.
proof fn lemma_first_some(es: Seq<(String, String, RuntimeValue)>, node: Seq<char>, i: int)
    requires
        0 <= i < es.len(),
        es[i].0@ == node,
    ensures
        store_first(es, node) is Some,
    decreases es.len(),
{
    if i < es.len() - 1 {
        lemma_first_some(es.drop_last(), node, i);
    }
}

// ─── Gathering a node's input ───────────────────────────────────────────────

/// The target port of the first edge from `up` to `node`.
pub open spec fn edge_port(edges: Seq<ExecEdge>, up: Seq<char>, node: Seq<char>) -> Option<Seq<char>>
    decreases edges.len(),
{
    if edges.len() == 0 {
        None
    } else {
        match edge_port(edges.drop_last(), up, node) {
            Some(p) => Some(p),
            None => if edges.last().source@ == up && edges.last().target@ == node {
                Some(edges.last().target_port@)
            } else {
                None
            },
        }
    }
}

/// The values that reach `node` from its upstream nodes that have produced
/// one, each with the port its edge targets.
pub open spec fn gathered(
    upstream: Seq<String>,
    edges: Seq<ExecEdge>,
    es: Seq<(String, String, RuntimeValue)>,
    node: Seq<char>,
) -> Seq<(Option<Seq<char>>, RuntimeValue)>
    decreases upstream.len(),
{
    if upstream.len() == 0 {
        Seq::empty()
    } else {
        let init = gathered(upstream.drop_last(), edges, es, node);
        match store_first(es, upstream.last()@) {
            Some(v) => init.push((edge_port(edges, upstream.last()@, node), v)),
            None => init,
        }
    }
}

/// `r` is the input of `node`: the workflow input for a node with nothing
/// upstream; the one upstream value, on its port; nothing; or, for several,
/// the array of their JSON forms.
pub open spec fn gathers(
    node: Seq<char>,
    upstream: Seq<String>,
    edges: Seq<ExecEdge>,
    es: Seq<(String, String, RuntimeValue)>,
    r: NodeInput,
) -> bool {
    if upstream.len() == 0 {
        r.port is None && match store_lookup(es, "__input__"@, "out"@) {
            Some(v) => same_value(r.value, v),
            None => r.value is Null,
        }
    } else {
        let pv = gathered(upstream, edges, es, node);
        if pv.len() == 1 {
            opt_view(r.port) == pv[0].0 && same_value(r.value, pv[0].1)
        } else if pv.len() == 0 {
            r.port is None && r.value is Null
        } else {
            r.port is None && (r.value matches RuntimeValue::Json(j) && j@ == Json::Array(
                pv.map_values(|p: (Option<Seq<char>>, RuntimeValue)| spec_to_json(p.1)),
            ))
        }
    }
}

proof fn lemma_same_value_json(a: RuntimeValue, b: RuntimeValue)
    requires
        same_value(a, b),
    ensures
        spec_to_json(a) == spec_to_json(b),
{
}

/// The target port of the first edge from `up` to `node`.
fn find_edge_port(edges: &[ExecEdge], up: &str, node: &str) -> (r: Option<String>)
    ensures
        opt_view(r) == edge_port(edges@, up@, node@),
{
    let mut i: usize = 0;
    assert(edges@.subrange(0, 0) =~= Seq::<ExecEdge>::empty());
    while i < edges.len()
        invariant
            i <= edges@.len(),
            edge_port(edges@.subrange(0, i as int), up@, node@) is None,
        decreases edges@.len() - i,
    {
        proof {
            assert(edges@.subrange(0, i + 1).drop_last() =~= edges@.subrange(0, i as int));
        }
        if crate::json::str_eq(edges[i].source.as_str(), up) && crate::json::str_eq(edges[i].target.as_str(), node) {
            proof {
                lemma_edge_port_prefix(edges@, up@, node@, i as int + 1);
            }
            return Some(edges[i].target_port.clone());
        }
        i = i + 1;
    }
    assert(edges@.subrange(0, edges@.len() as int) =~= edges@);
    None
}

proof fn lemma_edge_port_prefix(edges: Seq<ExecEdge>, up: Seq<char>, node: Seq<char>, n: int)
    requires
        0 <= n <= edges.len(),
        edge_port(edges.subrange(0, n), up, node) is Some,
    ensures
        edge_port(edges, up, node) == edge_port(edges.subrange(0, n), up, node),
    decreases edges.len() - n,
{
    if n < edges.len() {
        assert(edges.subrange(0, n + 1).drop_last() =~= edges.subrange(0, n));
        lemma_edge_port_prefix(edges, up, node, n + 1);
    } else {
        assert(edges.subrange(0, n) =~= edges);
    }
}

/// Gather the input of a node from its upstream nodes.
pub fn gather_input(node_id: &str, upstream: &[String], edges: &[ExecEdge], store: &PortDataStore) -> (r: NodeInput)
    ensures
        gathers(node_id@, upstream@, edges@, store.spec_entries(), r),
{
    if upstream.len() == 0 {
        // An input node receives the workflow-level input.
        let value = match store.get("__input__", "out") {
            Some(v) => v.copy(),
            None => RuntimeValue::Null,
        };
        return NodeInput::message(value);
    }
    let ghost es = store.spec_entries();
    let mut ports: Vec<Option<String>> = Vec::new();
    let mut values: Vec<RuntimeValue> = Vec::new();
    let mut i: usize = 0;
    assert(upstream@.subrange(0, 0) =~= Seq::<String>::empty());
    while i < upstream.len()
        invariant
            i <= upstream@.len(),
            es == store.spec_entries(),
            ports@.len() == values@.len(),
            ports@.len() == gathered(upstream@.subrange(0, i as int), edges@, es, node_id@).len(),
            forall|k: int| 0 <= k < ports@.len() ==> opt_view(#[trigger] ports@[k]) == gathered(upstream@.subrange(0, i as int), edges@, es, node_id@)[k].0,
            forall|k: int| 0 <= k < values@.len() ==> same_value(#[trigger] values@[k], gathered(upstream@.subrange(0, i as int), edges@, es, node_id@)[k].1),
        decreases upstream@.len() - i,
    {
        proof {
            assert(upstream@.subrange(0, i + 1).drop_last() =~= upstream@.subrange(0, i as int));
            assert(upstream@.subrange(0, i + 1).last() == upstream@[i as int]);
        }
        let up = upstream[i].as_str();
        match store.get_first(up) {
            Some(v) => {
                let port = find_edge_port(edges, up, node_id);
                ports.push(port);
                values.push(v.copy());
            },
            None => {},
        }
        i = i + 1;
    }
    assert(upstream@.subrange(0, upstream@.len() as int) =~= upstream@);
    let ghost pv = gathered(upstream@, edges@, es, node_id@);
    if values.len() == 1 {
        let value = values.pop().unwrap();
        let port = ports.pop().unwrap();
        NodeInput { port, value }
    } else if values.len() == 0 {
        NodeInput::message(RuntimeValue::Null)
    } else {
        // Several upstream values: merged into an array.
        let mut items: Vec<JsonValue> = Vec::new();
        let mut k: usize = 0;
        while k < values.len()
            invariant
                k <= values@.len(),
                values@.len() == pv.len(),
                forall|q: int| 0 <= q < values@.len() ==> same_value(#[trigger] values@[q], pv[q].1),
                items@.len() == k,
                forall|q: int| 0 <= q < k ==> (#[trigger] items@[q])@ == spec_to_json(pv[q].1),
            decreases values@.len() - k,
        {
            proof {
                lemma_same_value_json(values@[k as int], pv[k as int].1);
            }
            items.push(values[k].to_json());
            k = k + 1;
        }
        let arr = array_of(items);
        assert(items@.map_values(|v: JsonValue| v@) =~= pv.map_values(|p: (Option<Seq<char>>, RuntimeValue)| spec_to_json(p.1)));
        NodeInput::message(RuntimeValue::Json(arr))
    }
}

// ─── The node runtime ───────────────────────────────────────────────────────

/// The state of one run of a plan.
#[derive(Debug)]
pub struct RunState {
    /// The values produced so far, by node and port.
    pub store: PortDataStore,
    /// IDs of the nodes to skip: targets of inactive conditional edges.
    pub skipped: Vec<String>,
    /// Position of the next node to consider.
    pub next: usize,
}

/// What the runtime asks for next.
#[derive(Debug)]
pub enum RunStep {
    /// Run the node at this position of the plan on this input.
    Execute { node: usize, input: NodeInput },
    /// The run is over, with the workflow's output or its error.
    Finished(Result<NodeOutput, WorkflowError>),
}

/// The node runtime: executes a compiled plan.
#[derive(Debug)]
pub struct NodeRuntime {
    plan: ExecutionPlan,
}

/// The IDs in a list of strings.
pub open spec fn id_views(v: Seq<String>) -> Seq<Seq<char>> {
    v.map_values(|s: String| s@)
}

/// The targets of the conditional edges out of `node` whose condition does
/// not hold of an output on `port` with value `value`, in edge order.
pub open spec fn inactive_targets(edges: Seq<ExecEdge>, node: Seq<char>, port: Option<Seq<char>>, value: RuntimeValue) -> Seq<Seq<char>>
    decreases edges.len(),
{
    if edges.len() == 0 {
        Seq::empty()
    } else {
        let init = inactive_targets(edges.drop_last(), node, port, value);
        let e = edges.last();
        if e.source@ == node && (e.condition matches Some(c) && !spec_evaluate(c, port, value)) {
            init.push(e.target@)
        } else {
            init
        }
    }
}

/// The value a node's conditions are evaluated on: its first stored value,
/// or null.
pub open spec fn eval_value(es: Seq<(String, String, RuntimeValue)>, node: Seq<char>) -> RuntimeValue {
    match store_first(es, node) {
        Some(v) => v,
        None => RuntimeValue::Null,
    }
}

/// The position of the first output node of the plan, if any.
pub open spec fn output_index(nodes: Seq<crate::workflow::execution::ExecNode>) -> Option<int>
    decreases nodes.len(),
{
    if nodes.len() == 0 {
        None
    } else {
        match output_index(nodes.drop_last()) {
            Some(i) => Some(i),
            None => if nodes.last().kind == NodeKind::Output {
                Some(nodes.len() - 1)
            } else {
                None
            },
        }
    }
}

/// `r` is the result of a run that ended with the store `es` and the
/// skipped IDs `skipped`: the value of the output node, or why there is
/// none.
pub open spec fn finishes(plan: ExecutionPlan, es: Seq<(String, String, RuntimeValue)>, skipped: Seq<Seq<char>>, r: Result<NodeOutput, WorkflowError>) -> bool {
    match output_index(plan.nodes@) {
        None => r matches Err(WorkflowError::Validation(m)) && m@ == "no output node in workflow"@,
        Some(i) => {
            let id = plan.nodes@[i].id@;
            if skipped.contains(id) {
                r matches Err(WorkflowError::Validation(m)) && m@ == "output node was skipped due to inactive conditional edges"@
            } else {
                match store_first(es, id) {
                    Some(v) => r matches Ok(o) && o.port is None && same_value(o.value, v),
                    None => r matches Err(WorkflowError::Validation(m)) && m@ == "no output produced"@,
                }
            }
        },
    }
}

proof fn lemma_output_index(nodes: Seq<crate::workflow::execution::ExecNode>)
    ensures
        output_index(nodes) matches Some(i) ==> 0 <= i < nodes.len() && nodes[i].kind == NodeKind::Output && forall|k: int| 0 <= k < i ==> nodes[k].kind != NodeKind::Output,
        output_index(nodes) is None ==> forall|k: int| 0 <= k < nodes.len() ==> nodes[k].kind != NodeKind::Output,
    decreases nodes.len(),
{
    if nodes.len() > 0 {
        lemma_output_index(nodes.drop_last());
        assert forall|k: int| 0 <= k < nodes.len() - 1 implies nodes.drop_last()[k] == nodes[k] by {}
    }
}

proof fn lemma_same_value_eval(c: EdgeCondition, port: Option<Seq<char>>, a: RuntimeValue, b: RuntimeValue)
    requires
        same_value(a, b),
    ensures
        spec_evaluate(c, port, a) == spec_evaluate(c, port, b),
{
}

/// Whether `id` is among the skipped IDs.
fn is_skipped(skipped: &Vec<String>, id: &str) -> (b: bool)
    ensures
        b == id_views(skipped@).contains(id@),
{
    let mut i: usize = 0;
    while i < skipped.len()
        invariant
            i <= skipped@.len(),
            forall|k: int| 0 <= k < i ==> id_views(skipped@)[k] != id@,
        decreases skipped@.len() - i,
    {
        if crate::json::str_eq(skipped[i].as_str(), id) {
            assert(id_views(skipped@)[i as int] == id@);
            return true;
        }
        i = i + 1;
    }
    false
}

impl NodeRuntime {
    /// The plan this runtime executes.
    pub closed spec fn spec_plan(&self) -> ExecutionPlan {
        self.plan
    }

    /// A runtime for a compiled plan.
    pub fn new(plan: ExecutionPlan) -> (r: Self)
        ensures
            r.spec_plan() == plan,
    {
        NodeRuntime { plan }
    }

    /// The plan this runtime executes.
    pub fn plan(&self) -> (p: &ExecutionPlan)
        ensures
            *p == self.spec_plan(),
    {
        &self.plan
    }

    /// The state of a new run: the workflow input stored as the output of
    /// the pseudo-node `__input__`, nothing skipped.
    pub fn start(&self, input: NodeInput) -> (s: RunState)
        ensures
            store_lookup(s.store.spec_entries(), "__input__"@, "out"@) == Some(input.value),
            s.skipped@.len() == 0,
            s.next == 0,
    {
        let mut store = PortDataStore::new();
        store.store("__input__", "out", input.value);
        RunState { store, skipped: Vec::new(), next: 0 }
    }

    /// What to do next: run the next node that is not skipped, on the
    /// input gathered from its upstream nodes, or end the run.
    pub fn next_step(&self, state: &mut RunState) -> (step: RunStep)
        requires
            old(state).next <= self.spec_plan().nodes@.len(),
        ensures
            final(state).store == old(state).store,
            final(state).skipped == old(state).skipped,
            old(state).next <= final(state).next <= self.spec_plan().nodes@.len(),
            forall|k: int| old(state).next <= k < final(state).next ==> id_views(old(state).skipped@).contains(#[trigger] self.spec_plan().nodes@[k].id@),
            match step {
                RunStep::Execute { node, input } => node == final(state).next && node < self.spec_plan().nodes@.len()
                    && !id_views(old(state).skipped@).contains(self.spec_plan().nodes@[node as int].id@)
                    && gathers(self.spec_plan().nodes@[node as int].id@, self.spec_plan().nodes@[node as int].upstream@, self.spec_plan().edges@, old(state).store.spec_entries(), input),
                RunStep::Finished(r) => final(state).next == self.spec_plan().nodes@.len()
                    && finishes(self.spec_plan(), old(state).store.spec_entries(), id_views(old(state).skipped@), r),
            },
    {
        let n = self.plan.nodes.len();
        while state.next < n && is_skipped(&state.skipped, self.plan.nodes[state.next].id.as_str())
            invariant
                old(state).next <= state.next <= n,
                n == self.spec_plan().nodes@.len(),
                state.store == old(state).store,
                state.skipped == old(state).skipped,
                forall|k: int| old(state).next <= k < state.next ==> id_views(old(state).skipped@).contains(#[trigger] self.spec_plan().nodes@[k].id@),
            decreases n - state.next,
        {
            state.next = state.next + 1;
        }
        if state.next == n {
            return RunStep::Finished(self.finish(state));
        }
        let node = &self.plan.nodes[state.next];
        let input = gather_input(node.id.as_str(), node.upstream.as_slice(), self.plan.edges.as_slice(), &state.store);
        RunStep::Execute { node: state.next, input }
    }

    /// Record the output of the node at `node`: store its value on its port
    /// (`out` when it names none), skip the targets of its conditional
    /// edges that the output does not satisfy, and move past it.
    pub fn record_output(&self, state: &mut RunState, node: usize, output: NodeOutput)
        requires
            node < self.spec_plan().nodes@.len(),
        ensures
            ({
                let id = self.spec_plan().nodes@[node as int].id@;
                let port = match output.port {
                    Some(p) => p@,
                    None => "out"@,
                };
                &&& store_lookup(final(state).store.spec_entries(), id, port) == Some(output.value)
                &&& forall|n: Seq<char>, p: Seq<char>| !(n == id && p == port) ==> store_lookup(final(state).store.spec_entries(), n, p) == store_lookup(old(state).store.spec_entries(), n, p)
                &&& forall|n: Seq<char>| n != id ==> store_first(final(state).store.spec_entries(), n) == store_first(old(state).store.spec_entries(), n)
                &&& id_views(final(state).skipped@) == id_views(old(state).skipped@) + inactive_targets(
                    self.spec_plan().edges@,
                    id,
                    opt_view(output.port),
                    eval_value(final(state).store.spec_entries(), id),
                )
                &&& final(state).next == node + 1
            }),
    {
        let ghost id = self.plan.nodes@[node as int].id@;
        let n = self.plan.nodes.len();
        let node_id = self.plan.nodes[node].id.as_str();
        let port_name = match &output.port {
            Some(p) => p.clone(),
            None => String::from_str("out"),
        };
        state.store.store(node_id, port_name.as_str(), output.value);
        let value = match state.store.get_first(node_id) {
            Some(v) => v.copy(),
            None => RuntimeValue::Null,
        };
        let ghost ev = eval_value(state.store.spec_entries(), id);
        assert(same_value(value, ev));
        let port: Option<&str> = match &output.port {
            Some(p) => Some(p.as_str()),
            None => None,
        };
        assert(crate::sse::opt_str_view(port) == opt_view(output.port));
        let edges = &self.plan.edges;
        let ghost base = id_views(state.skipped@);
        let ghost entries = state.store.spec_entries();
        let mut k: usize = 0;
        assert(edges@.subrange(0, 0) =~= Seq::<ExecEdge>::empty());
        assert(id_views(state.skipped@) =~= base + Seq::<Seq<char>>::empty());
        while k < edges.len()
            invariant
                k <= edges@.len(),
                *edges == self.spec_plan().edges,
                same_value(value, ev),
                crate::sse::opt_str_view(port) == opt_view(output.port),
                node_id@ == id,
                state.store.spec_entries() == entries,
                ev == eval_value(entries, id),
                id_views(state.skipped@) == base + inactive_targets(edges@.subrange(0, k as int), id, opt_view(output.port), ev),
            decreases edges@.len() - k,
        {
            let e = &edges[k];
            proof {
                assert(edges@.subrange(0, k + 1).drop_last() =~= edges@.subrange(0, k as int));
                assert(edges@.subrange(0, k + 1).last() == edges@[k as int]);
            }
            if crate::json::str_eq(e.source.as_str(), node_id) {
                match &e.condition {
                    Some(c) => {
                        let active = c.evaluate(port, &value);
                        proof {
                            lemma_same_value_eval(*c, opt_view(output.port), value, ev);
                        }
                        if !active {
                            let ghost before = id_views(state.skipped@);
                            state.skipped.push(e.target.clone());
                            assert(id_views(state.skipped@) =~= before.push(e.target@));
                        }
                    },
                    None => {},
                }
            }
            k = k + 1;
        }
        assert(edges@.subrange(0, edges@.len() as int) =~= edges@);
        state.next = node + 1;
    }

    /// The workflow error of a failed node.
    pub fn record_error(&self, node: usize, error: NodeError) -> (e: WorkflowError)
        requires
            node < self.spec_plan().nodes@.len(),
        ensures
            e matches WorkflowError::Runtime { node_id, source } && node_id@ == self.spec_plan().nodes@[node as int].id@ && source == error,
    {
        WorkflowError::Runtime { node_id: self.plan.nodes[node].id.clone(), source: error }
    }

    /// The result of a finished run: the value of the output node.
    fn finish(&self, state: &RunState) -> (r: Result<NodeOutput, WorkflowError>)
        ensures
            finishes(self.spec_plan(), state.store.spec_entries(), id_views(state.skipped@), r),
    {
        proof {
            lemma_output_index(self.plan.nodes@);
        }
        let mut i: usize = 0;
        while i < self.plan.nodes.len()
            invariant
                i <= self.plan.nodes@.len(),
                forall|k: int| 0 <= k < i ==> self.plan.nodes@[k].kind != NodeKind::Output,
                output_index(self.plan.nodes@) matches Some(o) ==> 0 <= o < self.plan.nodes@.len() && self.plan.nodes@[o].kind == NodeKind::Output && forall|k: int| 0 <= k < o ==> self.plan.nodes@[k].kind != NodeKind::Output,
                output_index(self.plan.nodes@) is None ==> forall|k: int| 0 <= k < self.plan.nodes@.len() ==> self.plan.nodes@[k].kind != NodeKind::Output,
            decreases self.plan.nodes@.len() - i,
        {
            if self.plan.nodes[i].kind == NodeKind::Output {
                let out = &self.plan.nodes[i];
                assert(output_index(self.plan.nodes@) == Some(i as int));
                if is_skipped(&state.skipped, out.id.as_str()) {
                    return Err(WorkflowError::Validation(String::from_str("output node was skipped due to inactive conditional edges")));
                }
                return match state.store.get_first(out.id.as_str()) {
                    Some(v) => Ok(NodeOutput::message(v.copy())),
                    None => Err(WorkflowError::Validation(String::from_str("no output produced"))),
                };
            }
            i = i + 1;
        }
        Err(WorkflowError::Validation(String::from_str("no output node in workflow")))
    }
}

} // verus!
