//! Runtime snapshots: the compiled plans and lanes that requests run
//! against, published as one immutable unit.

use vstd::prelude::*;
use std::sync::Arc;
use std::time::Instant;
use core::time::Duration;
use crate::workflow::context::LaneRegistry;
use crate::workflow::execution::ExecutionPlan;

verus! {

/// A point in time of the monotonic clock, carried opaquely.
#[verifier::external_type_specification]
#[verifier::external_body]
pub struct ExInstant(Instant);

/// `Instant::now`. Nothing is claimed of the time it reads.
#[verifier::external_body]
fn now() -> Instant {
    Instant::now()
}

/// `Instant::elapsed`. Nothing is claimed of the time it reads.
#[verifier::external_body]
fn elapsed(at: &Instant) -> Duration {
    at.elapsed()
}

/// A compiled plan and the version of the workflow it came from.
#[derive(Debug)]
struct PlanEntry {
    plan: Arc<ExecutionPlan>,
    workflow_version: u64,
}

/// The plans of a snapshot: workflow ID, plan and workflow version.
pub type PlanTable = Seq<(Seq<char>, ExecutionPlan, u64)>;

/// The table of entries.
spec fn table_of(v: Seq<(String, PlanEntry)>) -> PlanTable {
    Seq::new(v.len(), |i: int| (v[i].0@, *v[i].1.plan, v[i].1.workflow_version))
}

/// The index of the entry for `id`, if any.
pub open spec fn plan_index(t: PlanTable, id: Seq<char>) -> Option<int> {
    if exists|i: int| 0 <= i < t.len() && (#[trigger] t[i]).0 == id {
        Some(choose|i: int| 0 <= i < t.len() && (#[trigger] t[i]).0 == id)
    } else {
        None
    }
}

/// No two entries share a workflow ID.
pub open spec fn distinct_ids(t: PlanTable) -> bool {
    forall|i: int, j: int| 0 <= i < t.len() && 0 <= j < t.len() && i != j ==> (#[trigger] t[i]).0 != (#[trigger] t[j]).0
}

/// `t` with the plan for `id` set to `plan` at version `version`: the entry
/// replaced where there is one, added at the end where there is none.
pub open spec fn table_set(t: PlanTable, id: Seq<char>, plan: ExecutionPlan, version: u64) -> PlanTable {
    match plan_index(t, id) {
        Some(i) => t.update(i, (id, plan, version)),
        None => t.push((id, plan, version)),
    }
}

/// An immutable snapshot of the runtime state.
#[derive(Debug)]
pub struct RuntimeSnapshot {
    wall_version: u64,
    plans: Vec<(String, PlanEntry)>,
    lanes: Arc<LaneRegistry>,
    published_at: Instant,
}

impl RuntimeSnapshot {
    /// The snapshot's wall version.
    pub closed spec fn spec_version(&self) -> u64 {
        self.wall_version
    }

    /// The snapshot's plans.
    pub closed spec fn spec_plans(&self) -> PlanTable {
        table_of(self.plans@)
    }

    /// The snapshot's lanes.
    pub closed spec fn spec_lanes(&self) -> LaneRegistry {
        *self.lanes
    }

    /// No workflow has two plans.
    pub open spec fn wf(&self) -> bool {
        distinct_ids(self.spec_plans())
    }

    /// An empty snapshot (no plans, no lanes).
    pub fn empty(wall_version: u64) -> (s: Self)
        ensures
            s.wf(),
            s.spec_version() == wall_version,
            s.spec_plans().len() == 0,
            s.spec_lanes().spec_lanes().len() == 0,
    {
        let s = RuntimeSnapshot {
            wall_version,
            plans: Vec::new(),
            lanes: Arc::new(LaneRegistry::new()),
            published_at: now(),
        };
        assert(s.spec_plans() =~= Seq::<(Seq<char>, ExecutionPlan, u64)>::empty());
        s
    }

    /// The snapshot's wall version.
    pub fn version(&self) -> (v: u64)
        ensures
            v == self.spec_version(),
    {
        self.wall_version
    }

    /// The position of the entry for `workflow_id`.
    fn find(&self, workflow_id: &str) -> (r: Option<usize>)
        requires
            self.wf(),
        ensures
            match r {
                Some(i) => plan_index(self.spec_plans(), workflow_id@) == Some(i as int),
                None => plan_index(self.spec_plans(), workflow_id@) is None,
            },
    {
        let ghost t = self.spec_plans();
        let mut i: usize = 0;
        while i < self.plans.len()
            invariant
                i <= self.plans@.len(),
                t == self.spec_plans(),
                t.len() == self.plans@.len(),
                distinct_ids(t),
                forall|k: int| 0 <= k < i ==> t[k].0 != workflow_id@,
            decreases self.plans@.len() - i,
        {
            if crate::json::str_eq(self.plans[i].0.as_str(), workflow_id) {
                assert(t[i as int].0 == workflow_id@);
                return Some(i);
            }
            i = i + 1;
        }
        None
    }

    /// The plan for a workflow.
    pub fn get_plan(&self, workflow_id: &str) -> (r: Option<&Arc<ExecutionPlan>>)
        requires
            self.wf(),
        ensures
            match plan_index(self.spec_plans(), workflow_id@) {
                Some(i) => r matches Some(p) && **p == self.spec_plans()[i].1,
                None => r is None,
            },
    {
        match self.find(workflow_id) {
            Some(i) => Some(&self.plans[i].1.plan),
            None => None,
        }
    }

    /// The workflow version of the plan for a workflow.
    pub fn workflow_version_for(&self, workflow_id: &str) -> (r: Option<u64>)
        requires
            self.wf(),
        ensures
            match plan_index(self.spec_plans(), workflow_id@) {
                Some(i) => r == Some(self.spec_plans()[i].2),
                None => r is None,
            },
    {
        match self.find(workflow_id) {
            Some(i) => Some(self.plans[i].1.workflow_version),
            None => None,
        }
    }

    /// The IDs of the workflows that have plans.
    pub fn workflow_ids(&self) -> (ids: Vec<String>)
        ensures
            ids@.len() == self.spec_plans().len(),
            forall|i: int| 0 <= i < ids@.len() ==> (#[trigger] ids@[i])@ == self.spec_plans()[i].0,
    {
        let mut ids: Vec<String> = Vec::new();
        let mut i: usize = 0;
        while i < self.plans.len()
            invariant
                i <= self.plans@.len(),
                ids@.len() == i,
                forall|k: int| 0 <= k < i ==> (#[trigger] ids@[k])@ == self.spec_plans()[k].0,
            decreases self.plans@.len() - i,
        {
            ids.push(self.plans[i].0.clone());
            i = i + 1;
        }
        ids
    }

    /// The snapshot's lanes.
    pub fn lanes(&self) -> (l: &LaneRegistry)
        ensures
            *l == self.spec_lanes(),
    {
        &self.lanes
    }

    /// How long ago the snapshot was built.
    pub fn age(&self) -> Duration {
        elapsed(&self.published_at)
    }

    /// How many plans the snapshot holds.
    pub fn plan_count(&self) -> (n: usize)
        ensures
            n == self.spec_plans().len(),
    {
        self.plans.len()
    }
}

/// Builds a snapshot from plans and lanes.
#[derive(Debug)]
pub struct RuntimeSnapshotBuilder {
    wall_version: u64,
    plans: Vec<(String, PlanEntry)>,
    lanes: Arc<LaneRegistry>,
}

impl RuntimeSnapshotBuilder {
    /// The version of the snapshot being built.
    pub closed spec fn spec_version(&self) -> u64 {
        self.wall_version
    }

    /// The plans gathered so far.
    pub closed spec fn spec_plans(&self) -> PlanTable {
        table_of(self.plans@)
    }

    /// The lanes of the snapshot being built.
    pub closed spec fn spec_lanes(&self) -> LaneRegistry {
        *self.lanes
    }

    /// No workflow has two plans.
    pub open spec fn wf(&self) -> bool {
        distinct_ids(self.spec_plans())
    }

    /// A builder for a snapshot of the given version, with no plans and no
    /// lanes.
    pub fn new(wall_version: u64) -> (b: Self)
        ensures
            b.wf(),
            b.spec_version() == wall_version,
            b.spec_plans().len() == 0,
            b.spec_lanes().spec_lanes().len() == 0,
    {
        let b = RuntimeSnapshotBuilder { wall_version, plans: Vec::new(), lanes: Arc::new(LaneRegistry::new()) };
        assert(b.spec_plans() =~= Seq::<(Seq<char>, ExecutionPlan, u64)>::empty());
        b
    }

    /// Use these lanes.
    pub fn with_lanes(self, lanes: Arc<LaneRegistry>) -> (b: Self)
        ensures
            b.spec_version() == self.spec_version(),
            b.spec_plans() == self.spec_plans(),
            b.spec_lanes() == *lanes,
    {
        RuntimeSnapshotBuilder { lanes, ..self }
    }

    /// The position of the entry for `workflow_id`.
    fn find(&self, workflow_id: &str) -> (r: Option<usize>)
        requires
            self.wf(),
        ensures
            match r {
                Some(i) => plan_index(self.spec_plans(), workflow_id@) == Some(i as int),
                None => plan_index(self.spec_plans(), workflow_id@) is None,
            },
    {
        let ghost t = self.spec_plans();
        let mut i: usize = 0;
        while i < self.plans.len()
            invariant
                i <= self.plans@.len(),
                t == self.spec_plans(),
                t.len() == self.plans@.len(),
                distinct_ids(t),
                forall|k: int| 0 <= k < i ==> t[k].0 != workflow_id@,
            decreases self.plans@.len() - i,
        {
            if crate::json::str_eq(self.plans[i].0.as_str(), workflow_id) {
                assert(t[i as int].0 == workflow_id@);
                return Some(i);
            }
            i = i + 1;
        }
        None
    }

    /// Add the plan for a workflow, at workflow version 0; a plan already
    /// there for that workflow is replaced.
    pub fn with_plan(self, workflow_id: String, plan: ExecutionPlan) -> (b: Self)
        requires
            self.wf(),
        ensures
            b.wf(),
            b.spec_version() == self.spec_version(),
            b.spec_lanes() == self.spec_lanes(),
            b.spec_plans() == table_set(self.spec_plans(), workflow_id@, plan, 0),
    {
        let ghost t = self.spec_plans();
        let found = self.find(workflow_id.as_str());
        let mut b = self;
        match found {
            Some(i) => {
                b.plans.set(i, (workflow_id, PlanEntry { plan: Arc::new(plan), workflow_version: 0 }));
                assert(b.spec_plans() =~= t.update(i as int, (workflow_id@, plan, 0u64)));
            },
            None => {
                b.plans.push((workflow_id, PlanEntry { plan: Arc::new(plan), workflow_version: 0 }));
                assert(b.spec_plans() =~= t.push((workflow_id@, plan, 0u64)));
            },
        }
        b
    }

    /// Set the workflow version of a workflow's plan; nothing changes when
    /// the workflow has no plan.
    pub fn with_plan_version(self, workflow_id: String, workflow_version: u64) -> (b: Self)
        requires
            self.wf(),
        ensures
            b.wf(),
            b.spec_version() == self.spec_version(),
            b.spec_lanes() == self.spec_lanes(),
            b.spec_plans() == match plan_index(self.spec_plans(), workflow_id@) {
                Some(i) => self.spec_plans().update(i, (workflow_id@, self.spec_plans()[i].1, workflow_version)),
                None => self.spec_plans(),
            },
    {
        let ghost t = self.spec_plans();
        let found = self.find(workflow_id.as_str());
        let mut b = self;
        match found {
            Some(i) => {
                let (id, entry) = b.plans.remove(i);
                let ghost removed = b.plans@;
                b.plans.insert(i, (id, PlanEntry { plan: entry.plan, workflow_version }));
                assert(b.spec_plans() =~= t.update(i as int, (workflow_id@, t[i as int].1, workflow_version)));
            },
            None => {},
        }
        b
    }

    /// The snapshot, stamped with the current time.
    pub fn build(self) -> (s: RuntimeSnapshot)
        requires
            self.wf(),
        ensures
            s.wf(),
            s.spec_version() == self.spec_version(),
            s.spec_plans() == self.spec_plans(),
            s.spec_lanes() == self.spec_lanes(),
    {
        RuntimeSnapshot {
            wall_version: self.wall_version,
            plans: self.plans,
            lanes: self.lanes,
            published_at: now(),
        }
    }
}

/// What is set is what is read back: after the plan for `id` is set, the
/// table still has distinct IDs, and its entry for `id` holds the new plan
/// and version.
pub proof fn set_then_lookup(t: PlanTable, id: Seq<char>, plan: ExecutionPlan, version: u64)
    requires
        distinct_ids(t),
    ensures
        distinct_ids(table_set(t, id, plan, version)),
        plan_index(table_set(t, id, plan, version), id) matches Some(i) && table_set(t, id, plan, version)[i] == (id, plan, version),
{
    let u = table_set(t, id, plan, version);
    match plan_index(t, id) {
        Some(i) => {
            assert(t[i].0 == id);
            assert(u[i] == (id, plan, version));
            assert forall|a: int, b: int| 0 <= a < u.len() && 0 <= b < u.len() && a != b implies (#[trigger] u[a]).0 != (#[trigger] u[b]).0 by {
                if a == i {
                    assert(t[b].0 != t[i].0);
                } else if b == i {
                    assert(t[a].0 != t[i].0);
                } else {
                    assert(t[a].0 != t[b].0);
                }
            }
            assert(u[i].0 == id);
            let j = choose|j: int| 0 <= j < u.len() && (#[trigger] u[j]).0 == id;
            assert(j == i) by {
                if j != i {
                    assert(u[j].0 != u[i].0);
                }
            }
        },
        None => {
            assert(forall|k: int| 0 <= k < t.len() ==> (#[trigger] t[k]).0 != id);
            let n = t.len() as int;
            assert(u[n] == (id, plan, version));
            assert forall|a: int, b: int| 0 <= a < u.len() && 0 <= b < u.len() && a != b implies (#[trigger] u[a]).0 != (#[trigger] u[b]).0 by {
                if a == n {
                    assert(u[b] == t[b]);
                } else if b == n {
                    assert(u[a] == t[a]);
                } else {
                    assert(u[a] == t[a] && u[b] == t[b]);
                }
            }
            assert(u[n].0 == id);
            let j = choose|j: int| 0 <= j < u.len() && (#[trigger] u[j]).0 == id;
            assert(j == n) by {
                if j != n {
                    assert(u[j].0 != u[n].0);
                }
            }
        },
    }
}

} // verus!
