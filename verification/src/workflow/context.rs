//! The data-plane registries a workflow runs against: lanes (provider
//! endpoints) and the execution metadata a run reports.

use vstd::prelude::*;

verus! {

/// A single lane: an upstream provider endpoint.
#[derive(Debug, Clone)]
pub struct LaneEntry {
    /// Lane identifier.
    pub id: String,
    /// Base URL of the upstream provider, as the text of a parsed URL.
    pub base_url: String,
    /// Optional static authorization header value for requests routed
    /// through this lane.
    pub authorization: Option<String>,
    /// Egress mode: `direct` or `masked` (through a lane proxy).
    pub egress: String,
    /// Proxy URL for masked egress.
    pub proxy_url: Option<String>,
}

/// Registry of available lanes, at most one per ID.
#[derive(Debug)]
pub struct LaneRegistry {
    lanes: Vec<LaneEntry>,
}

impl LaneRegistry {
    /// The registered lanes.
    pub closed spec fn spec_lanes(&self) -> Seq<LaneEntry> {
        self.lanes@
    }

    /// No two lanes share an ID.
    pub open spec fn wf(&self) -> bool {
        forall|i: int, j: int|
            0 <= i < self.spec_lanes().len() && 0 <= j < self.spec_lanes().len() && i != j
                ==> self.spec_lanes()[i].id@ != self.spec_lanes()[j].id@
    }

    /// Whether a lane with this ID is registered.
    pub open spec fn has_lane(&self, id: Seq<char>) -> bool {
        exists|i: int| 0 <= i < self.spec_lanes().len() && (#[trigger] self.spec_lanes()[i]).id@ == id
    }

    /// Create an empty registry.
    pub fn new() -> (r: Self)
        ensures
            r.wf(),
            r.spec_lanes().len() == 0,
    {
        LaneRegistry { lanes: Vec::new() }
    }

    /// Register a lane, replacing one with the same ID.
    pub fn register(&mut self, entry: LaneEntry)
        requires
            old(self).wf(),
        ensures
            final(self).wf(),
            final(self).has_lane(entry.id@),
            forall|id: Seq<char>| id != entry.id@ ==> (final(self).has_lane(id) == old(self).has_lane(id)),
            old(self).has_lane(entry.id@) ==> final(self).spec_lanes().len() == old(self).spec_lanes().len(),
            !old(self).has_lane(entry.id@) ==> final(self).spec_lanes().len() == old(self).spec_lanes().len() + 1,
            forall|i: int| 0 <= i < final(self).spec_lanes().len() && (#[trigger] final(self).spec_lanes()[i]).id@ == entry.id@ ==> final(self).spec_lanes()[i] == entry,
            forall|i: int| 0 <= i < final(self).spec_lanes().len() && (#[trigger] final(self).spec_lanes()[i]).id@ != entry.id@
                ==> old(self).spec_lanes().contains(final(self).spec_lanes()[i]),
    {
        let mut i: usize = 0;
        while i < self.lanes.len()
            invariant
                i <= self.lanes@.len(),
                self.wf(),
                self.lanes@ == old(self).lanes@,
                forall|k: int| 0 <= k < i ==> self.lanes@[k].id@ != entry.id@,
            decreases self.lanes@.len() - i,
        {
            if crate::json::str_eq(self.lanes[i].id.as_str(), entry.id.as_str()) {
                let ghost before = self.lanes@;
                self.lanes.set(i, entry);
                proof {
                    assert forall|id: Seq<char>| id != self.lanes@[i as int].id@ implies (self.has_lane(id) == old(self).has_lane(id)) by {
                        if self.has_lane(id) {
                            let k = choose|k: int| 0 <= k < self.spec_lanes().len() && (#[trigger] self.spec_lanes()[k]).id@ == id;
                            assert(before[k].id@ == id);
                        }
                        if old(self).has_lane(id) {
                            let k = choose|k: int| 0 <= k < old(self).spec_lanes().len() && (#[trigger] old(self).spec_lanes()[k]).id@ == id;
                            assert(k != i);
                            assert(self.spec_lanes()[k].id@ == id);
                        }
                    }
                    assert(self.spec_lanes()[i as int].id@ == self.lanes@[i as int].id@);
                }
                return;
            }
            i = i + 1;
        }
        let ghost before = self.lanes@;
        self.lanes.push(entry);
        proof {
            assert forall|id: Seq<char>| id != self.lanes@[before.len() as int].id@ implies (self.has_lane(id) == old(self).has_lane(id)) by {
                if self.has_lane(id) {
                    let k = choose|k: int| 0 <= k < self.spec_lanes().len() && (#[trigger] self.spec_lanes()[k]).id@ == id;
                    assert(before[k].id@ == id);
                }
                if old(self).has_lane(id) {
                    let k = choose|k: int| 0 <= k < old(self).spec_lanes().len() && (#[trigger] old(self).spec_lanes()[k]).id@ == id;
                    assert(self.spec_lanes()[k].id@ == id);
                }
            }
            assert(self.spec_lanes()[before.len() as int].id@ == self.lanes@[before.len() as int].id@);
            assert(!old(self).has_lane(self.lanes@[before.len() as int].id@));
        }
    }

    /// Look up a lane by ID.
    pub fn get(&self, lane_id: &str) -> (r: Option<&LaneEntry>)
        ensures
            r is Some == self.has_lane(lane_id@),
            r matches Some(e) ==> e.id@ == lane_id@ && self.spec_lanes().contains(*e),
    {
        let mut i: usize = 0;
        while i < self.lanes.len()
            invariant
                i <= self.lanes@.len(),
                forall|k: int| 0 <= k < i ==> self.lanes@[k].id@ != lane_id@,
            decreases self.lanes@.len() - i,
        {
            if crate::json::str_eq(self.lanes[i].id.as_str(), lane_id) {
                assert(self.spec_lanes()[i as int].id@ == lane_id@);
                return Some(&self.lanes[i]);
            }
            i = i + 1;
        }
        None
    }

    /// The registered lanes.
    pub fn entries(&self) -> (r: &[LaneEntry])
        ensures
            r@ == self.spec_lanes(),
    {
        self.lanes.as_slice()
    }

    /// Number of registered lanes.
    pub fn len(&self) -> (n: usize)
        ensures
            n == self.spec_lanes().len(),
    {
        self.lanes.len()
    }

    /// Whether the registry has no lanes.
    pub fn is_empty(&self) -> (b: bool)
        ensures
            b == (self.spec_lanes().len() == 0),
    {
        self.lanes.len() == 0
    }
}

impl Default for LaneRegistry {
    fn default() -> (r: Self)
        ensures
            r.wf(),
            r.spec_lanes().len() == 0,
    {
        LaneRegistry::new()
    }
}

/// What snapshot and plan an execution carries, for observability.
#[derive(Debug, Clone)]
pub struct ExecutionMetadata {
    /// Snapshot wall version.
    pub snapshot_version: u64,
    /// Plan hash of the compiled workflow.
    pub plan_hash: String,
    /// The version of the workflow being executed.
    pub workflow_version: u64,
}

impl Default for ExecutionMetadata {
    fn default() -> (m: Self)
        ensures
            m.snapshot_version == 0,
            m.plan_hash@.len() == 0,
            m.workflow_version == 0,
    {
        ExecutionMetadata { snapshot_version: 0, plan_hash: String::new(), workflow_version: 0 }
    }
}

} // verus!
