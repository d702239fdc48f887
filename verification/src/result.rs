//! Per-tick movement outcomes, one per agent, reported back to the caller.

use vstd::prelude::*;
use std::collections::HashMap;

verus! {

broadcast use vstd::std_specs::hash::group_hash_axioms;

/// Outcome of movement resolution for a single agent in a given tick.
#[derive(Clone, Debug)]
pub enum MovementResult {
    /// The agent moved toward its target this tick.
    Moving,
    /// The agent is at its target (within the requested range).
    Arrived,
    /// The agent could not move this tick; recovery is in progress.
    Stuck { ticks: u16 },
    /// Movement failed and the caller should re-plan.
    Failed(MovementFailure),
}

/// Why movement failed for an agent.
#[derive(Clone, Debug)]
pub enum MovementFailure {
    /// The path search exhausted its budget or the room route is missing.
    PathNotFound,
    /// The agent stayed immobile past the final escalation tier.
    StuckTimeout { ticks: u16 },
    /// The destination or route room is disallowed by policy.
    RoomBlocked,
    /// A malformed request or missing agent.
    InternalError(String),
}

/// Per-tick collection of movement results, indexed by agent handle.
pub struct MovementResults {
    pub results: HashMap<u64, MovementResult>,
}

impl MovementResults {
    /// The results as a map from agent handle to outcome.
    pub open spec fn view(self) -> Map<u64, MovementResult> {
        self.results@
    }

    pub fn new() -> (r: MovementResults)
        ensures
            r@ == Map::<u64, MovementResult>::empty(),
    {
        MovementResults { results: HashMap::new() }
    }

    pub fn get(&self, handle: &u64) -> (r: Option<&MovementResult>)
        ensures
            match r {
                Some(v) => self@.contains_key(*handle) && *v == self@[*handle],
                None => !self@.contains_key(*handle),
            },
    {
        self.results.get(handle)
    }

    pub fn insert(&mut self, handle: u64, result: MovementResult)
        ensures
            final(self)@ == old(self)@.insert(handle, result),
    {
        self.results.insert(handle, result);
    }
}

impl Default for MovementResults {
    fn default() -> (r: MovementResults)
        ensures
            r@ == Map::<u64, MovementResult>::empty(),
    {
        MovementResults::new()
    }
}

} // verus!
