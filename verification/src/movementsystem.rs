//! The per-tick movement orchestrator: collects each agent's intent, drives
//! the path/stuck machine, resolves tile contention, executes the resulting
//! steps through the host traits, and reports one outcome per agent.

use vstd::prelude::*;
use crate::costcache::{
    CostMatrixDataSource, CostMatrixOptions, CostMatrixStorage, CostMatrixSystem, ProximityFilter,
};
use crate::costmatrix::DenseCostMatrix;
use crate::pathstate::{
    find_exact_head_index, find_trim_index, needs_regeneration, next_step, path_matches_request,
    spec_exact_head_index, trim_path, CreepMovementData, CreepPathData, StuckState,
    StuckThresholds,
};
use crate::position::{Position, RoomName};
use crate::request::{MovementIntent, MovementRequest, RoomOptions};
use crate::result::{MovementFailure, MovementResult, MovementResults};
use crate::traits::{CreepHandle, MovementSystemExternal, MovementVisualizer, PathfindingProvider};

verus! {

/// Radius of the occupant-avoidance proximity filter enabled by the first
/// stuck tier.
pub const NEARBY_OCCUPANT_RADIUS: u32 = 5;

/// Search operation budget granted per room on the route.
pub const SEARCH_OPS_PER_ROOM: u32 = 2000;

/// Rooms beyond this count no longer grow the search budget.
pub const SEARCH_BUDGET_ROOM_CAP: u32 = 1024;

/// The operation budget handed to the path search: one allotment per room
/// on the route (capped), doubled under the second stuck tier.
pub open spec fn spec_search_budget(room_count: int, double: bool) -> u32 {
    let base: u32 = if room_count >= SEARCH_BUDGET_ROOM_CAP {
        (SEARCH_BUDGET_ROOM_CAP * SEARCH_OPS_PER_ROOM) as u32
    } else {
        (room_count * SEARCH_OPS_PER_ROOM) as u32
    };
    if double {
        (base * 2) as u32
    } else {
        base
    }
}

/// Computes the search operation budget (see [`spec_search_budget`]).
pub fn search_budget(room_count: usize, double: bool) -> (r: u32)
    ensures
        r == spec_search_budget(room_count as int, double),
{
    let base: u32 = if room_count >= SEARCH_BUDGET_ROOM_CAP as usize {
        SEARCH_BUDGET_ROOM_CAP * SEARCH_OPS_PER_ROOM
    } else {
        (room_count as u32) * SEARCH_OPS_PER_ROOM
    };
    if double {
        base * 2
    } else {
        base
    }
}

/// The set of movement requests submitted for one tick, at most one per
/// agent. Immutable once handed to the orchestrator.
pub struct MovementData {
    pub requests: Vec<(u64, MovementRequest)>,
}

impl MovementData {
    /// At most one request per agent.
    pub open spec fn wf(self) -> bool {
        forall|i: int, j: int|
            0 <= i < self.requests@.len() && 0 <= j < self.requests@.len() && i != j ==> (
            #[trigger] self.requests@[i]).0 != (#[trigger] self.requests@[j]).0
    }

    pub fn new() -> (d: MovementData)
        ensures
            d.wf(),
            d.requests@.len() == 0,
    {
        MovementData { requests: Vec::new() }
    }

    /// The request list holds `request` under `entity`; every entry of
    /// `prev` for another agent is still present, and nothing else was
    /// invented.
    pub open spec fn spec_superseded(
        prev: Seq<(u64, MovementRequest)>,
        cur: Seq<(u64, MovementRequest)>,
        entity: u64,
        request: MovementRequest,
    ) -> bool {
        &&& exists|i: int| 0 <= i < cur.len() && (#[trigger] cur[i]) == (entity, request)
        &&& cur.len() <= prev.len() + 1
        &&& forall|j: int|
            0 <= j < prev.len() && (#[trigger] prev[j]).0 != entity ==> exists|i: int|
                0 <= i < cur.len() && (#[trigger] cur[i]) == prev[j]
        &&& forall|i: int|
            0 <= i < cur.len() ==> (#[trigger] cur[i]) == (entity, request) || exists|j: int|
                0 <= j < prev.len() && (#[trigger] prev[j]) == cur[i]
    }

    /// Submits a request for an agent: its entry is superseded or appended,
    /// and every other agent's entry is untouched.
    pub fn request(&mut self, entity: u64, request: MovementRequest)
        requires
            old(self).wf(),
        ensures
            final(self).wf(),
            MovementData::spec_superseded(
                old(self).requests@,
                final(self).requests@,
                entity,
                request,
            ),
    {
        let n = self.requests.len();
        let mut i: usize = 0;
        while i < n
            invariant
                n == self.requests@.len(),
                i <= n,
                self.wf(),
                self.requests@ == old(self).requests@,
                forall|j: int| 0 <= j < i ==> (#[trigger] self.requests@[j]).0 != entity,
            decreases n - i,
        {
            if self.requests[i].0 == entity {
                let ghost pre = self.requests@;
                self.requests.set(i, (entity, request));
                proof {
                    assert forall|a: int, b: int|
                        0 <= a < self.requests@.len() && 0 <= b < self.requests@.len() && a
                            != b implies (#[trigger] self.requests@[a]).0 != (
                    #[trigger] self.requests@[b]).0 by {
                        assert(pre[a].0 != pre[b].0);
                        assert(self.requests@[a].0 == pre[a].0);
                        assert(self.requests@[b].0 == pre[b].0);
                    }
                    assert(self.requests@[i as int] == (entity, request));
                    assert forall|j: int|
                        0 <= j < old(self).requests@.len() && (
                        #[trigger] old(self).requests@[j]).0 != entity implies exists|a: int|
                        0 <= a < self.requests@.len() && (#[trigger] self.requests@[a]) == old(
                            self).requests@[j] by {
                        assert(self.requests@[j] == old(self).requests@[j]);
                    }
                    assert forall|a: int|
                        0 <= a < self.requests@.len() implies (#[trigger] self.requests@[a]) == (
                        entity,
                        request,
                    ) || exists|j: int|
                        0 <= j < old(self).requests@.len() && (#[trigger] old(self).requests@[j])
                            == self.requests@[a] by {
                        if a != i {
                            assert(old(self).requests@[a] == self.requests@[a]);
                        }
                    }
                }
                return ;
            }
            i = i + 1;
        }
        let ghost pre = self.requests@;
        self.requests.push((entity, request));
        proof {
            assert(self.requests@[self.requests@.len() - 1] == (entity, request));
            assert forall|j: int|
                0 <= j < pre.len() && (#[trigger] pre[j]).0 != entity implies exists|a: int|
                0 <= a < self.requests@.len() && (#[trigger] self.requests@[a]) == pre[j] by {
                assert(self.requests@[j] == pre[j]);
            }
            assert forall|a: int|
                0 <= a < self.requests@.len() implies (#[trigger] self.requests@[a]) == (
                entity,
                request,
            ) || exists|j: int|
                0 <= j < pre.len() && (#[trigger] pre[j]) == self.requests@[a] by {
                if a < pre.len() {
                    assert(pre[a] == self.requests@[a]);
                }
            }
        }
    }

    /// Submits a plain move-to request for an agent: its entry becomes a
    /// fresh move-to request, superseding any earlier one, and every other
    /// agent's entry is untouched.
    pub fn move_to(&mut self, entity: u64, destination: Position)
        requires
            old(self).wf(),
        ensures
            final(self).wf(),
            MovementData::spec_superseded(
                old(self).requests@,
                final(self).requests@,
                entity,
                MovementRequest::spec_move_to(destination),
            ),
    {
        self.request(entity, MovementRequest::move_to(destination));
    }
}

impl Default for MovementData {
    fn default() -> (d: MovementData)
        ensures
            d.wf(),
            d.requests@.len() == 0,
    {
        MovementData::new()
    }
}

/// The per-agent decision of the path machine for one tick.
pub enum StepOutcome {
    /// The agent is within range of its goal; no step is needed.
    Arrived,
    /// The agent should step onto this tile.
    Move(Position),
    /// The agent keeps its tile this tick (recovering fatigue, spawning).
    Hold,
    /// The agent's movement failed.
    Fail(MovementFailure),
}

/// What the path machine decided for one agent, with the stuck facts the
/// resolver consumes.
pub struct MoveDecision {
    pub outcome: StepOutcome,
    /// Consecutive immobile ticks, the contention tie-breaker.
    pub stuck_ticks: u16,
    /// Third stuck tier crossed: the agent may itself be shoved or swapped.
    pub displacement_allowed: bool,
}

/// The tile a follower should prefer, given what its leader does this tick:
/// when the leader moves, the formation offset from the leader's new tile if
/// it is one step away, else the leader's vacated tile if that is; `None`
/// when the follower must path toward the leader instead.
pub open spec fn spec_follow_desired(
    my_pos: Position,
    leader_current: Position,
    leader_final: Position,
    offset: Option<(i8, i8)>,
) -> Option<Position> {
    if leader_final != leader_current {
        match spec_offset_tile(leader_final, offset) {
            Some(t) => {
                if my_pos.spec_range_to(t) == 1 {
                    Some(t)
                } else if my_pos.spec_range_to(leader_current) == 1 {
                    Some(leader_current)
                } else {
                    None
                }
            },
            None => {
                if my_pos.spec_range_to(leader_current) == 1 {
                    Some(leader_current)
                } else {
                    None
                }
            },
        }
    } else {
        None
    }
}

/// The tile at a fixed offset from a base tile, when it stays inside the
/// base tile's room.
pub open spec fn spec_offset_tile(base: Position, offset: Option<(i8, i8)>) -> Option<Position> {
    match offset {
        None => None,
        Some(o) => {
            let nx = base.x + o.0;
            let ny = base.y + o.1;
            if 0 <= nx < 50 && 0 <= ny < 50 {
                Some(Position { room: base.room, x: nx as u8, y: ny as u8 })
            } else {
                None
            }
        },
    }
}

fn offset_tile(base: Position, offset: Option<(i8, i8)>) -> (r: Option<Position>)
    ensures
        r == spec_offset_tile(base, offset),
{
    match offset {
        None => None,
        Some(o) => {
            let nx: i32 = base.x as i32 + o.0 as i32;
            let ny: i32 = base.y as i32 + o.1 as i32;
            if 0 <= nx && nx < 50 && 0 <= ny && ny < 50 {
                Some(Position { room: base.room, x: nx as u8, y: ny as u8 })
            } else {
                None
            }
        },
    }
}

/// One step of the follow rule (see [`spec_follow_desired`]).
pub fn follow_desired(
    my_pos: Position,
    leader_current: Position,
    leader_final: Position,
    offset: Option<(i8, i8)>,
) -> (r: Option<Position>)
    ensures
        r == spec_follow_desired(my_pos, leader_current, leader_final, offset),
{
    if leader_final != leader_current {
        match offset_tile(leader_final, offset) {
            Some(t) => {
                if my_pos.get_range_to(t) == 1 {
                    return Some(t);
                }
            },
            None => {},
        }
        if my_pos.get_range_to(leader_current) == 1 {
            Some(leader_current)
        } else {
            None
        }
    } else {
        None
    }
}

/// Whether the agent is already safe from every threat: at or beyond each
/// threat's minimum range.
pub fn safe_from_threats(pos: Position, threats: &Vec<(Position, u32)>) -> (r: bool)
    ensures
        r == forall|i: int|
            0 <= i < threats@.len() ==> pos.spec_range_to((#[trigger] threats@[i]).0)
                >= threats@[i].1,
{
    let n = threats.len();
    let mut i: usize = 0;
    while i < n
        invariant
            n == threats@.len(),
            i <= n,
            forall|j: int|
                0 <= j < i ==> pos.spec_range_to((#[trigger] threats@[j]).0) >= threats@[j].1,
        decreases n - i,
    {
        let t = threats[i];
        if pos.get_range_to(t.0) < t.1 {
            return false;
        }
        i = i + 1;
    }
    true
}


/// Some agent in the record list submitted a request and wants to move.
pub open spec fn mover_listed(s: Seq<crate::resolver::ResolvedCreep>, e: u64) -> bool {
    exists|i: int|
        0 <= i < s.len() && (#[trigger] s[i]).entity == e && s[i].has_request && s[i].desired_pos
            is Some
}

/// Appending a record keeps every listed mover listed.
proof fn lemma_mover_listed_push(
    s: Seq<crate::resolver::ResolvedCreep>,
    c: crate::resolver::ResolvedCreep,
    e: u64,
)
    requires
        mover_listed(s, e),
    ensures
        mover_listed(s.push(c), e),
{
    let i = choose|i: int|
        0 <= i < s.len() && (#[trigger] s[i]).entity == e && s[i].has_request && s[i].desired_pos
            is Some;
    assert(s.push(c)[i] == s[i]);
}

/// Resolution keeps every listed mover listed: it never edits an agent's
/// handle, request flag or desired tile.
proof fn lemma_mover_listed_cores(
    s1: Seq<crate::resolver::ResolvedCreep>,
    s2: Seq<crate::resolver::ResolvedCreep>,
    e: u64,
)
    requires
        crate::resolver::same_cores(s1, s2),
        mover_listed(s1, e),
    ensures
        mover_listed(s2, e),
{
    let i = choose|i: int|
        0 <= i < s1.len() && (#[trigger] s1[i]).entity == e && s1[i].has_request
            && s1[i].desired_pos is Some;
    assert(crate::resolver::core_eq(s1[i], s2[i]));
}

/// Whether a room is already listed.
fn room_listed(rooms: &Vec<RoomName>, room: RoomName) -> (r: bool) {
    let n = rooms.len();
    let mut i: usize = 0;
    while i < n
        invariant
            n == rooms@.len(),
            i <= n,
        decreases n - i,
    {
        if rooms[i] == room {
            return true;
        }
        i = i + 1;
    }
    false
}

/// The record of an agent among those already decided this tick.
fn find_creep_record(creeps: &Vec<crate::resolver::ResolvedCreep>, entity: u64) -> (r: Option<
    crate::resolver::ResolvedCreep,
>)
    ensures
        match r {
            Some(c) => c.entity == entity && exists|i: int|
                0 <= i < creeps@.len() && (#[trigger] creeps@[i]) == c,
            None => forall|i: int|
                0 <= i < creeps@.len() ==> (#[trigger] creeps@[i]).entity != entity,
        },
{
    let n = creeps.len();
    let mut i: usize = 0;
    while i < n
        invariant
            n == creeps@.len(),
            i <= n,
            forall|j: int| 0 <= j < i ==> (#[trigger] creeps@[j]).entity != entity,
        decreases n - i,
    {
        if creeps[i].entity == entity {
            return Some(creeps[i]);
        }
        i = i + 1;
    }
    None
}

/// Whether a tile is unoccupied by every recorded agent and every idle one.
fn position_free(
    creeps: &Vec<crate::resolver::ResolvedCreep>,
    idle: &Vec<Position>,
    pos: Position,
) -> (r: bool)
    ensures
        r == ((forall|i: int|
            0 <= i < creeps@.len() ==> (#[trigger] creeps@[i]).current_pos != pos) && (forall|
            k: int,
        |
            0 <= k < idle@.len() ==> (#[trigger] idle@[k]) != pos)),
{
    let n = creeps.len();
    let mut i: usize = 0;
    while i < n
        invariant
            n == creeps@.len(),
            i <= n,
            forall|j: int| 0 <= j < i ==> (#[trigger] creeps@[j]).current_pos != pos,
        decreases n - i,
    {
        if creeps[i].current_pos == pos {
            return false;
        }
        i = i + 1;
    }
    let m = idle.len();
    let mut k: usize = 0;
    while k < m
        invariant
            m == idle@.len(),
            k <= m,
            forall|j: int| 0 <= j < k ==> (#[trigger] idle@[j]) != pos,
            forall|j: int| 0 <= j < creeps@.len() ==> (#[trigger] creeps@[j]).current_pos != pos,
        decreases m - k,
    {
        if idle[k] == pos {
            return false;
        }
        k = k + 1;
    }
    true
}

/// The cost-grid options after stuck escalation: past the first tier,
/// friendly occupants are avoided within a small radius of the agent, and
/// past the widened tier everywhere.
pub open spec fn spec_escalate_options(
    base: CostMatrixOptions,
    stuck: StuckState,
    th: StuckThresholds,
    pos: Position,
) -> CostMatrixOptions {
    if stuck.ticks_immobile >= th.avoid_nearby {
        CostMatrixOptions {
            friendly_creeps: true,
            friendly_proximity: if stuck.ticks_immobile >= th.avoid_all {
                None
            } else {
                Some(ProximityFilter { origin: pos, range: NEARBY_OCCUPANT_RADIUS })
            },
            ..base
        }
    } else {
        base
    }
}

/// Applies the stuck tiers to the cost-grid options (see
/// [`spec_escalate_options`]).
pub fn escalate_options(
    base: CostMatrixOptions,
    stuck: &StuckState,
    th: &StuckThresholds,
    pos: Position,
) -> (r: CostMatrixOptions)
    ensures
        r == spec_escalate_options(base, *stuck, *th, pos),
{
    let mut r = base;
    if stuck.avoid_nearby_occupants(th) {
        r.friendly_creeps = true;
        r.friendly_proximity = if stuck.avoid_all_occupants(th) {
            None
        } else {
            Some(ProximityFilter { origin: pos, range: NEARBY_OCCUPANT_RADIUS })
        };
    }
    r
}

/// One tick of path cache revalidation. The entry is kept only when it was
/// built for this destination and range. The agent's own tile is looked for
/// among the first two path entries; finding it there trims the walked
/// prefix, and finding it at the second entry counts as an advance. Only
/// when the agent stands on neither (it was pushed off the path) is the
/// lookahead window scanned for a tile it is adjacent to, where it
/// re-attaches without counting as progress. The entry is aged by one tick
/// and the stuck counters are booked with the advance flag.
pub fn revalidate_path_entry(
    data: CreepMovementData,
    destination: Position,
    range: u32,
    pos: Position,
) -> (r: (Option<CreepPathData>, bool))
    ensures
        (data.path_data is None || !(data.path_data->0.destination == destination
            && data.path_data->0.range == range)) ==> r.0 is None && !r.1,
        (data.path_data matches Some(pd) && pd.destination == destination && pd.range == range)
            ==> {
            let pd = data.path_data->0;
            match spec_exact_head_index(pd.path@, pos) {
                Some(i) => revalidated_entry_ok(r, pd, pos, destination, i, i > 0),
                None => match crate::pathstate::spec_trim_index_from(pd.path@, pos, 0) {
                    None => r.0 is None && !r.1,
                    Some(i) => revalidated_entry_ok(r, pd, pos, destination, i, false),
                },
            }
        },
{
    match data.path_data {
        Some(pd) => {
            if path_matches_request(&pd, destination, range) {
                let attach: Option<(usize, bool)> = match find_exact_head_index(&pd.path, pos) {
                    Some(i) => Some((i, i > 0)),
                    None => {
                        match find_trim_index(&pd.path, pos) {
                            Some(i) => Some((i, false)),
                            None => None,
                        }
                    },
                };
                match attach {
                    Some((i, moved)) => {
                        proof {
                            assert(i < pd.path@.len());
                        }
                        let new_path = trim_path(&pd.path, i);
                        let distance = pos.get_range_to(destination);
                        let new_stuck = pd.stuck.update(moved, distance);
                        let new_time: u32 = if pd.time < u32::MAX {
                            pd.time + 1
                        } else {
                            pd.time
                        };
                        (
                            Some(
                                CreepPathData {
                                    destination: pd.destination,
                                    range: pd.range,
                                    path: new_path,
                                    time: new_time,
                                    stuck: new_stuck,
                                },
                            ),
                            moved,
                        )
                    },
                    None => (None, false),
                }
            } else {
                (None, false)
            }
        },
        None => (None, false),
    }
}

/// What the move-to machine does with the revalidated entry this tick.
pub enum MovePlan {
    /// The final escalation tier was reached: stop retrying and report the
    /// immobile count; `keep` is the entry to persist meanwhile.
    Timeout { ticks: u16, keep: Option<CreepPathData> },
    /// Keep this entry and step along it; no new search is due.
    Step(CreepPathData),
    /// A path (re)generation is due; `stale` is the entry to keep, with its
    /// reuse timer reset, should generation fail.
    Regenerate { stale: Option<CreepPathData> },
}

/// The plan for the revalidated entry: the stuck timeout fires exactly when
/// the immobile count has reached the final tier; otherwise a missing entry,
/// a spent reuse budget, a crossed repath tier or stalled distance progress
/// makes regeneration due, and anything else steps along the kept entry.
pub open spec fn spec_plan_move(
    entry: Option<CreepPathData>,
    reuse_length: u32,
    th: StuckThresholds,
) -> MovePlan {
    let stuck = match entry {
        Some(pd) => pd.stuck,
        None => StuckState::spec_fresh(),
    };
    if stuck.ticks_immobile >= th.fail_timeout {
        MovePlan::Timeout { ticks: stuck.ticks_immobile, keep: entry }
    } else {
        match entry {
            None => MovePlan::Regenerate { stale: None },
            Some(pd) => {
                if pd.time >= reuse_length || stuck.ticks_immobile >= th.avoid_nearby
                    || stuck.ticks_no_progress >= th.no_progress_repath {
                    MovePlan::Regenerate { stale: Some(pd) }
                } else {
                    MovePlan::Step(pd)
                }
            },
        }
    }
}

/// Decides this tick's plan from the revalidated entry (see
/// [`spec_plan_move`]).
pub fn plan_move(
    entry: Option<CreepPathData>,
    reuse_length: u32,
    th: &StuckThresholds,
) -> (r: MovePlan)
    ensures
        r == spec_plan_move(entry, reuse_length, *th),
{
    let stuck: StuckState = match &entry {
        Some(pd) => pd.stuck,
        None => StuckState::new(),
    };
    if stuck.timed_out(th) {
        return MovePlan::Timeout { ticks: stuck.ticks_immobile, keep: entry };
    }
    match entry {
        None => MovePlan::Regenerate { stale: None },
        Some(pd) => {
            if needs_regeneration(true, pd.time, reuse_length, &stuck, th) {
                MovePlan::Regenerate { stale: Some(pd) }
            } else {
                MovePlan::Step(pd)
            }
        },
    }
}

/// The revalidated entry is the stored one with the walked prefix up to
/// `attach` dropped, one more tick of age, and the stuck counters booked
/// with `moved`.
pub open spec fn revalidated_entry_ok(
    r: (Option<CreepPathData>, bool),
    pd: CreepPathData,
    pos: Position,
    destination: Position,
    attach: int,
    moved: bool,
) -> bool {
    &&& r.1 == moved
    &&& r.0 matches Some(npd)
    &&& r.0->0.destination == pd.destination
    &&& r.0->0.range == pd.range
    &&& r.0->0.path@ == pd.path@.subrange(attach, pd.path@.len() as int)
    &&& r.0->0.time == if pd.time < u32::MAX {
        (pd.time + 1) as u32
    } else {
        pd.time
    }
    &&& r.0->0.stuck == pd.stuck.spec_update(moved, pos.spec_range_to(destination) as u32)
}

/// How a resolved mover's step execution went at the host.
pub enum StepExecution {
    /// The step command was accepted.
    Executed,
    /// The host rejected the step command.
    Rejected(String),
    /// The resolved tile is not a single step from the agent's tile.
    NoDirection,
    /// The agent's in-world object is gone.
    AgentMissing(String),
}

/// The outcome reported for a requesting mover, from its resolution record
/// and its step execution: an agent that kept its tile is `Stuck` with its
/// record's immobile count (saturated to the field width), an executed step
/// is `Moving`, and anything else is an internal failure.
pub fn outcome_for_mover(c: &crate::resolver::ResolvedCreep, execution: StepExecution) -> (r:
    MovementResult)
    ensures
        c.final_pos == c.current_pos ==> (r matches MovementResult::Stuck { ticks } && ticks
            == (if c.stuck_ticks > u16::MAX as u32 {
            u16::MAX
        } else {
            c.stuck_ticks as u16
        })),
        c.final_pos != c.current_pos && execution is Executed ==> r is Moving,
        c.final_pos != c.current_pos && !(execution is Executed) ==> (r
            matches MovementResult::Failed(f) && f is InternalError),
{
    if c.final_pos == c.current_pos {
        let ticks: u16 = if c.stuck_ticks > u16::MAX as u32 {
            u16::MAX
        } else {
            c.stuck_ticks as u16
        };
        MovementResult::Stuck { ticks }
    } else {
        match execution {
            StepExecution::Executed => MovementResult::Moving,
            StepExecution::Rejected(e) => MovementResult::Failed(
                MovementFailure::InternalError(e),
            ),
            StepExecution::NoDirection => MovementResult::Failed(
                MovementFailure::InternalError("resolved step is not a single move".to_string()),
            ),
            StepExecution::AgentMissing(e) => MovementResult::Failed(
                MovementFailure::InternalError(e),
            ),
        }
    }
}

/// The movement orchestrator: drives the per-tick pipeline over a shared
/// cost layer cache. Its path reuse budget and stuck thresholds are
/// configurable.
pub struct MovementSystem<'a, St: CostMatrixStorage> {
    pub cost_matrix_system: &'a mut CostMatrixSystem<St>,
    pub reuse_path_length: u32,
    pub thresholds: StuckThresholds,
}

impl<'a, St: CostMatrixStorage> MovementSystem<'a, St> {
    pub fn new(cost_matrix_system: &'a mut CostMatrixSystem<St>) -> (s: MovementSystem<'a, St>)
        ensures
            s.reuse_path_length == 5,
            s.thresholds == StuckThresholds::spec_default(),
    {
        MovementSystem { cost_matrix_system, reuse_path_length: 5, thresholds: StuckThresholds::default() }
    }

    /// Sets how many ticks a generated path is reused before a fresh search.
    pub fn set_reuse_path_length(&mut self, length: u32)
        ensures
            final(self).reuse_path_length == length,
            final(self).thresholds == old(self).thresholds,
    {
        self.reuse_path_length = length;
    }

    /// Sets the stuck escalation thresholds.
    pub fn set_stuck_thresholds(&mut self, thresholds: StuckThresholds)
        ensures
            final(self).thresholds == thresholds,
            final(self).reuse_path_length == old(self).reuse_path_length,
    {
        self.thresholds = thresholds;
    }

    /// Generates a fresh path from `pos` to within `range` of `destination`:
    /// routes at room level, builds a composed cost grid per room on the
    /// route, and runs the path search under the per-room operation budget
    /// (doubled under the second stuck tier).
    ///
    /// A missing room route or an exhausted search yields `PathNotFound`; a
    /// route crossing that the room cost policy disallows yields
    /// `RoomBlocked`. A returned path always starts at `pos`.
    fn generate_path<C: CreepHandle, S: MovementSystemExternal<C>, P: PathfindingProvider, D: CostMatrixDataSource>(
        &mut self,
        external: &S,
        provider: &mut P,
        source: &D,
        pos: Position,
        destination: Position,
        range: u32,
        room_options: &RoomOptions,
        cmo: &CostMatrixOptions,
        double_ops: bool,
        current_tick: u32,
    ) -> (r: Result<Vec<Position>, MovementFailure>)
        ensures
            final(self).thresholds == old(self).thresholds,
            final(self).reuse_path_length == old(self).reuse_path_length,
            r matches Ok(p) ==> p@.len() >= 1 && p@[0] == pos,
            r matches Err(f) ==> f is PathNotFound || f is RoomBlocked,
    {
        let mut rooms: Vec<RoomName> = Vec::new();
        rooms.push(pos.room);
        if destination.room != pos.room {
            let route = match provider.find_route(pos.room, destination.room) {
                Ok(r) => r,
                Err(_) => {
                    return Err(MovementFailure::PathNotFound);
                },
            };
            let m = route.len();
            let mut prev: RoomName = pos.room;
            let mut i: usize = 0;
            while i < m
                invariant
                    m == route@.len(),
                    i <= m,
                decreases m - i,
            {
                let step_room = route[i].room;
                match external.get_room_cost(prev, step_room, room_options) {
                    None => {
                        return Err(MovementFailure::RoomBlocked);
                    },
                    Some(_) => {},
                }
                if !room_listed(&rooms, step_room) {
                    rooms.push(step_room);
                }
                prev = step_room;
                i = i + 1;
            }
            if !room_listed(&rooms, destination.room) {
                rooms.push(destination.room);
            }
        }
        let room_count = rooms.len();
        let max_ops: u32 = search_budget(room_count, double_ops);
        let mut grids: Vec<(RoomName, DenseCostMatrix)> = Vec::new();
        let mut gi: usize = 0;
        while gi < room_count
            invariant
                room_count == rooms@.len(),
                gi <= room_count,
                self.thresholds == old(self).thresholds,
                self.reuse_path_length == old(self).reuse_path_length,
            decreases room_count - gi,
        {
            let room = rooms[gi];
            let mut grid = DenseCostMatrix::new();
            let _ = self.cost_matrix_system.apply_cost_matrix(room, &mut grid, cmo, source, current_tick);
            grids.push((room, grid));
            gi = gi + 1;
        }
        let result = provider.search(pos, destination, range, &grids, max_ops, cmo.plains_cost, cmo.swamp_cost);
        if result.incomplete {
            return Err(MovementFailure::PathNotFound);
        }
        let mut path = result.path;
        path.insert(0, pos);
        Ok(path)
    }

    /// One tick of the path/stuck machine for a move-to goal (see the module
    /// documentation): validates and trims the cached path, updates the
    /// stuck counters, regenerates the path when needed — keeping a stale
    /// path alive when regeneration fails and one exists — and hands back
    /// the next tile to step onto together with the stuck tier facts.
    fn step_move_to<C: CreepHandle, S: MovementSystemExternal<C>, P: PathfindingProvider, D: CostMatrixDataSource>(
        &mut self,
        external: &mut S,
        provider: &mut P,
        source: &D,
        entity: u64,
        destination: Position,
        range: u32,
        request: &MovementRequest,
        pos: Position,
        current_tick: u32,
    ) -> (d: MoveDecision)
        ensures
            final(self).thresholds == old(self).thresholds,
            final(self).reuse_path_length == old(self).reuse_path_length,
            pos.spec_range_to(destination) <= range ==> d.outcome is Arrived && d.stuck_ticks
                == 0,
            d.outcome matches StepOutcome::Fail(f) ==> (f
                matches MovementFailure::StuckTimeout { ticks } ==> ticks >= old(
                self).thresholds.fail_timeout && d.stuck_ticks == ticks
                && d.displacement_allowed),
    {
        if pos.get_range_to(destination) <= range {
            return MoveDecision {
                outcome: StepOutcome::Arrived,
                stuck_ticks: 0,
                displacement_allowed: false,
            };
        }
        let th = self.thresholds;
        let data = external.get_creep_movement_data(entity);

        // keep the cached path only when it fits this request and the agent
        // can re-attach to it; book one tick of stuck state
        let (revalidated, _moved) = revalidate_path_entry(data, destination, range, pos);
        let stuck: StuckState = match &revalidated {
            Some(pd) => pd.stuck,
            None => StuckState::new(),
        };

        // the contracted decision core: timeout, step along the kept entry,
        // or regenerate
        let pd_opt: Option<CreepPathData>;
        match plan_move(revalidated, self.reuse_path_length, &th) {
            MovePlan::Timeout { ticks, keep } => {
                // final escalation tier: stop retrying and report it
                external.set_creep_movement_data(entity, CreepMovementData { path_data: keep });
                return MoveDecision {
                    outcome: StepOutcome::Fail(MovementFailure::StuckTimeout { ticks }),
                    stuck_ticks: ticks,
                    displacement_allowed: true,
                };
            },
            MovePlan::Step(pd) => {
                pd_opt = Some(pd);
            },
            MovePlan::Regenerate { stale } => {
                let base: CostMatrixOptions = match request.cost_matrix_options {
                    Some(o) => o,
                    None => CostMatrixOptions::default(),
                };
                // escalating occupant avoidance: nearby occupants first, all
                // of them one tier later
                let cmo = escalate_options(base, &stuck, &th, pos);
                let room_options: RoomOptions = match request.room_options {
                    Some(o) => o,
                    None => RoomOptions::default(),
                };
                let double = stuck.double_search_ops(&th);
                match self.generate_path(
                    external,
                    provider,
                    source,
                    pos,
                    destination,
                    range,
                    &room_options,
                    &cmo,
                    double,
                    current_tick,
                ) {
                    Ok(path) => {
                        pd_opt = Some(
                            CreepPathData {
                                destination,
                                range,
                                path,
                                time: 0,
                                stuck: stuck.count_repath(),
                            },
                        );
                    },
                    Err(f) => {
                        match stale {
                            Some(pd) => {
                                // keep the stale path and reset its reuse
                                // timer; tier escalation keeps working on it
                                pd_opt = Some(CreepPathData { time: 0, ..pd });
                            },
                            None => {
                                // no path ever existed: the failure surfaces
                                external.set_creep_movement_data(
                                    entity,
                                    CreepMovementData { path_data: None },
                                );
                                return MoveDecision {
                                    outcome: StepOutcome::Fail(f),
                                    stuck_ticks: stuck.ticks_immobile,
                                    displacement_allowed: stuck.displacement_allowed(&th),
                                };
                            },
                        }
                    },
                }
            },
        }
        match pd_opt {
            Some(pd) => {
                let step = next_step(&pd.path, pos);
                external.set_creep_movement_data(entity, CreepMovementData { path_data: Some(pd) });
                match step {
                    Some(t) => MoveDecision {
                        outcome: StepOutcome::Move(t),
                        stuck_ticks: stuck.ticks_immobile,
                        displacement_allowed: stuck.displacement_allowed(&th),
                    },
                    None => MoveDecision {
                        outcome: StepOutcome::Arrived,
                        stuck_ticks: stuck.ticks_immobile,
                        displacement_allowed: stuck.displacement_allowed(&th),
                    },
                }
            },
            None => MoveDecision {
                outcome: StepOutcome::Fail(MovementFailure::PathNotFound),
                stuck_ticks: stuck.ticks_immobile,
                displacement_allowed: stuck.displacement_allowed(&th),
            },
        }
    }

    /// Decides one agent's step for this tick from its intent: the path
    /// machine for move-to goals, the vacated-tile and formation rules for
    /// follow goals (falling back to pathing toward the leader), and a
    /// multi-goal flee search for flee goals (already-safe agents take no
    /// action).
    fn process_request<C: CreepHandle, S: MovementSystemExternal<C>, P: PathfindingProvider, D: CostMatrixDataSource>(
        &mut self,
        external: &mut S,
        provider: &mut P,
        source: &D,
        entity: u64,
        request: &MovementRequest,
        creep: &C,
        pos: Position,
        creeps_so_far: &Vec<crate::resolver::ResolvedCreep>,
        current_tick: u32,
    ) -> (d: MoveDecision)
        ensures
            final(self).thresholds == old(self).thresholds,
            final(self).reuse_path_length == old(self).reuse_path_length,
            d.outcome matches StepOutcome::Fail(f) ==> (f
                matches MovementFailure::StuckTimeout { ticks } ==> ticks >= old(
                self).thresholds.fail_timeout && d.stuck_ticks == ticks
                && d.displacement_allowed),
            (request.intent matches MovementIntent::Follow { target, .. } && (forall|i: int|
                0 <= i < creeps_so_far@.len() ==> (#[trigger] creeps_so_far@[i]).entity != target))
                ==> (d.outcome is Hold || (d.outcome matches StepOutcome::Fail(f) && f
                is InternalError)),
    {
        if creep.fatigue() > 0 || creep.spawning() {
            return MoveDecision {
                outcome: StepOutcome::Hold,
                stuck_ticks: 0,
                displacement_allowed: false,
            };
        }
        match &request.intent {
            MovementIntent::MoveTo { destination } => self.step_move_to(
                external,
                provider,
                source,
                entity,
                *destination,
                request.range,
                request,
                pos,
                current_tick,
            ),
            MovementIntent::Follow { target, offset } => {
                match find_creep_record(creeps_so_far, *target) {
                    Some(leader) => {
                        // leaders were decided first, so the leader's own
                        // desired tile is already known
                        let leader_final = match leader.desired_pos {
                            Some(d) => d,
                            None => leader.current_pos,
                        };
                        match follow_desired(pos, leader.current_pos, leader_final, *offset) {
                            Some(t) => MoveDecision {
                                outcome: StepOutcome::Move(t),
                                stuck_ticks: 0,
                                displacement_allowed: false,
                            },
                            None => {
                                let follow_range: u32 = if request.range >= 1 {
                                    request.range
                                } else {
                                    1
                                };
                                if pos.get_range_to(leader.current_pos) <= follow_range {
                                    MoveDecision {
                                        outcome: StepOutcome::Arrived,
                                        stuck_ticks: 0,
                                        displacement_allowed: false,
                                    }
                                } else {
                                    self.step_move_to(
                                        external,
                                        provider,
                                        source,
                                        entity,
                                        leader.current_pos,
                                        follow_range,
                                        request,
                                        pos,
                                        current_tick,
                                    )
                                }
                            },
                        }
                    },
                    None => MoveDecision {
                        outcome: StepOutcome::Fail(
                            MovementFailure::InternalError(
                                "follow target has no request this tick".to_string(),
                            ),
                        ),
                        stuck_ticks: 0,
                        displacement_allowed: false,
                    },
                }
            },
            MovementIntent::Flee { threats } => {
                if safe_from_threats(pos, threats) {
                    return MoveDecision {
                        outcome: StepOutcome::Arrived,
                        stuck_ticks: 0,
                        displacement_allowed: false,
                    };
                }
                let cmo: CostMatrixOptions = match request.cost_matrix_options {
                    Some(o) => o,
                    None => CostMatrixOptions::default(),
                };
                let mut grid = DenseCostMatrix::new();
                let _ = self.cost_matrix_system.apply_cost_matrix(
                    pos.room,
                    &mut grid,
                    &cmo,
                    source,
                    current_tick,
                );
                let mut grids: Vec<(RoomName, DenseCostMatrix)> = Vec::new();
                grids.push((pos.room, grid));
                let result = provider.search_many(
                    pos,
                    threats,
                    true,
                    &grids,
                    SEARCH_OPS_PER_ROOM,
                    cmo.plains_cost,
                    cmo.swamp_cost,
                );
                if result.incomplete || result.path.len() == 0 {
                    return MoveDecision {
                        outcome: StepOutcome::Fail(MovementFailure::PathNotFound),
                        stuck_ticks: 0,
                        displacement_allowed: false,
                    };
                }
                let t = result.path[0];
                MoveDecision {
                    outcome: StepOutcome::Move(t),
                    stuck_ticks: 0,
                    displacement_allowed: false,
                }
            },
        }
    }
}


impl<'a, St: CostMatrixStorage> MovementSystem<'a, St> {
    /// Runs the full per-tick pipeline: orders agents so leaders precede
    /// followers (breaking follow cycles), decides each agent's desired tile
    /// through the path/stuck machine, resolves all tile contention (swaps,
    /// priority arbitration, bounded shoving), executes the resolved steps
    /// through the host traits, and reports visualization intents.
    ///
    /// Every requesting agent receives exactly one outcome in the returned
    /// results — `Moving`, `Arrived`, `Stuck` or `Failed` — and no outcome
    /// is reported for an agent that made no request. Failures are per
    /// agent: one agent's failure never aborts the tick for the others.
    pub fn process<
        C: CreepHandle,
        S: MovementSystemExternal<C>,
        P: PathfindingProvider,
        D: CostMatrixDataSource,
        V: MovementVisualizer,
    >(
        &mut self,
        external: &mut S,
        provider: &mut P,
        source: &D,
        visualizer: &mut V,
        data: MovementData,
        idle_positions: &Vec<Position>,
        current_tick: u32,
    ) -> (results: MovementResults)
        requires
            data.wf(),
        ensures
            forall|k: int|
                0 <= k < data.requests@.len() ==> results@.contains_key(
                    (#[trigger] data.requests@[k]).0,
                ),
            forall|e: u64|
                #[trigger] results@.contains_key(e) ==> crate::resolver::appears_as_request(
                    data.requests@,
                    e,
                ),
            forall|e: u64|
                #[trigger] results@.contains_key(e) ==> (results@[e]
                    matches MovementResult::Failed(f) ==> (f
                    matches MovementFailure::StuckTimeout { ticks } ==> ticks >= old(
                    self).thresholds.fail_timeout)),
    {
        let mut results = MovementResults::new();
        let (order, _broken) = crate::resolver::topological_sort_follows(&data.requests);
        let mut creeps: Vec<crate::resolver::ResolvedCreep> = Vec::new();

        // decide each agent's desired tile, leaders before followers
        let n_order = order.len();
        let mut oi: usize = 0;
        while oi < n_order
            invariant
                data.wf(),
                n_order == order@.len(),
                oi <= n_order,
                crate::resolver::follow_order_ok(data.requests@, order@),
                crate::resolver::distinct_currents(creeps@, idle_positions@),
                forall|i: int|
                    0 <= i < creeps@.len() ==> !(#[trigger] creeps@[i]).resolved
                        && creeps@[i].final_pos == creeps@[i].current_pos,
                forall|q: int|
                    0 <= q < oi ==> results@.contains_key(#[trigger] order@[q]) || mover_listed(
                        creeps@,
                        order@[q],
                    ),
                forall|e: u64|
                    #[trigger] results@.contains_key(e) ==> crate::resolver::appears_as_request(
                        data.requests@,
                        e,
                    ),
                forall|i: int|
                    0 <= i < creeps@.len() ==> crate::resolver::appears_as_request(
                        data.requests@,
                        (#[trigger] creeps@[i]).entity,
                    ),
                self.thresholds == old(self).thresholds,
                forall|e: u64|
                    #[trigger] results@.contains_key(e) ==> (results@[e]
                        matches MovementResult::Failed(f) ==> (f
                        matches MovementFailure::StuckTimeout { ticks } ==> ticks >= old(
                        self).thresholds.fail_timeout)),
            decreases n_order - oi,
        {
            let entity = order[oi];
            proof {
                assert(crate::resolver::appears_as_request(data.requests@, entity));
            }
            let ri: usize;
            match crate::resolver::find_request_index(&data.requests, entity) {
                Some(i) => {
                    ri = i;
                },
                None => {
                    // unreachable: every entry of the order is the handle of
                    // a submitted request
                    proof {
                        assert(false);
                    }
                    oi = oi + 1;
                    continue ;
                },
            }
            let request = &data.requests[ri].1;
            match external.get_creep(entity) {
                Err(e) => {
                    results.insert(
                        entity,
                        MovementResult::Failed(MovementFailure::InternalError(e)),
                    );
                },
                Ok(creep) => {
                    let pos = creep.pos();
                    if !position_free(&creeps, idle_positions, pos) {
                        // a second agent on an occupied tile would break
                        // resolution; its request is malformed
                        results.insert(
                            entity,
                            MovementResult::Failed(
                                MovementFailure::InternalError(
                                    "agent shares a tile with another agent".to_string(),
                                ),
                            ),
                        );
                    } else {
                        let decision = self.process_request(
                            external,
                            provider,
                            source,
                            entity,
                            request,
                            &creep,
                            pos,
                            &creeps,
                            current_tick,
                        );
                        let allow_shove = request.allow_shove || decision.displacement_allowed;
                        let allow_swap = request.allow_swap || decision.displacement_allowed;
                        let ghost pre_creeps = creeps@;
                        let desired: Option<Position>;
                        match decision.outcome {
                            StepOutcome::Move(t) => {
                                desired = Some(t);
                            },
                            StepOutcome::Arrived => {
                                desired = None;
                                results.insert(entity, MovementResult::Arrived);
                                match request.anchor {
                                    Some(a) => {
                                        visualizer.visualize_anchor(pos, a.position);
                                    },
                                    None => {},
                                }
                                if request.priority == crate::request::MovementPriority::Immovable {
                                    visualizer.visualize_immovable(pos);
                                }
                            },
                            StepOutcome::Hold => {
                                desired = None;
                                results.insert(entity, MovementResult::Moving);
                            },
                            StepOutcome::Fail(f) => {
                                desired = None;
                                results.insert(entity, MovementResult::Failed(f));
                                visualizer.visualize_failed(pos);
                            },
                        }
                        let record = crate::resolver::ResolvedCreep {
                            entity,
                            current_pos: pos,
                            desired_pos: desired,
                            priority: request.priority,
                            allow_shove,
                            allow_swap,
                            stuck_ticks: decision.stuck_ticks as u32,
                            resolved: false,
                            final_pos: pos,
                            has_request: true,
                            anchor: request.anchor,
                        };
                        creeps.push(record);
                        proof {
                            assert forall|q: int|
                                0 <= q < oi && !results@.contains_key(
                                    #[trigger] order@[q],
                                ) implies mover_listed(creeps@, order@[q]) by {
                                lemma_mover_listed_push(pre_creeps, record, order@[q]);
                            }
                            if desired is Some {
                                assert(creeps@[creeps@.len() - 1].entity == entity);
                                assert(mover_listed(creeps@, entity));
                            }
                        }
                    }
                },
            }
            oi = oi + 1;
        }

        // resolve all tile contention
        proof {
            assert(crate::resolver::resolution_inv(creeps@, idle_positions@)) by {
                assert forall|i: int, j: int|
                    0 <= i < creeps@.len() && 0 <= j < creeps@.len() && i != j implies (
                #[trigger] creeps@[i].final_pos) != (#[trigger] creeps@[j].final_pos) by {
                    assert(creeps@[i].current_pos != creeps@[j].current_pos);
                }
            }
        }
        let ghost before_resolution = creeps@;
        let ghost results_a = results@;
        crate::resolver::resolve_conflicts(&mut creeps, idle_positions, provider);
        proof {
            assert forall|q: int|
                0 <= q < n_order && !results@.contains_key(#[trigger] order@[q]) implies
                mover_listed(creeps@, order@[q]) by {
                lemma_mover_listed_cores(before_resolution, creeps@, order@[q]);
            }
            assert forall|i: int|
                0 <= i < creeps@.len() implies crate::resolver::appears_as_request(
                data.requests@,
                (#[trigger] creeps@[i]).entity,
            ) by {
                assert(crate::resolver::core_eq(before_resolution[i], creeps@[i]));
            }
        }

        // execute every resolved step and report outcomes
        let nc = creeps.len();
        let mut ci: usize = 0;
        while ci < nc
            invariant
                nc == creeps@.len(),
                ci <= nc,
                forall|e: u64|
                    #[trigger] results@.contains_key(e) ==> crate::resolver::appears_as_request(
                        data.requests@,
                        e,
                    ),
                forall|i: int|
                    0 <= i < creeps@.len() ==> crate::resolver::appears_as_request(
                        data.requests@,
                        (#[trigger] creeps@[i]).entity,
                    ),
                forall|e: u64|
                    results_a.contains_key(e) ==> #[trigger] results@.contains_key(e),
                forall|i: int|
                    0 <= i < ci && (#[trigger] creeps@[i]).has_request && creeps@[i].desired_pos
                        is Some ==> results@.contains_key(creeps@[i].entity),
                forall|e: u64|
                    #[trigger] results@.contains_key(e) ==> (results@[e]
                        matches MovementResult::Failed(f) ==> (f
                        matches MovementFailure::StuckTimeout { ticks } ==> ticks >= old(
                        self).thresholds.fail_timeout)),
            decreases nc - ci,
        {
            let c = creeps[ci];
            let is_mover = match c.desired_pos {
                Some(_) => true,
                None => false,
            };
            if c.has_request && is_mover {
                let execution: StepExecution = if c.final_pos == c.current_pos {
                    StepExecution::NoDirection
                } else {
                    match c.current_pos.get_direction_to(c.final_pos) {
                        Some(dir) => {
                            match external.get_creep(c.entity) {
                                Ok(creep) => {
                                    match creep.move_direction(dir) {
                                        Ok(_) => StepExecution::Executed,
                                        Err(e) => StepExecution::Rejected(e),
                                    }
                                },
                                Err(e) => StepExecution::AgentMissing(e),
                            }
                        },
                        None => StepExecution::NoDirection,
                    }
                };
                let outcome = outcome_for_mover(&c, execution);
                match &outcome {
                    MovementResult::Moving => {
                        let d = external.get_creep_movement_data(c.entity);
                        match d.path_data {
                            Some(pd) => {
                                visualizer.visualize_path(c.current_pos, &pd.path);
                            },
                            None => {},
                        }
                    },
                    MovementResult::Stuck { ticks } => {
                        visualizer.visualize_stuck(c.current_pos, *ticks);
                    },
                    MovementResult::Failed(_) => {
                        visualizer.visualize_failed(c.current_pos);
                    },
                    _ => {},
                }
                results.insert(c.entity, outcome);
            }
            ci = ci + 1;
        }

        proof {
            assert forall|k: int|
                0 <= k < data.requests@.len() implies results@.contains_key(
                (#[trigger] data.requests@[k]).0,
            ) by {
                let e = data.requests@[k].0;
                assert(crate::resolver::listed_in_order(order@, e));
                let q = choose|q: int| 0 <= q < order@.len() && order@[q] == e;
                if !results_a.contains_key(e) {
                    if !results@.contains_key(e) {
                        assert(mover_listed(creeps@, e));
                        let i = choose|i: int|
                            0 <= i < creeps@.len() && (#[trigger] creeps@[i]).entity == e
                                && creeps@[i].has_request && creeps@[i].desired_pos is Some;
                        assert(results@.contains_key(creeps@[i].entity));
                    }
                }
            }
        }
        results
    }
}

} // verus!
