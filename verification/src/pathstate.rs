//! The per-agent path cache and tiered stuck detector.
//!
//! Each agent persists, across ticks, the last computed path together with a
//! stuck state. Per tick the machine decides whether the cached path is still
//! valid, trims it when the agent was pushed slightly off it, updates the
//! stuck counters, and decides when to regenerate the path and which recovery
//! tier applies.

use vstd::prelude::*;
use crate::position::Position;

verus! {

/// Per-agent stuck bookkeeping. The counters rise while the agent is blocked
/// and reset the instant genuine progress is observed; they are the sole
/// signal driving recovery escalation.
#[derive(Copy, Clone, Debug, PartialEq, Eq, Structural)]
pub struct StuckState {
    /// Consecutive ticks the agent's tile did not change although it wanted
    /// to move.
    pub ticks_immobile: u16,
    /// Consecutive ticks without a decrease of the distance to the goal.
    pub ticks_no_progress: u16,
    /// How many times the path was regenerated for this destination.
    pub repath_count: u32,
    /// Distance to the goal when last measured; `u32::MAX` before the first
    /// measurement.
    pub last_distance_to_goal: u32,
}

impl StuckState {
    /// The state before any tick was booked.
    pub open spec fn spec_fresh() -> StuckState {
        StuckState {
            ticks_immobile: 0,
            ticks_no_progress: 0,
            repath_count: 0,
            last_distance_to_goal: u32::MAX,
        }
    }

    pub fn new() -> (s: StuckState)
        ensures
            s == StuckState::spec_fresh(),
            s.ticks_immobile == 0,
            s.ticks_no_progress == 0,
            s.repath_count == 0,
            s.last_distance_to_goal == u32::MAX,
    {
        StuckState {
            ticks_immobile: 0,
            ticks_no_progress: 0,
            repath_count: 0,
            last_distance_to_goal: u32::MAX,
        }
    }

    /// The value of one tick of stuck bookkeeping (see [`StuckState::update`]).
    pub open spec fn spec_update(self, moved: bool, distance_to_goal: u32) -> StuckState {
        StuckState {
            ticks_immobile: if moved {
                0
            } else if self.ticks_immobile < u16::MAX {
                (self.ticks_immobile + 1) as u16
            } else {
                u16::MAX
            },
            ticks_no_progress: if moved && distance_to_goal < self.last_distance_to_goal {
                0
            } else if self.ticks_no_progress < u16::MAX {
                (self.ticks_no_progress + 1) as u16
            } else {
                u16::MAX
            },
            repath_count: self.repath_count,
            last_distance_to_goal: distance_to_goal,
        }
    }

    /// One tick of stuck bookkeeping.
    ///
    /// `moved` is whether the agent advanced along its path this tick, and
    /// `distance_to_goal` its current distance to the goal. Any advance
    /// resets `ticks_immobile` to zero; a tick without movement increases it
    /// by one (to its saturation bound). `ticks_no_progress` resets only
    /// when the distance to the goal decreased, and otherwise increases the
    /// same way.
    pub fn update(self, moved: bool, distance_to_goal: u32) -> (s: StuckState)
        ensures
            s == self.spec_update(moved, distance_to_goal),
            moved ==> s.ticks_immobile == 0,
            !moved ==> s.ticks_immobile == if self.ticks_immobile < u16::MAX {
                (self.ticks_immobile + 1) as u16
            } else {
                u16::MAX
            },
            (moved && distance_to_goal < self.last_distance_to_goal) ==> s.ticks_no_progress == 0,
            !(moved && distance_to_goal < self.last_distance_to_goal) ==> s.ticks_no_progress
                == if self.ticks_no_progress < u16::MAX {
                (self.ticks_no_progress + 1) as u16
            } else {
                u16::MAX
            },
            s.repath_count == self.repath_count,
            s.last_distance_to_goal == distance_to_goal,
    {
        let ticks_immobile: u16 = if moved {
            0
        } else if self.ticks_immobile < u16::MAX {
            self.ticks_immobile + 1
        } else {
            u16::MAX
        };
        let ticks_no_progress: u16 = if moved && distance_to_goal < self.last_distance_to_goal {
            0
        } else if self.ticks_no_progress < u16::MAX {
            self.ticks_no_progress + 1
        } else {
            u16::MAX
        };
        StuckState {
            ticks_immobile,
            ticks_no_progress,
            repath_count: self.repath_count,
            last_distance_to_goal: distance_to_goal,
        }
    }

    /// Records one more path regeneration.
    pub fn count_repath(self) -> (s: StuckState)
        ensures
            s.repath_count == if self.repath_count < u32::MAX {
                (self.repath_count + 1) as u32
            } else {
                u32::MAX
            },
            s.ticks_immobile == self.ticks_immobile,
            s.ticks_no_progress == self.ticks_no_progress,
            s.last_distance_to_goal == self.last_distance_to_goal,
    {
        let repath_count: u32 = if self.repath_count < u32::MAX {
            self.repath_count + 1
        } else {
            u32::MAX
        };
        StuckState { repath_count, ..self }
    }
}

/// The escalation thresholds, in ticks, each independently configurable.
#[derive(Copy, Clone, Debug, PartialEq, Eq, Structural)]
pub struct StuckThresholds {
    /// Immobile ticks before occupant avoidance near the agent is enabled.
    pub avoid_nearby: u16,
    /// Immobile ticks before occupant avoidance widens to all occupants.
    pub avoid_all: u16,
    /// Immobile ticks before the search operation budget is doubled.
    pub double_ops: u16,
    /// Immobile ticks before the agent itself may be shoved or swapped.
    pub allow_displacement: u16,
    /// Immobile ticks before the agent's movement fails with a stuck
    /// timeout.
    pub fail_timeout: u16,
    /// Ticks without distance progress before a repath is forced.
    pub no_progress_repath: u16,
}

impl StuckThresholds {
    pub open spec fn spec_default() -> StuckThresholds {
        StuckThresholds {
            avoid_nearby: 2,
            avoid_all: 4,
            double_ops: 7,
            allow_displacement: 8,
            fail_timeout: 12,
            no_progress_repath: 15,
        }
    }
}

impl Default for StuckThresholds {
    fn default() -> (t: StuckThresholds)
        ensures
            t == StuckThresholds::spec_default(),
    {
        StuckThresholds {
            avoid_nearby: 2,
            avoid_all: 4,
            double_ops: 7,
            allow_displacement: 8,
            fail_timeout: 12,
            no_progress_repath: 15,
        }
    }
}

impl StuckState {
    /// Tier one: avoid occupants within a small radius of the agent.
    pub fn avoid_nearby_occupants(&self, th: &StuckThresholds) -> (r: bool)
        ensures
            r == (self.ticks_immobile >= th.avoid_nearby),
    {
        self.ticks_immobile >= th.avoid_nearby
    }

    /// Widened tier one: avoid all occupants regardless of distance.
    pub fn avoid_all_occupants(&self, th: &StuckThresholds) -> (r: bool)
        ensures
            r == (self.ticks_immobile >= th.avoid_all),
    {
        self.ticks_immobile >= th.avoid_all
    }

    /// Tier two: double the path search operation budget.
    pub fn double_search_ops(&self, th: &StuckThresholds) -> (r: bool)
        ensures
            r == (self.ticks_immobile >= th.double_ops),
    {
        self.ticks_immobile >= th.double_ops
    }

    /// Tier three: the agent may itself be shoved or swapped by the
    /// resolver (consumed by the orchestrator, not by this machine).
    pub fn displacement_allowed(&self, th: &StuckThresholds) -> (r: bool)
        ensures
            r == (self.ticks_immobile >= th.allow_displacement),
    {
        self.ticks_immobile >= th.allow_displacement
    }

    /// Tier four: report a stuck timeout instead of retrying further.
    pub fn timed_out(&self, th: &StuckThresholds) -> (r: bool)
        ensures
            r == (self.ticks_immobile >= th.fail_timeout),
    {
        self.ticks_immobile >= th.fail_timeout
    }

    /// A repath is forced once distance progress has stalled too long,
    /// regardless of immobility (breaks circular wandering).
    pub fn repath_forced(&self, th: &StuckThresholds) -> (r: bool)
        ensures
            r == (self.ticks_no_progress >= th.no_progress_repath),
    {
        self.ticks_no_progress >= th.no_progress_repath
    }
}

/// The persisted per-agent path cache entry: the last computed path together
/// with what it was computed for, its age, and the stuck state.
#[derive(Clone, Debug)]
pub struct CreepPathData {
    pub destination: Position,
    pub range: u32,
    /// The path's tiles in walking order, starting at the agent's tile.
    pub path: Vec<Position>,
    /// Ticks since this path was generated.
    pub time: u32,
    pub stuck: StuckState,
}

/// Per-agent state persisted across ticks, opaque to the caller and handed
/// back by reference each tick.
#[derive(Clone, Debug)]
pub struct CreepMovementData {
    pub path_data: Option<CreepPathData>,
}

impl CreepMovementData {
    pub fn new() -> (d: CreepMovementData)
        ensures
            d.path_data is None,
    {
        CreepMovementData { path_data: None }
    }
}

impl Default for CreepMovementData {
    fn default() -> (d: CreepMovementData)
        ensures
            d.path_data is None,
    {
        CreepMovementData { path_data: None }
    }
}

/// How far into a cached path the machine searches for the agent's tile when
/// the agent was pushed off the path's head.
pub const PATH_LOOKAHEAD: usize = 4;

/// The window of a path that is searched when re-attaching an agent to it.
pub open spec fn lookahead_len(path: Seq<Position>) -> int {
    if path.len() < PATH_LOOKAHEAD as int {
        path.len() as int
    } else {
        PATH_LOOKAHEAD as int
    }
}

/// Where the agent's own tile sits at the head of its cached path: index 0
/// when it stands on the first tile, 1 when it advanced to the second.
pub open spec fn spec_exact_head_index(path: Seq<Position>, current: Position) -> Option<int> {
    if path.len() >= 1 && path[0] == current {
        Some(0int)
    } else if path.len() >= 2 && path[1] == current {
        Some(1int)
    } else {
        None
    }
}

/// The agent's own tile among the first two path entries, if it is there.
pub fn find_exact_head_index(path: &Vec<Position>, current: Position) -> (r: Option<usize>)
    ensures
        match r {
            Some(i) => spec_exact_head_index(path@, current) == Some(i as int),
            None => spec_exact_head_index(path@, current) is None,
        },
{
    if path.len() >= 1 && path[0] == current {
        Some(0)
    } else if path.len() >= 2 && path[1] == current {
        Some(1)
    } else {
        None
    }
}

/// Where the agent re-attaches to its cached path, scanning the window from
/// index `from`: the first tile the agent stands on or is adjacent to.
pub open spec fn spec_trim_index_from(path: Seq<Position>, current: Position, from: int) -> Option<
    int,
>
    decreases lookahead_len(path) - from,
{
    if from < 0 || from >= lookahead_len(path) {
        None
    } else if current.spec_range_to(path[from]) <= 1 {
        Some(from)
    } else {
        spec_trim_index_from(path, current, from + 1)
    }
}

/// Where to re-attach the agent to its cached path: the first tile of the
/// lookahead window that the agent stands on or is adjacent to (one step
/// away), if any.
pub fn find_trim_index(path: &Vec<Position>, current: Position) -> (r: Option<usize>)
    ensures
        match r {
            Some(i) => i < lookahead_len(path@) && current.spec_range_to(path@[i as int]) <= 1
                && forall|j: int|
                    0 <= j < i ==> current.spec_range_to(#[trigger] path@[j]) > 1,
            None => forall|j: int|
                0 <= j < lookahead_len(path@) ==> current.spec_range_to(#[trigger] path@[j]) > 1,
        },
        match r {
            Some(i) => spec_trim_index_from(path@, current, 0) == Some(i as int),
            None => spec_trim_index_from(path@, current, 0) is None,
        },
{
    let window: usize = if path.len() < PATH_LOOKAHEAD {
        path.len()
    } else {
        PATH_LOOKAHEAD
    };
    let mut i: usize = 0;
    while i < window
        invariant
            window == lookahead_len(path@),
            window <= path@.len(),
            i <= window,
            forall|j: int| 0 <= j < i ==> current.spec_range_to(#[trigger] path@[j]) > 1,
            spec_trim_index_from(path@, current, 0) == spec_trim_index_from(
                path@,
                current,
                i as int,
            ),
        decreases window - i,
    {
        if current.get_range_to(path[i]) <= 1 {
            return Some(i);
        }
        i = i + 1;
    }
    None
}

/// Drops the first `start` tiles of a path, so it begins where the agent
/// re-attached to it.
pub fn trim_path(path: &Vec<Position>, start: usize) -> (r: Vec<Position>)
    requires
        start <= path@.len(),
    ensures
        r@ == path@.subrange(start as int, path@.len() as int),
{
    let mut r: Vec<Position> = Vec::new();
    let mut i: usize = start;
    while i < path.len()
        invariant
            start <= i <= path@.len(),
            r@ == path@.subrange(start as int, i as int),
        decreases path@.len() - i,
    {
        let p = path[i];
        r.push(p);
        proof {
            assert(r@ =~= path@.subrange(start as int, i + 1));
        }
        i = i + 1;
    }
    proof {
        assert(r@ =~= path@.subrange(start as int, path@.len() as int));
    }
    r
}

/// Whether a cached path may be kept for a request: it must have been
/// generated for the same destination and range.
pub fn path_matches_request(data: &CreepPathData, destination: Position, range: u32) -> (r: bool)
    ensures
        r == (data.destination == destination && data.range == range),
{
    data.destination == destination && data.range == range
}

/// Whether the path must be regenerated this tick: there is none, it has
/// been reused past its budget, the stuck state crossed the repath tier, or
/// distance progress stalled past its own threshold.
pub fn needs_regeneration(
    has_path: bool,
    time: u32,
    reuse_length: u32,
    stuck: &StuckState,
    th: &StuckThresholds,
) -> (r: bool)
    ensures
        r == (!has_path || time >= reuse_length || stuck.ticks_immobile >= th.avoid_nearby
            || stuck.ticks_no_progress >= th.no_progress_repath),
{
    !has_path || time >= reuse_length || stuck.ticks_immobile >= th.avoid_nearby
        || stuck.ticks_no_progress >= th.no_progress_repath
}

/// The tile to step onto next: the tile after the agent's own on the path.
/// The path starts at the agent's tile after trimming, so this is the
/// second tile; an agent not on the path's head takes the head itself.
pub fn next_step(path: &Vec<Position>, current: Position) -> (r: Option<Position>)
    ensures
        match r {
            Some(p) => (path@.len() >= 1 && path@[0] != current && p == path@[0]) || (path@.len()
                >= 2 && path@[0] == current && p == path@[1]),
            None => path@.len() == 0 || (path@.len() == 1 && path@[0] == current),
        },
{
    if path.len() == 0 {
        return None;
    }
    let head = path[0];
    if head != current {
        return Some(head);
    }
    if path.len() >= 2 {
        Some(path[1])
    } else {
        None
    }
}

} // verus!
