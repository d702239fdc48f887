//! The per-agent movement request: an intent (move somewhere, follow another
//! agent, or flee from threats) together with priority, shove/swap
//! permissions, an optional anchor constraint and per-request options.

use vstd::prelude::*;
use crate::costcache::CostMatrixOptions;
use crate::position::Position;

verus! {

/// Contention priority of an agent, ordered `Immovable < Low < Normal <
/// High`. An `Immovable` agent is never shoved, never swapped, and always
/// resolves to its current tile.
#[derive(Copy, Clone, Debug, PartialEq, Eq, Structural)]
pub enum MovementPriority {
    Immovable,
    Low,
    Normal,
    High,
}

impl MovementPriority {
    /// Numeric rank of the priority, for comparisons.
    pub open spec fn spec_rank(self) -> int {
        match self {
            MovementPriority::Immovable => 0,
            MovementPriority::Low => 1,
            MovementPriority::Normal => 2,
            MovementPriority::High => 3,
        }
    }

    pub fn rank(self) -> (r: u8)
        ensures
            r == self.spec_rank(),
    {
        match self {
            MovementPriority::Immovable => 0,
            MovementPriority::Low => 1,
            MovementPriority::Normal => 2,
            MovementPriority::High => 3,
        }
    }
}

/// A constraint binding an agent's post-resolution tile to within `range`
/// (Chebyshev distance) of a fixed point, even after being shoved or swapped.
#[derive(Copy, Clone, Debug, PartialEq, Eq, Structural)]
pub struct AnchorConstraint {
    pub position: Position,
    pub range: u32,
}

/// How rooms held by hostiles are treated when routing.
#[derive(Copy, Clone, Debug, PartialEq, Eq, Structural)]
pub enum HostileBehavior {
    Allow,
    HighCost,
    Deny,
}

/// Per-request routing options.
#[derive(Copy, Clone, Debug, PartialEq, Eq, Structural)]
pub struct RoomOptions {
    pub hostile_behavior: HostileBehavior,
}

impl RoomOptions {
    pub fn new(hostile_behavior: HostileBehavior) -> (o: RoomOptions)
        ensures
            o.spec_hostile_behavior() == hostile_behavior,
    {
        RoomOptions { hostile_behavior }
    }

    pub open spec fn spec_hostile_behavior(self) -> HostileBehavior {
        self.hostile_behavior
    }

    pub fn hostile_behavior(&self) -> (h: HostileBehavior)
        ensures
            h == self.spec_hostile_behavior(),
    {
        self.hostile_behavior
    }
}

impl Default for RoomOptions {
    /// By default, rooms held by hostiles are not entered.
    fn default() -> (o: RoomOptions)
        ensures
            o.spec_hostile_behavior() == HostileBehavior::Deny,
    {
        RoomOptions { hostile_behavior: HostileBehavior::Deny }
    }
}

/// The goal variant of a movement request.
#[derive(Clone, Debug)]
pub enum MovementIntent {
    /// Move to within the request's range of a destination tile.
    MoveTo { destination: Position },
    /// Track another agent: step into its vacated tile when it moves, or
    /// hold a fixed offset from it when one is given.
    Follow { target: u64, offset: Option<(i8, i8)> },
    /// Keep at least the paired minimum distance away from each threat tile.
    Flee { threats: Vec<(Position, u32)> },
}

/// A single agent's movement intent for one tick, immutable once submitted.
#[derive(Clone, Debug)]
pub struct MovementRequest {
    pub intent: MovementIntent,
    pub range: u32,
    pub priority: MovementPriority,
    pub allow_shove: bool,
    pub allow_swap: bool,
    pub anchor: Option<AnchorConstraint>,
    pub room_options: Option<RoomOptions>,
    pub cost_matrix_options: Option<CostMatrixOptions>,
}

impl MovementRequest {
    /// The value of a plain move-to request (see [`MovementRequest::move_to`]).
    pub open spec fn spec_move_to(destination: Position) -> MovementRequest {
        MovementRequest {
            intent: MovementIntent::MoveTo { destination },
            range: 0,
            priority: MovementPriority::Normal,
            allow_shove: true,
            allow_swap: true,
            anchor: None,
            room_options: None,
            cost_matrix_options: None,
        }
    }

    /// A plain move-to request: normal priority, exact destination, shoving
    /// and swapping permitted, no anchor and default options.
    pub fn move_to(destination: Position) -> (r: MovementRequest)
        ensures
            r == MovementRequest::spec_move_to(destination),
            r.intent == (MovementIntent::MoveTo { destination }),
            r.range == 0,
            r.priority == MovementPriority::Normal,
            r.allow_shove,
            r.allow_swap,
            r.anchor is None,
            r.room_options is None,
            r.cost_matrix_options is None,
    {
        MovementRequest {
            intent: MovementIntent::MoveTo { destination },
            range: 0,
            priority: MovementPriority::Normal,
            allow_shove: true,
            allow_swap: true,
            anchor: None,
            room_options: None,
            cost_matrix_options: None,
        }
    }

    /// Sets how close to the destination counts as arrived.
    pub fn range(self, range: u32) -> (r: MovementRequest)
        ensures
            r == (MovementRequest { range, ..self }),
    {
        MovementRequest { range, ..self }
    }

    /// Sets the contention priority.
    pub fn priority(self, priority: MovementPriority) -> (r: MovementRequest)
        ensures
            r == (MovementRequest { priority, ..self }),
    {
        MovementRequest { priority, ..self }
    }

    /// Sets whether this agent may be displaced by others.
    pub fn allow_shove(self, allow_shove: bool) -> (r: MovementRequest)
        ensures
            r == (MovementRequest { allow_shove, ..self }),
    {
        MovementRequest { allow_shove, ..self }
    }

    /// Sets whether this agent may exchange tiles head-to-head.
    pub fn allow_swap(self, allow_swap: bool) -> (r: MovementRequest)
        ensures
            r == (MovementRequest { allow_swap, ..self }),
    {
        MovementRequest { allow_swap, ..self }
    }

    /// Binds the agent's post-resolution tile to an anchor point.
    pub fn anchor(self, anchor: AnchorConstraint) -> (r: MovementRequest)
        ensures
            r == (MovementRequest { anchor: Some(anchor), ..self }),
    {
        MovementRequest { anchor: Some(anchor), ..self }
    }

    /// Sets per-request routing options.
    pub fn room_options(self, options: RoomOptions) -> (r: MovementRequest)
        ensures
            r == (MovementRequest { room_options: Some(options), ..self }),
    {
        MovementRequest { room_options: Some(options), ..self }
    }

    /// Sets per-request cost-grid options.
    pub fn cost_matrix_options(self, options: CostMatrixOptions) -> (r: MovementRequest)
        ensures
            r == (MovementRequest { cost_matrix_options: Some(options), ..self }),
    {
        MovementRequest { cost_matrix_options: Some(options), ..self }
    }
}

} // verus!
