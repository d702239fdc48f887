//! Capability traits through which the engine consumes its host environment:
//! terrain queries, the path search, agent handles, persisted per-agent
//! state, and visualization intents. The engine never talks to a concrete
//! host; callers implement these traits.
//!
//! The engine claims nothing about what an implementation returns: every
//! decision it makes is verified to hold for any answer these methods give.

use vstd::prelude::*;
use crate::position::{Direction, Position, RoomName};

verus! {

/// Terrain walkability queries.
pub trait TerrainSource {
    /// Whether an agent can stand on the tile at all (terrain only; other
    /// agents are not considered).
    fn is_tile_walkable(&self, pos: Position) -> bool;
}

/// A step in a room-level route.
#[derive(Copy, Clone, Debug, PartialEq, Eq, Structural)]
pub struct RouteStep {
    pub room: RoomName,
}

/// Result of a point-to-point path search.
pub struct PathfindingResult {
    /// The tiles of the found path, in walking order.
    pub path: Vec<Position>,
    /// True when the search exhausted its budget before reaching the goal.
    pub incomplete: bool,
}


/// Handle to one agent's in-world object: the subset of the host's agent
/// interface that the movement engine needs.
pub trait CreepHandle {
    /// The agent's current tile.
    fn pos(&self) -> Position;

    /// Remaining fatigue; an agent with fatigue cannot move this tick.
    fn fatigue(&self) -> u32;

    /// Whether the agent is still being produced and cannot act.
    fn spawning(&self) -> bool;

    /// Executes one step in the given direction.
    fn move_direction(&self, dir: Direction) -> Result<(), String>;

    /// Couples another agent to be towed by this one.
    fn pull(&self, other: &Self) -> Result<(), String>;

    /// Moves by being towed by the named agent.
    fn move_pulled_by(&self, other: &Self) -> Result<(), String>;
}

/// The point-to-point path search, implemented by the caller over whatever
/// search the host offers. The engine hands it one prepared cost grid per
/// room and an operation budget; it claims nothing about the result beyond
/// its type, and every use is verified to cope with any answer.
pub trait PathfindingProvider: TerrainSource {
    /// Single-goal search from `origin` to within `range` of `goal`.
    fn search(
        &mut self,
        origin: Position,
        goal: Position,
        range: u32,
        cost_grids: &Vec<(RoomName, crate::costmatrix::DenseCostMatrix)>,
        max_ops: u32,
        plain_cost: u8,
        swamp_cost: u8,
    ) -> PathfindingResult;

    /// Multi-goal search; with `flee` set it maximizes distance from the
    /// goals instead of reaching them.
    fn search_many(
        &mut self,
        origin: Position,
        goals: &Vec<(Position, u32)>,
        flee: bool,
        cost_grids: &Vec<(RoomName, crate::costmatrix::DenseCostMatrix)>,
        max_ops: u32,
        plain_cost: u8,
        swamp_cost: u8,
    ) -> PathfindingResult;

    /// The room-level route between two rooms.
    fn find_route(&self, from: RoomName, to: RoomName) -> Result<Vec<RouteStep>, String>;

    /// The room-grid distance between two rooms.
    fn get_room_linear_distance(&self, from: RoomName, to: RoomName) -> u32;
}

/// Intent-based visualization callbacks: the engine reports what happened,
/// the implementor decides how (or whether) to render it.
pub trait MovementVisualizer {
    /// An agent is moving along a path; `path` holds the remaining tiles.
    fn visualize_path(&mut self, creep_pos: Position, path: &Vec<Position>);

    /// An agent has arrived and is anchored to a work position.
    fn visualize_anchor(&mut self, creep_pos: Position, anchor_pos: Position);

    /// An agent has arrived and is immovable.
    fn visualize_immovable(&mut self, creep_pos: Position);

    /// An agent has not moved for `ticks` consecutive ticks.
    fn visualize_stuck(&mut self, creep_pos: Position, ticks: u16);

    /// An agent's movement failed.
    fn visualize_failed(&mut self, creep_pos: Position);
}


/// The orchestrator's window onto the caller's world: agent lookup, the
/// persisted per-agent path state, and the room routing cost policy.
pub trait MovementSystemExternal<C: CreepHandle> {
    /// The in-world object of an agent, or an error when it is gone.
    fn get_creep(&self, entity: u64) -> Result<C, String>;

    /// The agent's persisted path state (a fresh default when none is
    /// stored). Expected to be round-tripped unchanged between ticks.
    fn get_creep_movement_data(&self, entity: u64) -> crate::pathstate::CreepMovementData;

    /// Stores the agent's path state for the next tick.
    fn set_creep_movement_data(&mut self, entity: u64, data: crate::pathstate::CreepMovementData);

    /// Routing cost of crossing from one room into an adjacent one; `None`
    /// means the crossing is disallowed by policy.
    fn get_room_cost(
        &self,
        from_room: RoomName,
        to_room: RoomName,
        room_options: &crate::request::RoomOptions,
    ) -> Option<u32>;
}

} // verus!
