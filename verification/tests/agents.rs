use creep_movement::position::{Position, RoomName};
use creep_movement::request::{AnchorConstraint, MovementIntent, MovementPriority, MovementRequest};
use creep_movement::resolver::{
    resolve_conflicts, resolve_swaps, topological_sort_follows, try_shove, ResolvedCreep,
    MAX_SHOVE_DEPTH,
};
use creep_movement::traits::TerrainSource;

fn room() -> RoomName {
    RoomName { x: 0, y: 0 }
}

fn pos(x: u8, y: u8) -> Position {
    Position::new(room(), x, y)
}

fn agent(entity: u64, at: Position, wants: Option<Position>, priority: MovementPriority) -> ResolvedCreep {
    ResolvedCreep {
        entity,
        current_pos: at,
        desired_pos: wants,
        priority,
        allow_shove: true,
        allow_swap: true,
        stuck_ticks: 0,
        resolved: false,
        final_pos: at,
        has_request: true,
        anchor: None,
    }
}

struct OpenField;

impl TerrainSource for OpenField {
    fn is_tile_walkable(&self, _pos: Position) -> bool {
        true
    }
}

/// Only the row y = 10 is walkable: a one-tile-wide corridor.
struct Corridor;

impl TerrainSource for Corridor {
    fn is_tile_walkable(&self, pos: Position) -> bool {
        pos.y == 10
    }
}

/// A dead-ended corridor: row y = 10, columns 9 through 13 only.
struct BoundedCorridor;

impl TerrainSource for BoundedCorridor {
    fn is_tile_walkable(&self, pos: Position) -> bool {
        pos.y == 10 && (9..=13).contains(&pos.x)
    }
}

fn final_of(creeps: &Vec<ResolvedCreep>, entity: u64) -> Position {
    for c in creeps.iter() {
        if c.entity == entity {
            assert!(c.resolved);
            return c.final_pos;
        }
    }
    panic!("agent not found");
}

#[test]
fn higher_priority_wins_contested_tile() {
    let target = pos(6, 6);
    let mut creeps = vec![
        agent(1, pos(5, 5), Some(target), MovementPriority::High),
        agent(2, pos(7, 7), Some(target), MovementPriority::Low),
    ];
    let idle: Vec<Position> = Vec::new();
    resolve_conflicts(&mut creeps, &idle, &OpenField);
    assert_eq!(final_of(&creeps, 1), target);
    assert_eq!(final_of(&creeps, 2), pos(7, 7));
}

#[test]
fn priority_wins_regardless_of_submission_order() {
    let target = pos(6, 6);
    let mut creeps = vec![
        agent(2, pos(7, 7), Some(target), MovementPriority::Low),
        agent(1, pos(5, 5), Some(target), MovementPriority::High),
    ];
    let idle: Vec<Position> = Vec::new();
    resolve_conflicts(&mut creeps, &idle, &OpenField);
    assert_eq!(final_of(&creeps, 1), target);
    assert_eq!(final_of(&creeps, 2), pos(7, 7));
}

#[test]
fn equal_priority_tie_broken_by_stuck_ticks() {
    let target = pos(6, 6);
    let mut a = agent(1, pos(5, 5), Some(target), MovementPriority::Normal);
    let mut b = agent(2, pos(7, 7), Some(target), MovementPriority::Normal);
    a.stuck_ticks = 1;
    b.stuck_ticks = 4;
    let mut creeps = vec![a, b];
    let idle: Vec<Position> = Vec::new();
    resolve_conflicts(&mut creeps, &idle, &OpenField);
    assert_eq!(final_of(&creeps, 2), target);
    assert_eq!(final_of(&creeps, 1), pos(5, 5));
}

#[test]
fn swap_resolves_both_atomically() {
    let mut creeps = vec![
        agent(1, pos(1, 1), Some(pos(1, 2)), MovementPriority::Normal),
        agent(2, pos(1, 2), Some(pos(1, 1)), MovementPriority::Normal),
    ];
    let idle: Vec<Position> = Vec::new();
    resolve_swaps(&mut creeps, &idle);
    assert!(creeps[0].resolved && creeps[1].resolved);
    assert_eq!(creeps[0].final_pos, pos(1, 2));
    assert_eq!(creeps[1].final_pos, pos(1, 1));
}

#[test]
fn swap_needs_permission_from_both() {
    let mut b = agent(2, pos(1, 2), Some(pos(1, 1)), MovementPriority::Normal);
    b.allow_swap = false;
    let mut creeps = vec![
        agent(1, pos(1, 1), Some(pos(1, 2)), MovementPriority::Normal),
        b,
    ];
    let idle: Vec<Position> = Vec::new();
    resolve_swaps(&mut creeps, &idle);
    assert!(!creeps[0].resolved && !creeps[1].resolved);
}

#[test]
fn immovable_never_swaps() {
    let mut creeps = vec![
        agent(1, pos(1, 1), Some(pos(1, 2)), MovementPriority::Normal),
        agent(2, pos(1, 2), Some(pos(1, 1)), MovementPriority::Immovable),
    ];
    let idle: Vec<Position> = Vec::new();
    resolve_conflicts(&mut creeps, &idle, &OpenField);
    assert_eq!(final_of(&creeps, 2), pos(1, 2));
    assert_eq!(final_of(&creeps, 1), pos(1, 1));
}

#[test]
fn immovable_blocker_cannot_be_shoved() {
    // an Immovable agent holds the only tile another agent needs
    let mut creeps = vec![
        agent(1, pos(9, 10), Some(pos(10, 10)), MovementPriority::High),
        agent(2, pos(10, 10), None, MovementPriority::Immovable),
    ];
    let idle: Vec<Position> = Vec::new();
    resolve_conflicts(&mut creeps, &idle, &Corridor);
    // the shove fails and the mover stays where it was
    assert_eq!(final_of(&creeps, 1), pos(9, 10));
    assert_eq!(final_of(&creeps, 2), pos(10, 10));
}

#[test]
fn anchored_agent_stays_within_radius_when_shoved() {
    let anchor_point = pos(10, 10);
    let mut blocker = agent(2, pos(10, 10), None, MovementPriority::Normal);
    blocker.anchor = Some(AnchorConstraint { position: anchor_point, range: 1 });
    let mut creeps = vec![
        agent(1, pos(9, 9), Some(pos(10, 10)), MovementPriority::High),
        blocker,
    ];
    let idle: Vec<Position> = Vec::new();
    resolve_conflicts(&mut creeps, &idle, &OpenField);
    let blocker_final = final_of(&creeps, 2);
    assert!(blocker_final.get_range_to(anchor_point) <= 1);
    assert_eq!(final_of(&creeps, 1), pos(10, 10));
}

#[test]
fn anchor_radius_zero_prevents_any_shove() {
    let anchor_point = pos(10, 10);
    let mut blocker = agent(2, pos(10, 10), None, MovementPriority::Normal);
    blocker.anchor = Some(AnchorConstraint { position: anchor_point, range: 0 });
    let mut creeps = vec![
        agent(1, pos(9, 9), Some(pos(10, 10)), MovementPriority::High),
        blocker,
    ];
    let idle: Vec<Position> = Vec::new();
    resolve_conflicts(&mut creeps, &idle, &OpenField);
    assert_eq!(final_of(&creeps, 2), pos(10, 10));
    assert_eq!(final_of(&creeps, 1), pos(9, 9));
}

#[test]
fn shove_chain_within_depth_bound_succeeds() {
    // corridor: w(9) -> o1(10) o2(11) o3(12), free tile at 13
    let mut creeps = vec![
        agent(1, pos(9, 10), Some(pos(10, 10)), MovementPriority::High),
        agent(2, pos(10, 10), None, MovementPriority::Normal),
        agent(3, pos(11, 10), None, MovementPriority::Normal),
        agent(4, pos(12, 10), None, MovementPriority::Normal),
    ];
    let idle: Vec<Position> = Vec::new();
    resolve_conflicts(&mut creeps, &idle, &Corridor);
    assert_eq!(final_of(&creeps, 1), pos(10, 10));
    assert_eq!(final_of(&creeps, 2), pos(11, 10));
    assert_eq!(final_of(&creeps, 3), pos(12, 10));
    assert_eq!(final_of(&creeps, 4), pos(13, 10));
}

#[test]
fn shove_chain_exceeding_depth_bound_fails_cleanly() {
    // a dead-ended corridor with one blocker more than the depth bound
    // allows: the request is denied and nobody moves at all
    let mut creeps = vec![
        agent(1, pos(9, 10), Some(pos(10, 10)), MovementPriority::High),
        agent(2, pos(10, 10), None, MovementPriority::Normal),
        agent(3, pos(11, 10), None, MovementPriority::Normal),
        agent(4, pos(12, 10), None, MovementPriority::Normal),
        agent(5, pos(13, 10), None, MovementPriority::Normal),
    ];
    let idle: Vec<Position> = Vec::new();
    resolve_conflicts(&mut creeps, &idle, &BoundedCorridor);
    for e in 1..=5u64 {
        let c = creeps.iter().find(|c| c.entity == e).unwrap();
        assert_eq!(c.final_pos, c.current_pos);
    }
}

#[test]
fn try_shove_refuses_at_max_depth_and_changes_nothing() {
    let mut creeps = vec![agent(2, pos(10, 10), None, MovementPriority::Normal)];
    let idle: Vec<Position> = Vec::new();
    let mut avoid: Vec<Position> = Vec::new();
    let before: Vec<(u64, Position, bool)> =
        creeps.iter().map(|c| (c.entity, c.final_pos, c.resolved)).collect();
    let shoved = try_shove(&mut creeps, &idle, &OpenField, 0, MAX_SHOVE_DEPTH, &mut avoid);
    assert!(!shoved);
    let after: Vec<(u64, Position, bool)> =
        creeps.iter().map(|c| (c.entity, c.final_pos, c.resolved)).collect();
    assert_eq!(before, after);
}

#[test]
fn idle_agents_block_and_are_never_moved() {
    let mut creeps = vec![agent(1, pos(9, 10), Some(pos(10, 10)), MovementPriority::High)];
    let idle = vec![pos(10, 10)];
    resolve_conflicts(&mut creeps, &idle, &OpenField);
    assert_eq!(final_of(&creeps, 1), pos(9, 10));
}

#[test]
fn convoy_advances_front_to_back_in_one_tick() {
    // three agents in single file, each requesting a one-step advance
    let mut creeps = vec![
        agent(1, pos(5, 5), Some(pos(5, 4)), MovementPriority::Normal),
        agent(2, pos(5, 6), Some(pos(5, 5)), MovementPriority::Normal),
        agent(3, pos(5, 7), Some(pos(5, 6)), MovementPriority::Normal),
    ];
    let idle: Vec<Position> = Vec::new();
    resolve_conflicts(&mut creeps, &idle, &OpenField);
    assert_eq!(final_of(&creeps, 1), pos(5, 4));
    assert_eq!(final_of(&creeps, 2), pos(5, 5));
    assert_eq!(final_of(&creeps, 3), pos(5, 6));
}

#[test]
fn no_two_agents_share_a_final_tile() {
    // a crowded square all wanting the same tile
    let target = pos(25, 25);
    let mut creeps = Vec::new();
    let mut e = 1u64;
    for x in 24..=26u8 {
        for y in 24..=26u8 {
            if (x, y) != (25, 25) {
                creeps.push(agent(e, pos(x, y), Some(target), MovementPriority::Normal));
                e += 1;
            }
        }
    }
    let idle: Vec<Position> = Vec::new();
    resolve_conflicts(&mut creeps, &idle, &OpenField);
    for i in 0..creeps.len() {
        for j in 0..creeps.len() {
            if i != j {
                assert_ne!(creeps[i].final_pos, creeps[j].final_pos);
            }
        }
    }
}

fn follow_request(target: u64) -> MovementRequest {
    let mut r = MovementRequest::move_to(Position::new(RoomName { x: 0, y: 0 }, 0, 0));
    r.intent = MovementIntent::Follow { target, offset: None };
    r
}

#[test]
fn follow_cycle_is_fully_sorted_with_one_edge_severed() {
    let requests = vec![
        (1u64, follow_request(2)),
        (2u64, follow_request(3)),
        (3u64, follow_request(1)),
    ];
    let (sorted, broken) = topological_sort_follows(&requests);
    assert_eq!(sorted.len(), 3);
    let mut seen = sorted.clone();
    seen.sort();
    assert_eq!(seen, vec![1, 2, 3]);
    assert_eq!(broken.len(), 1);
}

#[test]
fn follow_chain_sorts_leaders_first() {
    // 1 follows 2, 2 follows 3: the leader 3 must come out first
    let requests = vec![
        (1u64, follow_request(2)),
        (2u64, follow_request(3)),
        (3u64, MovementRequest::move_to(Position::new(RoomName { x: 0, y: 0 }, 7, 7))),
    ];
    let (sorted, broken) = topological_sort_follows(&requests);
    assert_eq!(sorted, vec![3, 2, 1]);
    assert_eq!(broken.len(), 0);
}

#[test]
fn self_follow_is_severed() {
    let requests = vec![(1u64, follow_request(1))];
    let (sorted, broken) = topological_sort_follows(&requests);
    assert_eq!(sorted, vec![1]);
    assert_eq!(broken, vec![(1, 1)]);
}
