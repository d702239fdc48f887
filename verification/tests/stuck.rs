use creep_movement::movementsystem::{escalate_options, follow_desired, outcome_for_mover, plan_move, revalidate_path_entry, safe_from_threats, search_budget, MovePlan, StepExecution, NEARBY_OCCUPANT_RADIUS};
use creep_movement::request::MovementPriority as Priority;
use creep_movement::resolver::ResolvedCreep;
use creep_movement::costcache::CostMatrixOptions;
use creep_movement::pathstate::{CreepMovementData, CreepPathData};
use creep_movement::pathstate::{
    find_exact_head_index, find_trim_index, needs_regeneration, next_step, trim_path, StuckState,
    StuckThresholds,
};
use creep_movement::position::{Direction, Position, RoomName};
use creep_movement::request::{HostileBehavior, MovementPriority, RoomOptions};
use creep_movement::result::{MovementFailure, MovementResult, MovementResults};
use creep_movement::utility::{can_traverse_between_room_status, RoomStatus};

fn pos(x: u8, y: u8) -> Position {
    Position::new(RoomName { x: 0, y: 0 }, x, y)
}

#[test]
fn immobile_ticks_increase_while_blocked_and_reset_on_advance() {
    let mut s = StuckState::new();
    for expected in 1..=5u16 {
        s = s.update(false, 10);
        assert_eq!(s.ticks_immobile, expected);
    }
    s = s.update(true, 9);
    assert_eq!(s.ticks_immobile, 0);
    s = s.update(false, 9);
    assert_eq!(s.ticks_immobile, 1);
}

#[test]
fn no_progress_ticks_reset_only_on_distance_decrease() {
    let mut s = StuckState::new();
    s = s.update(true, 10); // first measurement: MAX -> 10 counts as progress
    assert_eq!(s.ticks_no_progress, 0);
    s = s.update(true, 10); // moved laterally, distance unchanged
    assert_eq!(s.ticks_no_progress, 1);
    assert_eq!(s.ticks_immobile, 0);
    s = s.update(true, 9); // distance decreased
    assert_eq!(s.ticks_no_progress, 0);
}

#[test]
fn default_thresholds_escalate_in_order() {
    let th = StuckThresholds::default();
    assert_eq!(th.avoid_nearby, 2);
    assert_eq!(th.avoid_all, 4);
    assert_eq!(th.double_ops, 7);
    assert_eq!(th.allow_displacement, 8);
    assert_eq!(th.fail_timeout, 12);
    assert_eq!(th.no_progress_repath, 15);
}

#[test]
fn eight_immobile_ticks_cross_first_four_tiers_but_not_timeout() {
    let th = StuckThresholds::default();
    let mut s = StuckState::new();
    for _ in 0..8 {
        s = s.update(false, 10);
    }
    assert!(s.avoid_nearby_occupants(&th));
    assert!(s.avoid_all_occupants(&th));
    assert!(s.double_search_ops(&th));
    assert!(s.displacement_allowed(&th));
    assert!(!s.timed_out(&th));
    for _ in 0..4 {
        s = s.update(false, 10);
    }
    assert_eq!(s.ticks_immobile, 12);
    assert!(s.timed_out(&th));
}

#[test]
fn repath_forced_by_stalled_distance_progress() {
    let th = StuckThresholds::default();
    let mut s = StuckState::new();
    s = s.update(true, 20);
    for _ in 0..15 {
        s = s.update(true, 20); // wandering without getting closer
    }
    assert_eq!(s.ticks_immobile, 0);
    assert!(s.repath_forced(&th));
    assert!(needs_regeneration(true, 0, 5, &s, &th));
}

#[test]
fn regeneration_triggers() {
    let th = StuckThresholds::default();
    let fresh = StuckState::new();
    assert!(needs_regeneration(false, 0, 5, &fresh, &th)); // no path
    assert!(needs_regeneration(true, 5, 5, &fresh, &th)); // reuse budget spent
    assert!(!needs_regeneration(true, 4, 5, &fresh, &th));
    let mut stuck = StuckState::new();
    stuck = stuck.update(false, 10);
    stuck = stuck.update(false, 10);
    assert!(needs_regeneration(true, 0, 5, &stuck, &th)); // stuck tier crossed
}

#[test]
fn exact_head_index_finds_the_agents_own_tile() {
    let path = vec![pos(5, 5), pos(5, 4), pos(5, 3)];
    assert_eq!(find_exact_head_index(&path, pos(5, 5)), Some(0)); // still at the head
    assert_eq!(find_exact_head_index(&path, pos(5, 4)), Some(1)); // advanced one step
    assert_eq!(find_exact_head_index(&path, pos(5, 3)), None); // beyond the first two
    assert_eq!(find_exact_head_index(&path, pos(6, 5)), None); // adjacency is not enough
}

#[test]
fn trim_index_is_the_fallback_for_agents_pushed_off_the_path() {
    let path = vec![pos(5, 5), pos(5, 4), pos(5, 3), pos(5, 2), pos(5, 1)];
    assert_eq!(find_trim_index(&path, pos(6, 5)), Some(0)); // adjacent to the head
    assert_eq!(find_trim_index(&path, pos(6, 2)), Some(2)); // adjacent to the third tile
    assert_eq!(find_trim_index(&path, pos(20, 20)), None); // far off the window
    assert_eq!(find_trim_index(&path, pos(5, 0)), None); // only near the tail, outside the window
}

#[test]
fn trim_path_drops_walked_prefix() {
    let path = vec![pos(5, 5), pos(5, 4), pos(5, 3)];
    let trimmed = trim_path(&path, 1);
    assert_eq!(trimmed, vec![pos(5, 4), pos(5, 3)]);
}

#[test]
fn next_step_returns_tile_after_current() {
    let path = vec![pos(5, 5), pos(5, 4), pos(5, 3)];
    assert_eq!(next_step(&path, pos(5, 5)), Some(pos(5, 4)));
    assert_eq!(next_step(&path, pos(6, 6)), Some(pos(5, 5)));
    let done = vec![pos(5, 5)];
    assert_eq!(next_step(&done, pos(5, 5)), None);
    let empty: Vec<Position> = Vec::new();
    assert_eq!(next_step(&empty, pos(5, 5)), None);
}

#[test]
fn range_and_direction_math() {
    assert_eq!(pos(5, 5).get_range_to(pos(8, 3)), 3);
    assert_eq!(pos(5, 5).get_range_to(pos(5, 5)), 0);
    // across a room border, tiles are one world step apart
    let east = Position::new(RoomName { x: 1, y: 0 }, 0, 10);
    let west = Position::new(RoomName { x: 0, y: 0 }, 49, 10);
    assert_eq!(west.get_range_to(east), 1);
    assert_eq!(west.get_direction_to(east), Some(Direction::Right));
    assert_eq!(pos(5, 5).get_direction_to(pos(5, 4)), Some(Direction::Top));
    assert_eq!(pos(5, 5).get_direction_to(pos(4, 6)), Some(Direction::BottomLeft));
    assert_eq!(pos(5, 5).get_direction_to(pos(5, 8)), None);
    assert_eq!(Direction::TopRight.into_offset(), (1, -1));
    assert_eq!(Direction::Left.into_offset(), (-1, 0));
}

#[test]
fn follow_prefers_offset_then_vacated_tile() {
    let leader_current = pos(10, 10);
    let leader_final = pos(10, 9);
    // formation offset one step behind the leader's new tile
    let me = pos(11, 9);
    assert_eq!(
        follow_desired(me, leader_current, leader_final, Some((0, 1))),
        Some(pos(10, 10))
    );
    // no offset: step into the vacated tile when adjacent
    assert_eq!(follow_desired(me, leader_current, leader_final, None), Some(pos(10, 10)));
    // leader stationary: no one-step rule applies
    assert_eq!(follow_desired(me, leader_current, leader_current, None), None);
    // too far away to use either rule
    assert_eq!(follow_desired(pos(20, 20), leader_current, leader_final, None), None);
}

#[test]
fn flee_safety_check() {
    let threats = vec![(pos(10, 10), 5u32), (pos(30, 30), 3u32)];
    assert!(safe_from_threats(pos(20, 20), &threats));
    assert!(!safe_from_threats(pos(12, 12), &threats));
    assert!(safe_from_threats(pos(15, 10), &threats)); // exactly at the minimum range
}

#[test]
fn room_status_policy() {
    assert!(can_traverse_between_room_status(RoomStatus::Normal, RoomStatus::Normal));
    assert!(!can_traverse_between_room_status(RoomStatus::Novice, RoomStatus::Normal));
    assert!(!can_traverse_between_room_status(RoomStatus::Normal, RoomStatus::Closed));
    assert!(!can_traverse_between_room_status(RoomStatus::Closed, RoomStatus::Closed));
    assert!(can_traverse_between_room_status(RoomStatus::Novice, RoomStatus::Novice));
    assert!(can_traverse_between_room_status(RoomStatus::Respawn, RoomStatus::Respawn));
    assert!(!can_traverse_between_room_status(RoomStatus::Respawn, RoomStatus::Novice));
}

#[test]
fn results_store_one_outcome_per_agent() {
    let mut results = MovementResults::new();
    assert!(results.get(&7).is_none());
    results.insert(7, MovementResult::Moving);
    assert!(matches!(results.get(&7), Some(MovementResult::Moving)));
    results.insert(7, MovementResult::Stuck { ticks: 3 });
    assert!(matches!(results.get(&7), Some(MovementResult::Stuck { ticks: 3 })));
    results.insert(8, MovementResult::Failed(MovementFailure::PathNotFound));
    assert!(matches!(
        results.get(&8),
        Some(MovementResult::Failed(MovementFailure::PathNotFound))
    ));
}

#[test]
fn room_options_default_denies_hostiles() {
    let o = RoomOptions::default();
    assert_eq!(o.hostile_behavior(), HostileBehavior::Deny);
    let o2 = RoomOptions::new(HostileBehavior::HighCost);
    assert_eq!(o2.hostile_behavior(), HostileBehavior::HighCost);
}

#[test]
fn priority_order_is_immovable_low_normal_high() {
    assert!(MovementPriority::Immovable.rank() < MovementPriority::Low.rank());
    assert!(MovementPriority::Low.rank() < MovementPriority::Normal.rank());
    assert!(MovementPriority::Normal.rank() < MovementPriority::High.rank());
}

#[test]
fn escalation_enables_occupant_avoidance_in_stages() {
    let th = StuckThresholds::default();
    let base = CostMatrixOptions {
        friendly_creeps: false,
        friendly_proximity: None,
        ..CostMatrixOptions::default()
    };
    let origin = pos(5, 5);
    let calm = StuckState::new();
    let r0 = escalate_options(base, &calm, &th, origin);
    assert!(!r0.friendly_creeps && r0.friendly_proximity.is_none());
    let mut tier1 = StuckState::new();
    for _ in 0..2 {
        tier1 = tier1.update(false, 10);
    }
    let r1 = escalate_options(base, &tier1, &th, origin);
    assert!(r1.friendly_creeps);
    let f = r1.friendly_proximity.unwrap();
    assert_eq!(f.origin, origin);
    assert_eq!(f.range, NEARBY_OCCUPANT_RADIUS);
    let mut tier1b = tier1;
    for _ in 0..2 {
        tier1b = tier1b.update(false, 10);
    }
    let r2 = escalate_options(base, &tier1b, &th, origin);
    assert!(r2.friendly_creeps && r2.friendly_proximity.is_none());
}

#[test]
fn revalidation_trims_ages_and_books_the_counters() {
    let entry = CreepPathData {
        destination: pos(5, 1),
        range: 0,
        path: vec![pos(5, 5), pos(5, 4), pos(5, 3), pos(5, 2), pos(5, 1)],
        time: 2,
        stuck: StuckState::new(),
    };
    let data = CreepMovementData { path_data: Some(entry) };
    // the agent advanced one step since the path was stored: it stands on
    // the second tile, the walked prefix is trimmed, and the advance resets
    // the immobile count
    let (kept, moved) = revalidate_path_entry(data, pos(5, 1), 0, pos(5, 4));
    assert!(moved);
    let kept = kept.unwrap();
    assert_eq!(kept.path, vec![pos(5, 4), pos(5, 3), pos(5, 2), pos(5, 1)]);
    assert_eq!(kept.time, 3);
    assert_eq!(kept.stuck.ticks_immobile, 0);

    // a different destination discards the entry
    let entry2 = CreepPathData {
        destination: pos(5, 1),
        range: 0,
        path: vec![pos(5, 5), pos(5, 4)],
        time: 0,
        stuck: StuckState::new(),
    };
    let data2 = CreepMovementData { path_data: Some(entry2) };
    let (kept2, moved2) = revalidate_path_entry(data2, pos(9, 9), 0, pos(5, 5));
    assert!(kept2.is_none() && !moved2);

    // standing still books an immobile tick
    let entry3 = CreepPathData {
        destination: pos(5, 1),
        range: 0,
        path: vec![pos(5, 5), pos(5, 4)],
        time: 0,
        stuck: StuckState::new(),
    };
    let data3 = CreepMovementData { path_data: Some(entry3) };
    let (kept3, moved3) = revalidate_path_entry(data3, pos(5, 1), 0, pos(5, 5));
    assert!(!moved3);
    assert_eq!(kept3.unwrap().stuck.ticks_immobile, 1);
}

#[test]
fn revalidation_counts_an_advance_as_progress_not_immobility() {
    // an agent standing on the second path tile has genuinely advanced: the
    // next step must lie ahead of it, never behind
    let mut blocked = StuckState::new();
    blocked = blocked.update(false, 4);
    let entry = CreepPathData {
        destination: pos(5, 1),
        range: 0,
        path: vec![pos(5, 5), pos(5, 4), pos(5, 3), pos(5, 2), pos(5, 1)],
        time: 0,
        stuck: blocked,
    };
    let data = CreepMovementData { path_data: Some(entry) };
    let (kept, moved) = revalidate_path_entry(data, pos(5, 1), 0, pos(5, 4));
    assert!(moved);
    let kept = kept.unwrap();
    assert_eq!(kept.stuck.ticks_immobile, 0); // the advance resets the counter
    assert_eq!(kept.path[0], pos(5, 4)); // the path now starts where the agent stands
    assert_eq!(next_step(&kept.path, pos(5, 4)), Some(pos(5, 3))); // and leads forward
}

#[test]
fn sideways_reattachment_is_not_counted_as_progress() {
    let entry = CreepPathData {
        destination: pos(5, 1),
        range: 0,
        path: vec![pos(5, 5), pos(5, 4), pos(5, 3)],
        time: 0,
        stuck: StuckState::new(),
    };
    let data = CreepMovementData { path_data: Some(entry) };
    // shoved one tile sideways: adjacent to the head but standing on no tile
    let (kept, moved) = revalidate_path_entry(data, pos(5, 1), 0, pos(6, 5));
    assert!(!moved);
    let kept = kept.unwrap();
    assert_eq!(kept.stuck.ticks_immobile, 1);
    assert_eq!(kept.path[0], pos(5, 5)); // re-attached at the head
}

#[test]
fn plan_times_out_steps_or_regenerates() {
    let th = StuckThresholds::default();
    // no entry: a first path is due
    assert!(matches!(plan_move(None, 5, &th), MovePlan::Regenerate { stale: None }));
    // a fresh entry within its reuse budget is stepped along
    let fresh = CreepPathData {
        destination: pos(5, 1),
        range: 0,
        path: vec![pos(5, 5), pos(5, 4)],
        time: 1,
        stuck: StuckState::new(),
    };
    assert!(matches!(plan_move(Some(fresh), 5, &th), MovePlan::Step(_)));
    // a spent reuse budget forces regeneration, keeping the stale entry
    let spent = CreepPathData {
        destination: pos(5, 1),
        range: 0,
        path: vec![pos(5, 5), pos(5, 4)],
        time: 5,
        stuck: StuckState::new(),
    };
    assert!(matches!(plan_move(Some(spent), 5, &th), MovePlan::Regenerate { stale: Some(_) }));
    // twelve immobile ticks reach the final tier
    let mut s = StuckState::new();
    for _ in 0..12 {
        s = s.update(false, 9);
    }
    let timed = CreepPathData {
        destination: pos(5, 1),
        range: 0,
        path: vec![pos(5, 5), pos(5, 4)],
        time: 0,
        stuck: s,
    };
    match plan_move(Some(timed), 5, &th) {
        MovePlan::Timeout { ticks, keep } => {
            assert_eq!(ticks, 12);
            assert!(keep.is_some());
        },
        _ => panic!("expected the stuck timeout"),
    }
}

#[test]
fn mover_outcomes_follow_the_resolution_record() {
    let mut c = ResolvedCreep {
        entity: 1,
        current_pos: pos(5, 5),
        desired_pos: Some(pos(5, 4)),
        priority: Priority::Normal,
        allow_shove: true,
        allow_swap: true,
        stuck_ticks: 3,
        resolved: true,
        final_pos: pos(5, 4),
        has_request: true,
        anchor: None,
    };
    assert!(matches!(outcome_for_mover(&c, StepExecution::Executed), MovementResult::Moving));
    assert!(matches!(
        outcome_for_mover(&c, StepExecution::Rejected("tired".to_string())),
        MovementResult::Failed(MovementFailure::InternalError(_))
    ));
    c.final_pos = c.current_pos;
    assert!(matches!(
        outcome_for_mover(&c, StepExecution::Executed),
        MovementResult::Stuck { ticks: 3 }
    ));
}

#[test]
fn search_budget_scales_and_doubles() {
    assert_eq!(search_budget(1, false), 2000);
    assert_eq!(search_budget(3, false), 6000);
    assert_eq!(search_budget(3, true), 12000);
    assert_eq!(search_budget(5000, false), 1024 * 2000);
}
