use std::collections::HashMap;

use creep_movement::costcache::{
    CostMatrixCache, CostMatrixDataSource, CostMatrixStorage, CostMatrixSystem,
    ConstructionSiteCostMatrixCache, CreepCostMatrixCache, StuctureCostMatrixCache,
};
use creep_movement::costmatrix::DenseCostMatrix;
use creep_movement::movementsystem::{MovementData, MovementSystem};
use creep_movement::pathstate::CreepMovementData;
use creep_movement::position::{Direction, Position, RoomName};
use creep_movement::request::{MovementIntent, MovementRequest};
use creep_movement::result::{MovementFailure, MovementResult, MovementResults};
use creep_movement::traits::{
    CreepHandle, MovementSystemExternal, MovementVisualizer, PathfindingProvider,
    PathfindingResult, RouteStep, TerrainSource,
};

struct MockStorage;

impl CostMatrixStorage for MockStorage {
    fn get_cache(&self, _segment: u32) -> Result<CostMatrixCache, String> {
        Err("no stored cache".to_string())
    }

    fn set_cache(&mut self, _segment: u32, _data: &CostMatrixCache) -> Result<(), String> {
        Ok(())
    }
}

struct EmptyWorld;

impl CostMatrixDataSource for EmptyWorld {
    fn get_structure_costs(&self, _room: RoomName) -> Option<StuctureCostMatrixCache> {
        None
    }

    fn get_construction_site_costs(&self, _room: RoomName) -> Option<ConstructionSiteCostMatrixCache> {
        None
    }

    fn get_creep_costs(&self, _room: RoomName) -> Option<CreepCostMatrixCache> {
        None
    }
}

/// Walks straight toward the goal, ignoring costs: enough to exercise the
/// engine's own decisions.
struct LinePathfinder;

fn step_toward(from: Position, to: Position) -> Position {
    let dx: i32 = (to.x as i32 - from.x as i32).signum();
    let dy: i32 = (to.y as i32 - from.y as i32).signum();
    Position::new(from.room, (from.x as i32 + dx) as u8, (from.y as i32 + dy) as u8)
}

impl TerrainSource for LinePathfinder {
    fn is_tile_walkable(&self, _pos: Position) -> bool {
        true
    }
}

impl PathfindingProvider for LinePathfinder {
    fn search(
        &mut self,
        origin: Position,
        goal: Position,
        range: u32,
        _cost_grids: &Vec<(RoomName, DenseCostMatrix)>,
        _max_ops: u32,
        _plain_cost: u8,
        _swamp_cost: u8,
    ) -> PathfindingResult {
        let mut path = Vec::new();
        let mut cur = origin;
        while cur.get_range_to(goal) > range && path.len() < 100 {
            cur = step_toward(cur, goal);
            path.push(cur);
        }
        PathfindingResult { path, incomplete: false }
    }

    fn search_many(
        &mut self,
        origin: Position,
        goals: &Vec<(Position, u32)>,
        _flee: bool,
        _cost_grids: &Vec<(RoomName, DenseCostMatrix)>,
        _max_ops: u32,
        _plain_cost: u8,
        _swamp_cost: u8,
    ) -> PathfindingResult {
        // step directly away from the first goal
        let mut path = Vec::new();
        if let Some((threat, _)) = goals.first() {
            let dx: i32 = (origin.x as i32 - threat.x as i32).signum();
            let dy: i32 = (origin.y as i32 - threat.y as i32).signum();
            let nx = origin.x as i32 + if dx == 0 { 1 } else { dx };
            let ny = origin.y as i32 + dy;
            if (0..50).contains(&nx) && (0..50).contains(&ny) {
                path.push(Position::new(origin.room, nx as u8, ny as u8));
            }
        }
        PathfindingResult { path, incomplete: false }
    }

    fn find_route(&self, _from: RoomName, _to: RoomName) -> Result<Vec<RouteStep>, String> {
        Ok(Vec::new())
    }

    fn get_room_linear_distance(&self, from: RoomName, to: RoomName) -> u32 {
        let dx = (from.x as i32 - to.x as i32).abs();
        let dy = (from.y as i32 - to.y as i32).abs();
        dx.max(dy) as u32
    }
}

#[derive(Copy, Clone)]
struct MockCreep {
    p: Position,
}

impl CreepHandle for MockCreep {
    fn pos(&self) -> Position {
        self.p
    }

    fn fatigue(&self) -> u32 {
        0
    }

    fn spawning(&self) -> bool {
        false
    }

    fn move_direction(&self, _dir: Direction) -> Result<(), String> {
        Ok(())
    }

    fn pull(&self, _other: &Self) -> Result<(), String> {
        Ok(())
    }

    fn move_pulled_by(&self, _other: &Self) -> Result<(), String> {
        Ok(())
    }
}

struct MockExternal {
    positions: HashMap<u64, Position>,
    data: HashMap<u64, CreepMovementData>,
}

impl MockExternal {
    fn new() -> MockExternal {
        MockExternal { positions: HashMap::new(), data: HashMap::new() }
    }
}

impl MovementSystemExternal<MockCreep> for MockExternal {
    fn get_creep(&self, entity: u64) -> Result<MockCreep, String> {
        match self.positions.get(&entity) {
            Some(p) => Ok(MockCreep { p: *p }),
            None => Err("creep not found".to_string()),
        }
    }

    fn get_creep_movement_data(&self, entity: u64) -> CreepMovementData {
        match self.data.get(&entity) {
            Some(d) => d.clone(),
            None => CreepMovementData::new(),
        }
    }

    fn set_creep_movement_data(&mut self, entity: u64, data: CreepMovementData) {
        self.data.insert(entity, data);
    }

    fn get_room_cost(
        &self,
        _from: RoomName,
        _to: RoomName,
        _options: &creep_movement::request::RoomOptions,
    ) -> Option<u32> {
        Some(1)
    }
}

struct CountingVisualizer {
    paths: u32,
    stuck: u32,
    failed: u32,
}

impl CountingVisualizer {
    fn new() -> CountingVisualizer {
        CountingVisualizer { paths: 0, stuck: 0, failed: 0 }
    }
}

impl MovementVisualizer for CountingVisualizer {
    fn visualize_path(&mut self, _creep_pos: Position, _path: &Vec<Position>) {
        self.paths += 1;
    }

    fn visualize_anchor(&mut self, _creep_pos: Position, _anchor_pos: Position) {}

    fn visualize_immovable(&mut self, _creep_pos: Position) {}

    fn visualize_stuck(&mut self, _creep_pos: Position, _ticks: u16) {
        self.stuck += 1;
    }

    fn visualize_failed(&mut self, _creep_pos: Position) {
        self.failed += 1;
    }
}

fn pos(x: u8, y: u8) -> Position {
    Position::new(RoomName { x: 0, y: 0 }, x, y)
}

fn run_tick(
    cms: &mut CostMatrixSystem<MockStorage>,
    external: &mut MockExternal,
    data: MovementData,
    idle: &Vec<Position>,
    tick: u32,
) -> MovementResults {
    let mut provider = LinePathfinder;
    let mut viz = CountingVisualizer::new();
    let mut system = MovementSystem::new(cms);
    system.process(external, &mut provider, &EmptyWorld, &mut viz, data, idle, tick)
}

#[test]
fn agent_moves_toward_destination() {
    let mut cms = CostMatrixSystem::new(MockStorage, 0);
    let mut external = MockExternal::new();
    external.positions.insert(1, pos(5, 5));
    let mut data = MovementData::new();
    data.move_to(1, pos(5, 2));
    let idle: Vec<Position> = Vec::new();
    let results = run_tick(&mut cms, &mut external, data, &idle, 100);
    assert!(matches!(results.get(&1), Some(MovementResult::Moving)));
}

#[test]
fn agent_at_destination_reports_arrived() {
    let mut cms = CostMatrixSystem::new(MockStorage, 0);
    let mut external = MockExternal::new();
    external.positions.insert(1, pos(5, 5));
    let mut data = MovementData::new();
    data.move_to(1, pos(5, 5));
    let idle: Vec<Position> = Vec::new();
    let results = run_tick(&mut cms, &mut external, data, &idle, 100);
    assert!(matches!(results.get(&1), Some(MovementResult::Arrived)));
}

#[test]
fn agent_within_range_reports_arrived() {
    let mut cms = CostMatrixSystem::new(MockStorage, 0);
    let mut external = MockExternal::new();
    external.positions.insert(1, pos(5, 5));
    let mut data = MovementData::new();
    data.request(1, MovementRequest::move_to(pos(5, 8)).range(3));
    let idle: Vec<Position> = Vec::new();
    let results = run_tick(&mut cms, &mut external, data, &idle, 100);
    assert!(matches!(results.get(&1), Some(MovementResult::Arrived)));
}

#[test]
fn missing_agent_fails_without_aborting_the_tick() {
    let mut cms = CostMatrixSystem::new(MockStorage, 0);
    let mut external = MockExternal::new();
    external.positions.insert(1, pos(5, 5));
    let mut data = MovementData::new();
    data.move_to(1, pos(5, 2));
    data.move_to(99, pos(9, 9)); // no such agent in the world
    let idle: Vec<Position> = Vec::new();
    let results = run_tick(&mut cms, &mut external, data, &idle, 100);
    assert!(matches!(results.get(&1), Some(MovementResult::Moving)));
    assert!(matches!(
        results.get(&99),
        Some(MovementResult::Failed(MovementFailure::InternalError(_)))
    ));
}

#[test]
fn boxed_in_agent_escalates_to_stuck_timeout() {
    let mut cms = CostMatrixSystem::new(MockStorage, 0);
    let mut external = MockExternal::new();
    external.positions.insert(1, pos(5, 5));
    // idle agents on all eight neighboring tiles: no step can resolve
    let mut idle: Vec<Position> = Vec::new();
    for x in 4..=6u8 {
        for y in 4..=6u8 {
            if (x, y) != (5, 5) {
                idle.push(pos(x, y));
            }
        }
    }
    // the agent stays put; its immobile count rises by one each tick after
    // the first, and the default twelfth immobile tick reports the timeout
    for tick in 1..=13u32 {
        let mut data = MovementData::new();
        data.move_to(1, pos(8, 5));
        let results = run_tick(&mut cms, &mut external, data, &idle, tick);
        if tick <= 12 {
            match results.get(&1) {
                Some(MovementResult::Stuck { ticks }) => assert_eq!(*ticks, (tick - 1) as u16),
                other => panic!("expected Stuck at tick {}, got {:?}", tick, other),
            }
        } else {
            match results.get(&1) {
                Some(MovementResult::Failed(MovementFailure::StuckTimeout { ticks })) => {
                    assert_eq!(*ticks, 12)
                },
                other => panic!("expected StuckTimeout, got {:?}", other),
            }
        }
    }
}

#[test]
fn follower_steps_into_leaders_vacated_tile() {
    let mut cms = CostMatrixSystem::new(MockStorage, 0);
    let mut external = MockExternal::new();
    external.positions.insert(1, pos(10, 10));
    external.positions.insert(2, pos(10, 11));
    let mut data = MovementData::new();
    data.move_to(1, pos(10, 7));
    let mut follow = MovementRequest::move_to(pos(0, 0));
    follow.intent = MovementIntent::Follow { target: 1, offset: None };
    data.request(2, follow);
    let idle: Vec<Position> = Vec::new();
    let results = run_tick(&mut cms, &mut external, data, &idle, 100);
    assert!(matches!(results.get(&1), Some(MovementResult::Moving)));
    assert!(matches!(results.get(&2), Some(MovementResult::Moving)));
}

#[test]
fn safe_fleeing_agent_takes_no_action() {
    let mut cms = CostMatrixSystem::new(MockStorage, 0);
    let mut external = MockExternal::new();
    external.positions.insert(1, pos(30, 30));
    let mut data = MovementData::new();
    let mut flee = MovementRequest::move_to(pos(0, 0));
    flee.intent = MovementIntent::Flee { threats: vec![(pos(5, 5), 10)] };
    data.request(1, flee);
    let idle: Vec<Position> = Vec::new();
    let results = run_tick(&mut cms, &mut external, data, &idle, 100);
    assert!(matches!(results.get(&1), Some(MovementResult::Arrived)));
}

#[test]
fn threatened_agent_flees() {
    let mut cms = CostMatrixSystem::new(MockStorage, 0);
    let mut external = MockExternal::new();
    external.positions.insert(1, pos(10, 10));
    let mut data = MovementData::new();
    let mut flee = MovementRequest::move_to(pos(0, 0));
    flee.intent = MovementIntent::Flee { threats: vec![(pos(8, 10), 10)] };
    data.request(1, flee);
    let idle: Vec<Position> = Vec::new();
    let results = run_tick(&mut cms, &mut external, data, &idle, 100);
    assert!(matches!(results.get(&1), Some(MovementResult::Moving)));
}

#[test]
fn later_request_supersedes_earlier_one() {
    let mut data = MovementData::new();
    data.move_to(1, pos(5, 2));
    data.move_to(1, pos(9, 9));
    assert_eq!(data.requests.len(), 1);
    match &data.requests[0].1.intent {
        MovementIntent::MoveTo { destination } => assert_eq!(*destination, pos(9, 9)),
        _ => panic!("expected a move-to intent"),
    }
}

/// A pathfinder whose searches always exhaust their budget.
struct ExhaustedPathfinder;

impl TerrainSource for ExhaustedPathfinder {
    fn is_tile_walkable(&self, _pos: Position) -> bool {
        true
    }
}

impl PathfindingProvider for ExhaustedPathfinder {
    fn search(
        &mut self,
        _origin: Position,
        _goal: Position,
        _range: u32,
        _cost_grids: &Vec<(RoomName, DenseCostMatrix)>,
        _max_ops: u32,
        _plain_cost: u8,
        _swamp_cost: u8,
    ) -> PathfindingResult {
        PathfindingResult { path: Vec::new(), incomplete: true }
    }

    fn search_many(
        &mut self,
        _origin: Position,
        _goals: &Vec<(Position, u32)>,
        _flee: bool,
        _cost_grids: &Vec<(RoomName, DenseCostMatrix)>,
        _max_ops: u32,
        _plain_cost: u8,
        _swamp_cost: u8,
    ) -> PathfindingResult {
        PathfindingResult { path: Vec::new(), incomplete: true }
    }

    fn find_route(&self, _from: RoomName, _to: RoomName) -> Result<Vec<RouteStep>, String> {
        Ok(vec![RouteStep { room: RoomName { x: 1, y: 0 } }])
    }

    fn get_room_linear_distance(&self, _from: RoomName, _to: RoomName) -> u32 {
        1
    }
}

/// Denies every room crossing.
struct ClosedBorders;

impl MovementSystemExternal<MockCreep> for ClosedBorders {
    fn get_creep(&self, _entity: u64) -> Result<MockCreep, String> {
        Ok(MockCreep { p: Position::new(RoomName { x: 0, y: 0 }, 5, 5) })
    }

    fn get_creep_movement_data(&self, _entity: u64) -> CreepMovementData {
        CreepMovementData::new()
    }

    fn set_creep_movement_data(&mut self, _entity: u64, _data: CreepMovementData) {}

    fn get_room_cost(
        &self,
        _from: RoomName,
        _to: RoomName,
        _options: &creep_movement::request::RoomOptions,
    ) -> Option<u32> {
        None
    }
}

#[test]
fn exhausted_search_with_no_prior_path_fails_as_path_not_found() {
    let mut cms = CostMatrixSystem::new(MockStorage, 0);
    let mut external = MockExternal::new();
    external.positions.insert(1, pos(5, 5));
    let mut data = MovementData::new();
    data.move_to(1, pos(40, 40));
    let idle: Vec<Position> = Vec::new();
    let mut provider = ExhaustedPathfinder;
    let mut viz = CountingVisualizer::new();
    let mut system = MovementSystem::new(&mut cms);
    let results = system.process(&mut external, &mut provider, &EmptyWorld, &mut viz, data, &idle, 1);
    assert!(matches!(
        results.get(&1),
        Some(MovementResult::Failed(MovementFailure::PathNotFound))
    ));
}

#[test]
fn denied_room_crossing_fails_as_room_blocked() {
    let mut cms = CostMatrixSystem::new(MockStorage, 0);
    let mut external = ClosedBorders;
    let mut data = MovementData::new();
    // the destination lies in the next room over and every crossing is denied
    data.move_to(1, Position::new(RoomName { x: 1, y: 0 }, 25, 25));
    let idle: Vec<Position> = Vec::new();
    let mut provider = ExhaustedPathfinder;
    let mut viz = CountingVisualizer::new();
    let mut system = MovementSystem::new(&mut cms);
    let results = system.process(&mut external, &mut provider, &EmptyWorld, &mut viz, data, &idle, 1);
    assert!(matches!(
        results.get(&1),
        Some(MovementResult::Failed(MovementFailure::RoomBlocked))
    ));
}

#[test]
fn resubmission_keeps_other_agents_requests() {
    let mut data = MovementData::new();
    data.move_to(1, pos(5, 2));
    data.move_to(2, pos(6, 2));
    data.move_to(1, pos(7, 7));
    assert_eq!(data.requests.len(), 2);
    let two = data.requests.iter().find(|(e, _)| *e == 2).unwrap();
    match &two.1.intent {
        MovementIntent::MoveTo { destination } => assert_eq!(*destination, pos(6, 2)),
        _ => panic!("expected a move-to intent"),
    }
}

#[test]
fn advancing_agent_never_counts_as_stuck_across_ticks() {
    let mut cms = CostMatrixSystem::new(MockStorage, 0);
    let mut external = MockExternal::new();
    let mut at = pos(5, 15);
    external.positions.insert(1, at);
    let idle: Vec<Position> = Vec::new();
    // walk tick by tick all the way to the destination: every tick reports
    // Moving, the persisted immobile count stays at zero, and the path's
    // next step always lies ahead
    for tick in 1..=20u32 {
        let mut data = MovementData::new();
        data.move_to(1, pos(5, 2));
        let results = run_tick(&mut cms, &mut external, data, &idle, tick);
        if at == pos(5, 2) {
            assert!(matches!(results.get(&1), Some(MovementResult::Arrived)));
            break;
        }
        assert!(matches!(results.get(&1), Some(MovementResult::Moving)));
        let stored = external.data.get(&1).unwrap().path_data.as_ref().unwrap();
        assert_eq!(stored.stuck.ticks_immobile, 0);
        // the engine steps the agent one tile toward the destination
        assert_eq!(stored.path[0], at);
        let next = stored.path[1];
        assert_eq!(at.get_range_to(next), 1);
        assert!(next.get_range_to(pos(5, 2)) < at.get_range_to(pos(5, 2)));
        at = next;
        external.positions.insert(1, at);
    }
    assert_eq!(at, pos(5, 2));
}
