use creep_movement::costcache::{
    compose_room_entry, refresh_room_entry, CostMatrixOptions, CostMatrixRoomEntry,
    CostMatrixTypeCache, CreepCostMatrixCache, ProximityFilter, StuctureCostMatrixCache,
};
use creep_movement::costmatrix::{DenseCostMatrix, LinearCostMatrix, SparseCostMatrix};
use creep_movement::position::{Position, RoomName};

#[test]
fn dense_grid_defaults_to_zero() {
    let grid = DenseCostMatrix::new();
    for x in 0..50u8 {
        for y in 0..50u8 {
            assert_eq!(grid.get(x, y), 0);
        }
    }
}

#[test]
fn sparse_overlay_round_trips_through_dense_grid() {
    let mut overlay = SparseCostMatrix::new();
    overlay.set(1, 2, 7);
    overlay.set(3, 4, 9);
    let mut grid = DenseCostMatrix::new();
    overlay.apply_to(&mut grid);
    // every written tile reads back the written value
    assert_eq!(grid.get(1, 2), 7);
    assert_eq!(grid.get(3, 4), 9);
    // unwritten tiles read the default
    assert_eq!(grid.get(0, 0), 0);
    assert_eq!(grid.get(2, 1), 0);
    assert_eq!(grid.get(49, 49), 0);
}

#[test]
fn linear_overlay_round_trips_and_last_write_wins() {
    let mut overlay = LinearCostMatrix::new();
    overlay.set(5, 5, 10);
    overlay.set(6, 6, 20);
    overlay.set(5, 5, 30);
    let mut grid = DenseCostMatrix::new();
    overlay.apply_to(&mut grid);
    assert_eq!(grid.get(5, 5), 30);
    assert_eq!(grid.get(6, 6), 20);
    assert_eq!(grid.get(5, 6), 0);
}

#[test]
fn sparse_get_reads_back_writes_and_default() {
    let mut overlay = SparseCostMatrix::new();
    assert_eq!(overlay.get(10, 10), 0);
    overlay.set(10, 10, 42);
    assert_eq!(overlay.get(10, 10), 42);
    overlay.set(10, 10, 43);
    assert_eq!(overlay.get(10, 10), 43);
    assert_eq!(overlay.get(10, 11), 0);
}

#[test]
fn override_apply_supersedes_stored_values() {
    let mut roads = LinearCostMatrix::new();
    roads.set(2, 2, 255);
    roads.set(3, 3, 255);
    let mut grid = DenseCostMatrix::new();
    roads.apply_to_override(&mut grid, 1);
    assert_eq!(grid.get(2, 2), 1);
    assert_eq!(grid.get(3, 3), 1);
    assert_eq!(grid.get(4, 4), 0);
}

#[test]
fn apply_preserves_unrelated_tiles() {
    let mut grid = DenseCostMatrix::new();
    grid.set(40, 40, 99);
    let mut overlay = LinearCostMatrix::new();
    overlay.set(1, 1, 5);
    overlay.apply_to(&mut grid);
    assert_eq!(grid.get(40, 40), 99);
    assert_eq!(grid.get(1, 1), 5);
}

#[test]
fn proximity_filter_keeps_only_nearby_tiles() {
    let room = RoomName { x: 0, y: 0 };
    let origin = Position::new(room, 10, 10);
    let mut overlay = LinearCostMatrix::new();
    overlay.set(11, 11, 200); // distance 1
    overlay.set(20, 10, 201); // distance 10
    let mut grid = DenseCostMatrix::new();
    overlay.apply_to_within(&mut grid, room, origin, 5);
    assert_eq!(grid.get(11, 11), 200);
    assert_eq!(grid.get(20, 10), 0);
}

#[test]
fn proximity_filter_skips_whole_room_out_of_range() {
    let far_room = RoomName { x: 3, y: 0 };
    let origin = Position::new(RoomName { x: 0, y: 0 }, 10, 10);
    let mut overlay = LinearCostMatrix::new();
    overlay.set(0, 10, 200);
    let mut grid = DenseCostMatrix::new();
    overlay.apply_to_within(&mut grid, far_room, origin, 5);
    assert_eq!(grid.get(0, 10), 0);
}

#[test]
fn proximity_filter_reaches_into_adjacent_room() {
    // origin at the east edge of its room; the overlay tile sits just across
    // the room border, two steps away in world coordinates
    let east_room = RoomName { x: 1, y: 0 };
    let origin = Position::new(RoomName { x: 0, y: 0 }, 49, 10);
    let mut overlay = LinearCostMatrix::new();
    overlay.set(1, 10, 200);
    let mut grid = DenseCostMatrix::new();
    overlay.apply_to_within(&mut grid, east_room, origin, 5);
    assert_eq!(grid.get(1, 10), 200);
}

#[test]
fn composition_applies_road_cost_override() {
    let mut roads = LinearCostMatrix::new();
    roads.set(7, 7, 255);
    let mut other = LinearCostMatrix::new();
    other.set(8, 8, 255);
    let entry = CostMatrixRoomEntry {
        structures: Some(CostMatrixTypeCache {
            last_updated: 1,
            data: StuctureCostMatrixCache { roads, other },
        }),
        construction: None,
        creeps: None,
    };
    let mut grid = DenseCostMatrix::new();
    let options = CostMatrixOptions::default();
    compose_room_entry(&entry, &mut grid, &options, RoomName { x: 0, y: 0 });
    assert_eq!(grid.get(7, 7), 1); // road cost supersedes the placeholder
    assert_eq!(grid.get(8, 8), 255);
    assert_eq!(grid.get(9, 9), 0);
}

#[test]
fn composition_honors_disabled_layers() {
    let mut roads = LinearCostMatrix::new();
    roads.set(7, 7, 255);
    let entry = CostMatrixRoomEntry {
        structures: Some(CostMatrixTypeCache {
            last_updated: 1,
            data: StuctureCostMatrixCache { roads, other: LinearCostMatrix::new() },
        }),
        construction: None,
        creeps: None,
    };
    let mut grid = DenseCostMatrix::new();
    let mut options = CostMatrixOptions::default();
    options.structures = false;
    compose_room_entry(&entry, &mut grid, &options, RoomName { x: 0, y: 0 });
    assert_eq!(grid.get(7, 7), 0);
}

#[test]
fn default_cost_options() {
    let o = CostMatrixOptions::default();
    assert!(o.structures && o.friendly_creeps && o.hostile_creeps && o.construction_sites);
    assert_eq!(o.road_cost, 1);
    assert_eq!(o.plains_cost, 2);
    assert_eq!(o.swamp_cost, 10);
    assert!(o.friendly_proximity.is_none());
    let f = ProximityFilter { origin: Position::new(RoomName { x: 0, y: 0 }, 1, 1), range: 3 };
    assert_eq!(f.range, 3);
}

#[test]
fn refresh_keeps_static_data_and_clears_dynamic_layers() {
    let mut roads = LinearCostMatrix::new();
    roads.set(1, 1, 255);
    let mut old_creeps = LinearCostMatrix::new();
    old_creeps.set(2, 2, 255);
    let prior = CostMatrixRoomEntry {
        structures: Some(CostMatrixTypeCache {
            last_updated: 7,
            data: StuctureCostMatrixCache { roads, other: LinearCostMatrix::new() },
        }),
        construction: None,
        creeps: Some(CostMatrixTypeCache {
            last_updated: 7,
            data: CreepCostMatrixCache {
                friendly_creeps: old_creeps,
                hostile_creeps: LinearCostMatrix::new(),
                source_keeper_agro: LinearCostMatrix::new(),
            },
        }),
    };
    // one tick later, the source is silent about everything
    let refreshed = refresh_room_entry(prior, None, None, None, 8);
    // the static structure layer keeps its cached data
    let s = refreshed.structures.expect("static layer kept");
    assert_eq!(s.last_updated, 7);
    assert_eq!(s.data.roads.data, vec![(1, 1, 255)]);
    // the stale occupant layer is cleared, not reused
    assert!(refreshed.creeps.is_none());
    assert!(refreshed.construction.is_none());
}

#[test]
fn refresh_leaves_layers_refreshed_this_tick_untouched() {
    let mut creeps = LinearCostMatrix::new();
    creeps.set(3, 3, 255);
    let prior = CostMatrixRoomEntry {
        structures: None,
        construction: None,
        creeps: Some(CostMatrixTypeCache {
            last_updated: 8,
            data: CreepCostMatrixCache {
                friendly_creeps: creeps,
                hostile_creeps: LinearCostMatrix::new(),
                source_keeper_agro: LinearCostMatrix::new(),
            },
        }),
    };
    let refreshed = refresh_room_entry(prior, None, None, None, 8);
    let k = refreshed.creeps.expect("current layer kept");
    assert_eq!(k.last_updated, 8);
    assert_eq!(k.data.friendly_creeps.data, vec![(3, 3, 255)]);
}
