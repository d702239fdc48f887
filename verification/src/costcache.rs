//! Options controlling how per-room cost layers are composed into one dense
//! traversal-cost grid, and the per-room cache of those layers.

use vstd::prelude::*;
use crate::costmatrix::{DenseCostMatrix, LinearCostMatrix};

verus! {

/// Limits an occupant layer to tiles within `range` (Chebyshev distance in
/// world coordinates) of an origin tile.
#[derive(Copy, Clone, Debug, PartialEq, Eq, Structural)]
pub struct ProximityFilter {
    pub origin: crate::position::Position,
    pub range: u32,
}

/// Which cost layers to compose into a room's dense grid, and the terrain
/// and override costs to use while doing so.
#[derive(Copy, Clone, Debug, PartialEq, Eq, Structural)]
pub struct CostMatrixOptions {
    /// Include the static structure layer.
    pub structures: bool,
    /// Include the friendly-occupant layer.
    pub friendly_creeps: bool,
    /// Include the hostile-occupant layer.
    pub hostile_creeps: bool,
    /// Include the pending-construction layer.
    pub construction_sites: bool,
    /// Uniform cost written for road tiles, superseding the stored value.
    pub road_cost: u8,
    /// Cost of plain terrain, handed to the path search.
    pub plains_cost: u8,
    /// Cost of swamp terrain, handed to the path search.
    pub swamp_cost: u8,
    /// When set, friendly occupants count only near the filter's origin.
    pub friendly_proximity: Option<ProximityFilter>,
}

impl Default for CostMatrixOptions {
    /// All layers enabled, roads at cost 1, plains at 2, swamps at 10 and no
    /// proximity filter.
    fn default() -> (o: CostMatrixOptions)
        ensures
            o == CostMatrixOptions::spec_default(),
    {
        CostMatrixOptions {
            structures: true,
            friendly_creeps: true,
            hostile_creeps: true,
            construction_sites: true,
            road_cost: 1,
            plains_cost: 2,
            swamp_cost: 10,
            friendly_proximity: None,
        }
    }
}

impl CostMatrixOptions {
    pub open spec fn spec_default() -> CostMatrixOptions {
        CostMatrixOptions {
            structures: true,
            friendly_creeps: true,
            hostile_creeps: true,
            construction_sites: true,
            road_cost: 1,
            plains_cost: 2,
            swamp_cost: 10,
            friendly_proximity: None,
        }
    }
}


/// One cached cost layer together with the tick it was last refreshed.
#[derive(Clone, Debug)]
pub struct CostMatrixTypeCache<T> {
    pub last_updated: u32,
    pub data: T,
}

/// The static structure layer: road tiles (whose stored placeholder cost a
/// per-request road cost supersedes) and all other structures.
#[derive(Clone, Debug)]
pub struct StuctureCostMatrixCache {
    pub roads: LinearCostMatrix,
    pub other: LinearCostMatrix,
}

/// The pending-construction layer, split by owner and activity.
#[derive(Clone, Debug)]
pub struct ConstructionSiteCostMatrixCache {
    pub blocked_construction_sites: LinearCostMatrix,
    pub friendly_inactive_construction_sites: LinearCostMatrix,
    pub friendly_active_construction_sites: LinearCostMatrix,
    pub hostile_inactive_construction_sites: LinearCostMatrix,
    pub hostile_active_construction_sites: LinearCostMatrix,
}

/// The occupant layer: friendly and hostile agents, plus the zone around
/// hostile source keepers.
#[derive(Clone, Debug)]
pub struct CreepCostMatrixCache {
    pub friendly_creeps: LinearCostMatrix,
    pub hostile_creeps: LinearCostMatrix,
    pub source_keeper_agro: LinearCostMatrix,
}

/// The cached layers of one room; an absent layer contributes no cost.
#[derive(Clone, Debug)]
pub struct CostMatrixRoomEntry {
    pub structures: Option<CostMatrixTypeCache<StuctureCostMatrixCache>>,
    pub construction: Option<CostMatrixTypeCache<ConstructionSiteCostMatrixCache>>,
    pub creeps: Option<CostMatrixTypeCache<CreepCostMatrixCache>>,
}

impl CostMatrixRoomEntry {
    pub fn new() -> (e: CostMatrixRoomEntry)
        ensures
            e.structures is None,
            e.construction is None,
            e.creeps is None,
    {
        CostMatrixRoomEntry { structures: None, construction: None, creeps: None }
    }
}

/// The per-room cost layer cache.
#[derive(Clone, Debug)]
pub struct CostMatrixCache {
    pub rooms: Vec<(crate::position::RoomName, CostMatrixRoomEntry)>,
}

impl CostMatrixCache {
    /// Whether the cache holds an entry for `room`.
    pub open spec fn spec_has_room(self, room: crate::position::RoomName) -> bool {
        exists|i: int| 0 <= i < self.rooms@.len() && (#[trigger] self.rooms@[i]).0 == room
    }

    /// Whether `entry` is stored in the cache under `room`.
    pub open spec fn spec_room_entry_is(
        self,
        room: crate::position::RoomName,
        entry: CostMatrixRoomEntry,
    ) -> bool {
        exists|i: int| 0 <= i < self.rooms@.len() && (#[trigger] self.rooms@[i]) == (room, entry)
    }

    fn room_index(&self, room: crate::position::RoomName) -> (r: Option<usize>)
        ensures
            match r {
                Some(i) => i < self.rooms@.len() && self.rooms@[i as int].0 == room,
                None => !self.spec_has_room(room),
            },
    {
        let n = self.rooms.len();
        let mut i: usize = 0;
        while i < n
            invariant
                n == self.rooms@.len(),
                i <= n,
                forall|j: int| 0 <= j < i ==> (#[trigger] self.rooms@[j]).0 != room,
            decreases n - i,
        {
            if self.rooms[i].0 == room {
                return Some(i);
            }
            i = i + 1;
        }
        None
    }
}

impl Default for CostMatrixCache {
    fn default() -> (c: CostMatrixCache)
        ensures
            c.rooms@.len() == 0,
    {
        CostMatrixCache { rooms: Vec::new() }
    }
}

/// Persistence of the cost layer cache between ticks, implemented by the
/// caller (for example against a memory segment).
pub trait CostMatrixStorage {
    fn get_cache(&self, segment: u32) -> Result<CostMatrixCache, String>;

    fn set_cache(&mut self, segment: u32, data: &CostMatrixCache) -> Result<(), String>;
}

/// Live world-state queries that populate cost layers, implemented by the
/// caller. Absence means "no data this tick", never an error.
pub trait CostMatrixDataSource {
    fn get_structure_costs(&self, room_name: crate::position::RoomName) -> Option<
        StuctureCostMatrixCache,
    >;

    fn get_construction_site_costs(&self, room_name: crate::position::RoomName) -> Option<
        ConstructionSiteCostMatrixCache,
    >;

    fn get_creep_costs(&self, room_name: crate::position::RoomName) -> Option<
        CreepCostMatrixCache,
    >;
}

/// The cost a tile gets from the structure layer, over a base cost: roads
/// take the per-request road cost, superseding the stored placeholder;
/// other structures take their stored cost.
pub open spec fn structures_cost(
    structures: Option<CostMatrixTypeCache<StuctureCostMatrixCache>>,
    options: CostMatrixOptions,
    t: (int, int),
    base: u8,
) -> u8 {
    match structures {
        Some(c) => {
            if options.structures {
                let after_roads = if c.data.roads.overlay().contains_key(t) {
                    options.road_cost
                } else {
                    base
                };
                if c.data.other.overlay().contains_key(t) {
                    c.data.other.overlay()[t]
                } else {
                    after_roads
                }
            } else {
                base
            }
        },
        None => base,
    }
}

/// The cost a tile gets from the construction layer, over a base cost; the
/// five sub-layers apply in a fixed order, later ones superseding earlier.
pub open spec fn construction_cost(
    construction: Option<CostMatrixTypeCache<ConstructionSiteCostMatrixCache>>,
    options: CostMatrixOptions,
    t: (int, int),
    base: u8,
) -> u8 {
    match construction {
        Some(c) => {
            if options.construction_sites {
                let v0 = if c.data.blocked_construction_sites.overlay().contains_key(t) {
                    c.data.blocked_construction_sites.overlay()[t]
                } else {
                    base
                };
                let v1 = if c.data.friendly_inactive_construction_sites.overlay().contains_key(
                    t,
                ) {
                    c.data.friendly_inactive_construction_sites.overlay()[t]
                } else {
                    v0
                };
                let v2 = if c.data.friendly_active_construction_sites.overlay().contains_key(t) {
                    c.data.friendly_active_construction_sites.overlay()[t]
                } else {
                    v1
                };
                let v3 = if c.data.hostile_inactive_construction_sites.overlay().contains_key(t) {
                    c.data.hostile_inactive_construction_sites.overlay()[t]
                } else {
                    v2
                };
                if c.data.hostile_active_construction_sites.overlay().contains_key(t) {
                    c.data.hostile_active_construction_sites.overlay()[t]
                } else {
                    v3
                }
            } else {
                base
            }
        },
        None => base,
    }
}

/// The cost a tile gets from the occupant layer, over a base cost. Friendly
/// occupants are subject to the proximity filter when one is set; hostile
/// occupants and the source keeper zone apply unfiltered.
pub open spec fn creeps_cost(
    creeps: Option<CostMatrixTypeCache<CreepCostMatrixCache>>,
    options: CostMatrixOptions,
    room: crate::position::RoomName,
    t: (int, int),
    base: u8,
) -> u8 {
    match creeps {
        Some(c) => {
            let v0 = if options.friendly_creeps && c.data.friendly_creeps.overlay().contains_key(
                t,
            ) && (match options.friendly_proximity {
                Some(f) => crate::costmatrix::tile_within(room, t.0, t.1, f.origin, f.range),
                None => true,
            }) {
                c.data.friendly_creeps.overlay()[t]
            } else {
                base
            };
            let v1 = if options.hostile_creeps && c.data.hostile_creeps.overlay().contains_key(
                t,
            ) {
                c.data.hostile_creeps.overlay()[t]
            } else {
                v0
            };
            if options.hostile_creeps && c.data.source_keeper_agro.overlay().contains_key(t) {
                c.data.source_keeper_agro.overlay()[t]
            } else {
                v1
            }
        },
        None => base,
    }
}

/// The full composed cost of a tile: structures, then construction, then
/// occupants, each layer superseding the ones below on the tiles it holds.
pub open spec fn composed_cost(
    entry: CostMatrixRoomEntry,
    options: CostMatrixOptions,
    room: crate::position::RoomName,
    t: (int, int),
    base: u8,
) -> u8 {
    creeps_cost(
        entry.creeps,
        options,
        room,
        t,
        construction_cost(entry.construction, options, t, structures_cost(entry.structures, options, t, base)),
    )
}

/// Whether every overlay held by a room entry is well formed.
pub open spec fn entry_wf(entry: CostMatrixRoomEntry) -> bool {
    &&& (entry.structures matches Some(c) ==> c.data.roads.wf() && c.data.other.wf())
    &&& (entry.construction matches Some(c) ==> c.data.blocked_construction_sites.wf()
        && c.data.friendly_inactive_construction_sites.wf()
        && c.data.friendly_active_construction_sites.wf()
        && c.data.hostile_inactive_construction_sites.wf()
        && c.data.hostile_active_construction_sites.wf())
    &&& (entry.creeps matches Some(c) ==> c.data.friendly_creeps.wf()
        && c.data.hostile_creeps.wf() && c.data.source_keeper_agro.wf())
}

/// Composes the enabled layers of one room entry onto a dense grid in a
/// fixed order — structures, construction, occupants — honoring the
/// per-request enable flags, the road cost override and the proximity
/// filter on friendly occupants.
pub fn compose_room_entry(
    entry: &CostMatrixRoomEntry,
    target: &mut DenseCostMatrix,
    options: &CostMatrixOptions,
    room: crate::position::RoomName,
)
    requires
        entry_wf(*entry),
        old(target).wf(),
    ensures
        final(target).wf(),
        forall|tx: int, ty: int|
            crate::costmatrix::valid_tile((tx, ty)) ==> #[trigger] final(target).spec_cost(tx, ty)
                == composed_cost(*entry, *options, room, (tx, ty), old(target).spec_cost(tx, ty)),
{
    match &entry.structures {
        Some(c) => {
            if options.structures {
                c.data.roads.apply_to_override(target, options.road_cost);
                c.data.other.apply_to(target);
            }
        },
        None => {},
    }
    match &entry.construction {
        Some(c) => {
            if options.construction_sites {
                c.data.blocked_construction_sites.apply_to(target);
                c.data.friendly_inactive_construction_sites.apply_to(target);
                c.data.friendly_active_construction_sites.apply_to(target);
                c.data.hostile_inactive_construction_sites.apply_to(target);
                c.data.hostile_active_construction_sites.apply_to(target);
            }
        },
        None => {},
    }
    match &entry.creeps {
        Some(c) => {
            if options.friendly_creeps {
                match options.friendly_proximity {
                    Some(f) => {
                        c.data.friendly_creeps.apply_to_within(target, room, f.origin, f.range);
                    },
                    None => {
                        c.data.friendly_creeps.apply_to(target);
                    },
                }
            }
            if options.hostile_creeps {
                c.data.hostile_creeps.apply_to(target);
                c.data.source_keeper_agro.apply_to(target);
            }
        },
        None => {},
    }
}


/// A layer that never leaks stale data into a composition: it is either
/// absent or was refreshed this very tick. Dynamic layers (occupants,
/// construction) satisfy this after every cache refresh.
pub open spec fn layer_fresh<T>(layer: Option<CostMatrixTypeCache<T>>, current_tick: u32) -> bool {
    match layer {
        None => true,
        Some(c) => c.last_updated >= current_tick,
    }
}

/// Whether a cached layer is due for a refresh at `current_tick`: it is
/// absent or was last refreshed on an earlier tick.
pub open spec fn spec_layer_due<T>(layer: Option<CostMatrixTypeCache<T>>, current_tick: u32) -> bool {
    match layer {
        None => true,
        Some(c) => c.last_updated < current_tick,
    }
}

/// One refresh of a room's cached layers from the source's replies: a layer
/// already refreshed this tick is untouched; a due static structure layer
/// keeps its cached data when the reply is silent; the due dynamic layers
/// (construction, occupants) are replaced by their reply or cleared.
pub open spec fn spec_refresh_entry(
    prior: CostMatrixRoomEntry,
    structures: Option<StuctureCostMatrixCache>,
    construction: Option<ConstructionSiteCostMatrixCache>,
    creeps: Option<CreepCostMatrixCache>,
    current_tick: u32,
) -> CostMatrixRoomEntry {
    CostMatrixRoomEntry {
        structures: if spec_layer_due(prior.structures, current_tick) {
            match structures {
                Some(data) => Some(CostMatrixTypeCache { last_updated: current_tick, data }),
                None => prior.structures,
            }
        } else {
            prior.structures
        },
        construction: if spec_layer_due(prior.construction, current_tick) {
            match construction {
                Some(data) => Some(CostMatrixTypeCache { last_updated: current_tick, data }),
                None => None,
            }
        } else {
            prior.construction
        },
        creeps: if spec_layer_due(prior.creeps, current_tick) {
            match creeps {
                Some(data) => Some(CostMatrixTypeCache { last_updated: current_tick, data }),
                None => None,
            }
        } else {
            prior.creeps
        },
    }
}

/// Refreshes a room entry from the source's replies (see
/// [`spec_refresh_entry`]).
pub fn refresh_room_entry(
    prior: CostMatrixRoomEntry,
    structures: Option<StuctureCostMatrixCache>,
    construction: Option<ConstructionSiteCostMatrixCache>,
    creeps: Option<CreepCostMatrixCache>,
    current_tick: u32,
) -> (r: CostMatrixRoomEntry)
    ensures
        r == spec_refresh_entry(prior, structures, construction, creeps, current_tick),
{
    let structures_due = match &prior.structures {
        None => true,
        Some(c) => c.last_updated < current_tick,
    };
    let construction_due = match &prior.construction {
        None => true,
        Some(c) => c.last_updated < current_tick,
    };
    let creeps_due = match &prior.creeps {
        None => true,
        Some(c) => c.last_updated < current_tick,
    };
    let mut r = prior;
    if structures_due {
        match structures {
            Some(data) => {
                r.structures = Some(CostMatrixTypeCache { last_updated: current_tick, data });
            },
            None => {},
        }
    }
    if construction_due {
        r.construction = match construction {
            Some(data) => Some(CostMatrixTypeCache { last_updated: current_tick, data }),
            None => None,
        };
    }
    if creeps_due {
        r.creeps = match creeps {
            Some(data) => Some(CostMatrixTypeCache { last_updated: current_tick, data }),
            None => None,
        };
    }
    r
}

/// `prior` is the entry the cache held for `room` before this call (a fresh
/// empty entry when the cache held none).
pub open spec fn spec_prior_entry_of(
    cache: CostMatrixCache,
    room: crate::position::RoomName,
    prior: CostMatrixRoomEntry,
) -> bool {
    ||| cache.spec_room_entry_is(room, prior)
    ||| (!cache.spec_has_room(room) && prior == (CostMatrixRoomEntry {
        structures: None,
        construction: None,
        creeps: None,
    }))
}

/// The per-region cost layer cache together with its backing storage: pulls
/// the cache from storage on first use, refreshes stale layers from a world
/// state source, and composes them into dense traversal-cost grids.
pub struct CostMatrixSystem<St: CostMatrixStorage> {
    pub storage: St,
    pub storage_segment: u32,
    pub cache: CostMatrixCache,
    pub loaded: bool,
}

impl<St: CostMatrixStorage> CostMatrixSystem<St> {
    pub fn new(storage: St, storage_segment: u32) -> (s: CostMatrixSystem<St>)
        ensures
            !s.loaded,
    {
        CostMatrixSystem { storage, storage_segment, cache: CostMatrixCache { rooms: Vec::new() }, loaded: false }
    }

    /// Hands the cache back to the backing storage for persistence. Nothing
    /// is written before the cache was first used, and the system's own
    /// state is untouched.
    pub fn flush_storage(&mut self)
        ensures
            final(self).cache == old(self).cache,
            final(self).loaded == old(self).loaded,
            final(self).storage_segment == old(self).storage_segment,
    {
        if self.loaded {
            let _ = self.storage.set_cache(self.storage_segment, &self.cache);
        }
    }

    /// Pulls the cache from storage on first use; a failed read yields an
    /// empty cache, never an error.
    fn ensure_loaded(&mut self)
        ensures
            final(self).loaded,
            old(self).loaded ==> final(self).cache == old(self).cache,
    {
        if !self.loaded {
            match self.storage.get_cache(self.storage_segment) {
                Ok(c) => {
                    self.cache = c;
                },
                Err(_) => {
                    self.cache = CostMatrixCache { rooms: Vec::new() };
                },
            }
            self.loaded = true;
        }
    }

    /// Builds the composed traversal-cost grid of one room onto `target`.
    ///
    /// Stale or absent layers are first refreshed from the data source: the
    /// dynamic layers (occupants, construction) are replaced by whatever the
    /// source reports this tick — absence clears them — while the static
    /// structure layer keeps its cached data when the source reports
    /// nothing. The refreshed layers are then composed in the fixed
    /// structures, construction, occupants order (see [`compose_room_entry`]).
    /// A missing layer contributes no cost; nothing here fails the build.
    pub fn apply_cost_matrix<D: CostMatrixDataSource>(
        &mut self,
        room: crate::position::RoomName,
        target: &mut DenseCostMatrix,
        options: &CostMatrixOptions,
        source: &D,
        current_tick: u32,
    ) -> (r: Result<(), String>)
        requires
            old(target).wf(),
        ensures
            final(self).loaded,
            final(self).cache.spec_has_room(room),
            final(target).wf(),
            r is Ok,
            exists|entry: CostMatrixRoomEntry|
                #[trigger] entry_wf(entry) && layer_fresh(entry.construction, current_tick)
                    && layer_fresh(entry.creeps, current_tick) && final(
                    self).cache.spec_room_entry_is(room, entry) && forall|tx: int, ty: int|
                    crate::costmatrix::valid_tile((tx, ty)) ==> #[trigger] final(target).spec_cost(tx, ty) == composed_cost(
                        entry,
                        *options,
                        room,
                        (tx, ty),
                        old(target).spec_cost(tx, ty),
                    ),
            old(self).loaded ==> exists|
                prior: CostMatrixRoomEntry,
                s: Option<StuctureCostMatrixCache>,
                c: Option<ConstructionSiteCostMatrixCache>,
                k: Option<CreepCostMatrixCache>,
            |
                spec_prior_entry_of(old(self).cache, room, prior) && (final(
                    self).cache.spec_room_entry_is(
                    room,
                    #[trigger] spec_refresh_entry(prior, s, c, k, current_tick),
                ) || (!entry_wf(spec_refresh_entry(prior, s, c, k, current_tick)) && final(
                    self).cache.spec_room_entry_is(
                    room,
                    (CostMatrixRoomEntry { structures: None, construction: None, creeps: None }),
                ))),
    {
        self.ensure_loaded();
        let ghost cache0 = self.cache;
        let idx: usize = match self.cache.room_index(room) {
            Some(i) => i,
            None => {
                self.cache.rooms.push((room, CostMatrixRoomEntry::new()));
                self.cache.rooms.len() - 1
            },
        };
        let (room_name, prior) = self.cache.rooms.remove(idx);
        proof {
            assert(spec_prior_entry_of(cache0, room, prior));
        }

        // pull fresh data for whichever layers are due (the static layer
        // keeps its cached data when the source is silent; the dynamic ones
        // are replaced or cleared)
        let structures_reply = if layer_due_structures(&prior, current_tick) {
            source.get_structure_costs(room)
        } else {
            None
        };
        let construction_reply = if layer_due_construction(&prior, current_tick) {
            source.get_construction_site_costs(room)
        } else {
            None
        };
        let creeps_reply = if layer_due_creeps(&prior, current_tick) {
            source.get_creep_costs(room)
        } else {
            None
        };
        let entry = refresh_room_entry(
            prior,
            structures_reply,
            construction_reply,
            creeps_reply,
            current_tick,
        );

        if entry_wf_exec(&entry) {
            compose_room_entry(&entry, target, options, room);
            proof {
                assert(layer_fresh(entry.construction, current_tick));
                assert(layer_fresh(entry.creeps, current_tick));
            }
            self.cache.rooms.push((room_name, entry));
            proof {
                assert(self.cache.rooms@[self.cache.rooms@.len() - 1] == (room, entry));
                assert(self.cache.spec_room_entry_is(room, entry));
            }
        } else {
            // a malformed layer (out-of-room coordinates) contributes no
            // cost and is dropped rather than failing the build
            let clean = CostMatrixRoomEntry::new();
            proof {
                assert(entry_wf(clean));
                assert(layer_fresh(clean.construction, current_tick));
                assert(layer_fresh(clean.creeps, current_tick));
                assert(forall|tx: int, ty: int|
                    crate::costmatrix::valid_tile((tx, ty)) ==> #[trigger] target.spec_cost(tx, ty)
                        == composed_cost(
                        clean,
                        *options,
                        room,
                        (tx, ty),
                        old(target).spec_cost(tx, ty),
                    ));
            }
            self.cache.rooms.push((room_name, clean));
            proof {
                assert(self.cache.rooms@[self.cache.rooms@.len() - 1] == (room, clean));
                assert(self.cache.spec_room_entry_is(room, clean));
            }
        }
        Ok(())
    }
}

/// Whether the static structure layer is due for a refresh.
fn layer_due_structures(entry: &CostMatrixRoomEntry, current_tick: u32) -> (r: bool)
    ensures
        r == spec_layer_due(entry.structures, current_tick),
{
    match &entry.structures {
        None => true,
        Some(c) => c.last_updated < current_tick,
    }
}

/// Whether the construction layer is due for a refresh.
fn layer_due_construction(entry: &CostMatrixRoomEntry, current_tick: u32) -> (r: bool)
    ensures
        r == spec_layer_due(entry.construction, current_tick),
{
    match &entry.construction {
        None => true,
        Some(c) => c.last_updated < current_tick,
    }
}

/// Whether the occupant layer is due for a refresh.
fn layer_due_creeps(entry: &CostMatrixRoomEntry, current_tick: u32) -> (r: bool)
    ensures
        r == spec_layer_due(entry.creeps, current_tick),
{
    match &entry.creeps {
        None => true,
        Some(c) => c.last_updated < current_tick,
    }
}

/// Runtime check of [`entry_wf`]/// Runtime check of [`entry_wf`]: every overlay's writes lie inside the room.
fn entry_wf_exec(entry: &CostMatrixRoomEntry) -> (r: bool)
    ensures
        r == entry_wf(*entry),
{
    let s_ok = match &entry.structures {
        Some(c) => overlay_wf_exec(&c.data.roads) && overlay_wf_exec(&c.data.other),
        None => true,
    };
    let c_ok = match &entry.construction {
        Some(c) => overlay_wf_exec(&c.data.blocked_construction_sites) && overlay_wf_exec(
            &c.data.friendly_inactive_construction_sites,
        ) && overlay_wf_exec(&c.data.friendly_active_construction_sites) && overlay_wf_exec(
            &c.data.hostile_inactive_construction_sites,
        ) && overlay_wf_exec(&c.data.hostile_active_construction_sites),
        None => true,
    };
    let k_ok = match &entry.creeps {
        Some(c) => overlay_wf_exec(&c.data.friendly_creeps) && overlay_wf_exec(
            &c.data.hostile_creeps,
        ) && overlay_wf_exec(&c.data.source_keeper_agro),
        None => true,
    };
    s_ok && c_ok && k_ok
}

/// Runtime check that an overlay's writes lie inside the room.
fn overlay_wf_exec(m: &LinearCostMatrix) -> (r: bool)
    ensures
        r == m.wf(),
{
    let n = m.data.len();
    let mut i: usize = 0;
    while i < n
        invariant
            n == m.data@.len(),
            i <= n,
            forall|j: int| 0 <= j < i ==> (#[trigger] m.data@[j]).0 < 50 && m.data@[j].1 < 50,
        decreases n - i,
    {
        let e = m.data[i];
        if e.0 >= 50 || e.1 >= 50 {
            return false;
        }
        i = i + 1;
    }
    true
}

} // verus!
