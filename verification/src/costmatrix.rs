//! Sparse per-tile cost overlays and the dense traversal-cost grid they are
//! applied to.
//!
//! An overlay stores costs for a subset of a room's tiles. There are two
//! representations: [`SparseCostMatrix`], keyed by tile for fast random
//! access, and [`LinearCostMatrix`], an append-only list for fast bulk
//! writes. Both are modeled as a map from tiles to costs (for the linear
//! form, the last write to a tile wins) and both expose the same "apply to a
//! dense grid" operations.

use vstd::prelude::*;
use std::collections::HashMap;

verus! {

broadcast use vstd::std_specs::hash::group_hash_axioms;

/// A tile inside one room, as a pair of in-room coordinates.
pub open spec fn valid_tile(t: (int, int)) -> bool {
    0 <= t.0 < 50 && 0 <= t.1 < 50
}

/// Packs in-room coordinates into a single overlay key.
pub open spec fn tile_key(x: int, y: int) -> int {
    x * 50 + y
}

/// Packed tile keys are unique per tile.
proof fn lemma_tile_key_injective(x1: int, y1: int, x2: int, y2: int)
    requires
        valid_tile((x1, y1)),
        valid_tile((x2, y2)),
        tile_key(x1, y1) == tile_key(x2, y2),
    ensures
        x1 == x2 && y1 == y2,
{
    assert(x1 == x2 && y1 == y2) by (nonlinear_arith)
        requires
            0 <= x1 < 50 && 0 <= y1 < 50 && 0 <= x2 < 50 && 0 <= y2 < 50,
            x1 * 50 + y1 == x2 * 50 + y2,
    ;
}

/// The result of laying an overlay map over a base grid: tiles the overlay
/// holds take the overlay's cost, every other tile keeps the base cost.
pub open spec fn overlay_applied(
    overlay: Map<(int, int), u8>,
    before: DenseCostMatrix,
    after: DenseCostMatrix,
) -> bool {
    &&& after.wf()
    &&& forall|x: int, y: int|
        valid_tile((x, y)) ==> #[trigger] after.spec_cost(x, y) == if overlay.contains_key(
            (x, y),
        ) {
            overlay[(x, y)]
        } else {
            before.spec_cost(x, y)
        }
}

/// A dense 50x50 traversal-cost grid for one room, the target that overlays
/// are applied to. Unwritten tiles read as the default cost 0.
#[derive(Clone, Debug)]
pub struct DenseCostMatrix {
    pub data: Vec<u8>,
}

impl DenseCostMatrix {
    pub open spec fn wf(self) -> bool {
        self.data@.len() == 2500
    }

    /// The stored cost of a tile.
    pub open spec fn spec_cost(self, x: int, y: int) -> u8 {
        self.data@[tile_key(x, y)]
    }

    /// A fresh grid with every tile at the default cost 0.
    pub fn new() -> (m: DenseCostMatrix)
        ensures
            m.wf(),
            forall|x: int, y: int| valid_tile((x, y)) ==> #[trigger] m.spec_cost(x, y) == 0,
    {
        let mut data: Vec<u8> = Vec::new();
        let mut i: usize = 0;
        while i < 2500
            invariant
                data@.len() == i,
                i <= 2500,
                forall|j: int| 0 <= j < i ==> data@[j] == 0,
            decreases 2500 - i,
        {
            data.push(0);
            i = i + 1;
        }
        let m = DenseCostMatrix { data };
        proof {
            assert forall|x: int, y: int| valid_tile((x, y)) implies #[trigger] m.spec_cost(x, y)
                == 0 by {
                assert(0 <= tile_key(x, y) < 2500) by (nonlinear_arith)
                    requires
                        0 <= x < 50 && 0 <= y < 50,
                ;
            }
        }
        m
    }

    pub fn set(&mut self, x: u8, y: u8, val: u8)
        requires
            old(self).wf(),
            x < 50,
            y < 50,
        ensures
            final(self).wf(),
            final(self).spec_cost(x as int, y as int) == val,
            forall|tx: int, ty: int|
                valid_tile((tx, ty)) && (tx != x || ty != y) ==> #[trigger] final(self).spec_cost(
                    tx,
                    ty,
                ) == old(self).spec_cost(tx, ty),
    {
        let idx: usize = x as usize * 50 + y as usize;
        self.data.set(idx, val);
        proof {
            assert forall|tx: int, ty: int|
                valid_tile((tx, ty)) && (tx != x || ty != y) implies #[trigger] self.spec_cost(
                tx,
                ty,
            ) == old(self).spec_cost(tx, ty) by {
                if tile_key(tx, ty) == tile_key(x as int, y as int) {
                    lemma_tile_key_injective(tx, ty, x as int, y as int);
                }
                assert(0 <= tile_key(tx, ty) < 2500) by (nonlinear_arith)
                    requires
                        0 <= tx < 50 && 0 <= ty < 50,
                ;
            }
        }
    }

    pub fn get(&self, x: u8, y: u8) -> (r: u8)
        requires
            self.wf(),
            x < 50,
            y < 50,
        ensures
            r == self.spec_cost(x as int, y as int),
    {
        let idx: usize = x as usize * 50 + y as usize;
        self.data[idx]
    }

    /// The stored cost of a tile, usable without preconditions: out-of-range
    /// coordinates read as the default cost 0.
    pub fn cost_at(&self, x: u8, y: u8) -> (r: u8)
        ensures
            self.wf() && x < 50 && y < 50 ==> r == self.spec_cost(x as int, y as int),
    {
        if x < 50 && y < 50 {
            let idx: usize = x as usize * 50 + y as usize;
            if idx < self.data.len() {
                return self.data[idx];
            }
        }
        0
    }
}

/// A sparse cost overlay keyed by tile, for fast random access.
#[derive(Clone, Debug)]
pub struct SparseCostMatrix {
    pub data: HashMap<u32, u8>,
}

impl SparseCostMatrix {
    /// The overlay as a map from tiles to costs.
    pub open spec fn overlay(self) -> Map<(int, int), u8> {
        Map::new(
            |t: (int, int)| valid_tile(t) && self.data@.contains_key(tile_key(t.0, t.1) as u32),
            |t: (int, int)| self.data@[tile_key(t.0, t.1) as u32],
        )
    }

    pub fn new() -> (m: SparseCostMatrix)
        ensures
            m.overlay() == Map::<(int, int), u8>::empty(),
    {
        let m = SparseCostMatrix { data: HashMap::new() };
        proof {
            assert(m.overlay() =~= Map::<(int, int), u8>::empty());
        }
        m
    }

    /// Records the cost of one tile, replacing any earlier cost for it.
    pub fn set(&mut self, x: u8, y: u8, val: u8)
        requires
            x < 50,
            y < 50,
        ensures
            final(self).overlay() == old(self).overlay().insert((x as int, y as int), val),
    {
        let key: u32 = x as u32 * 50 + y as u32;
        self.data.insert(key, val);
        proof {
            assert forall|t: (int, int)|
                valid_tile(t) && t != (x as int, y as int) implies tile_key(t.0, t.1) != tile_key(
                x as int,
                y as int,
            ) by {
                if tile_key(t.0, t.1) == tile_key(x as int, y as int) {
                    lemma_tile_key_injective(t.0, t.1, x as int, y as int);
                }
            }
            assert(self.overlay() =~= old(self).overlay().insert((x as int, y as int), val));
        }
    }

    /// The recorded cost of a tile; unwritten tiles read as the default 0.
    pub fn get(&self, x: u8, y: u8) -> (r: u8)
        requires
            x < 50,
            y < 50,
        ensures
            r == if self.overlay().contains_key((x as int, y as int)) {
                self.overlay()[(x as int, y as int)]
            } else {
                0u8
            },
    {
        let key: u32 = x as u32 * 50 + y as u32;
        match self.data.get(&key) {
            Some(v) => *v,
            None => 0,
        }
    }

    /// Lays this overlay over a dense grid: every recorded tile takes its
    /// recorded cost, every other tile is untouched.
    pub fn apply_to(&self, target: &mut DenseCostMatrix)
        requires
            old(target).wf(),
        ensures
            overlay_applied(self.overlay(), *old(target), *final(target)),
    {
        let mut x: u8 = 0;
        while x < 50
            invariant
                target.wf(),
                x <= 50,
                forall|tx: int, ty: int|
                    valid_tile((tx, ty)) && tx < x ==> #[trigger] target.spec_cost(tx, ty)
                        == if self.overlay().contains_key((tx, ty)) {
                        self.overlay()[(tx, ty)]
                    } else {
                        old(target).spec_cost(tx, ty)
                    },
                forall|tx: int, ty: int|
                    valid_tile((tx, ty)) && tx >= x ==> #[trigger] target.spec_cost(tx, ty) == old(
                        target,
                    ).spec_cost(tx, ty),
            decreases 50 - x,
        {
            let mut y: u8 = 0;
            while y < 50
                invariant
                    target.wf(),
                    x < 50,
                    y <= 50,
                    forall|tx: int, ty: int|
                        valid_tile((tx, ty)) && (tx < x || (tx == x && ty < y))
                            ==> #[trigger] target.spec_cost(tx, ty) == if self.overlay(
                        ).contains_key((tx, ty)) {
                            self.overlay()[(tx, ty)]
                        } else {
                            old(target).spec_cost(tx, ty)
                        },
                    forall|tx: int, ty: int|
                        valid_tile((tx, ty)) && (tx > x || (tx == x && ty >= y))
                            ==> #[trigger] target.spec_cost(tx, ty) == old(target).spec_cost(
                            tx,
                            ty,
                        ),
                decreases 50 - y,
            {
                let key: u32 = x as u32 * 50 + y as u32;
                match self.data.get(&key) {
                    Some(v) => {
                        let val: u8 = *v;
                        target.set(x, y, val);
                    },
                    None => {},
                }
                y = y + 1;
            }
            x = x + 1;
        }
    }

    /// Lays this overlay over a dense grid with a uniform replacement cost:
    /// every recorded tile takes `cost` instead of its recorded value. Used
    /// to supersede stored placeholder costs (for example a uniform road
    /// cost).
    pub fn apply_to_override(&self, target: &mut DenseCostMatrix, cost: u8)
        requires
            old(target).wf(),
        ensures
            final(target).wf(),
            forall|tx: int, ty: int|
                valid_tile((tx, ty)) ==> #[trigger] final(target).spec_cost(tx, ty)
                    == if self.overlay().contains_key((tx, ty)) {
                    cost
                } else {
                    old(target).spec_cost(tx, ty)
                },
    {
        let mut x: u8 = 0;
        while x < 50
            invariant
                target.wf(),
                x <= 50,
                forall|tx: int, ty: int|
                    valid_tile((tx, ty)) && tx < x ==> #[trigger] target.spec_cost(tx, ty)
                        == if self.overlay().contains_key((tx, ty)) {
                        cost
                    } else {
                        old(target).spec_cost(tx, ty)
                    },
                forall|tx: int, ty: int|
                    valid_tile((tx, ty)) && tx >= x ==> #[trigger] target.spec_cost(tx, ty) == old(
                        target,
                    ).spec_cost(tx, ty),
            decreases 50 - x,
        {
            let mut y: u8 = 0;
            while y < 50
                invariant
                    target.wf(),
                    x < 50,
                    y <= 50,
                    forall|tx: int, ty: int|
                        valid_tile((tx, ty)) && (tx < x || (tx == x && ty < y))
                            ==> #[trigger] target.spec_cost(tx, ty) == if self.overlay(
                        ).contains_key((tx, ty)) {
                            cost
                        } else {
                            old(target).spec_cost(tx, ty)
                        },
                    forall|tx: int, ty: int|
                        valid_tile((tx, ty)) && (tx > x || (tx == x && ty >= y))
                            ==> #[trigger] target.spec_cost(tx, ty) == old(target).spec_cost(
                            tx,
                            ty,
                        ),
                decreases 50 - y,
            {
                let key: u32 = x as u32 * 50 + y as u32;
                match self.data.get(&key) {
                    Some(_) => {
                        target.set(x, y, cost);
                    },
                    None => {},
                }
                y = y + 1;
            }
            x = x + 1;
        }
    }
}


/// An append-only cost overlay: a list of per-tile writes, applied in order,
/// so the last write to a tile wins.
#[derive(Clone, Debug)]
pub struct LinearCostMatrix {
    pub data: Vec<(u8, u8, u8)>,
}

/// The overlay denoted by a list of `(x, y, cost)` writes: applied first to
/// last, so a later write to the same tile supersedes an earlier one.
pub open spec fn writes_overlay(s: Seq<(u8, u8, u8)>) -> Map<(int, int), u8>
    decreases s.len(),
{
    if s.len() == 0 {
        Map::empty()
    } else {
        writes_overlay(s.drop_last()).insert((s.last().0 as int, s.last().1 as int), s.last().2)
    }
}

impl LinearCostMatrix {
    pub open spec fn wf(self) -> bool {
        forall|i: int|
            0 <= i < self.data@.len() ==> (#[trigger] self.data@[i]).0 < 50 && self.data@[i].1 < 50
    }

    /// The overlay as a map from tiles to costs.
    pub open spec fn overlay(self) -> Map<(int, int), u8> {
        writes_overlay(self.data@)
    }

    pub fn new() -> (m: LinearCostMatrix)
        ensures
            m.wf(),
            m.overlay() == Map::<(int, int), u8>::empty(),
    {
        LinearCostMatrix { data: Vec::new() }
    }

    /// Appends a write; it supersedes any earlier write to the same tile.
    pub fn set(&mut self, x: u8, y: u8, val: u8)
        requires
            old(self).wf(),
            x < 50,
            y < 50,
        ensures
            final(self).wf(),
            final(self).overlay() == old(self).overlay().insert((x as int, y as int), val),
    {
        self.data.push((x, y, val));
        proof {
            assert(self.data@.drop_last() =~= old(self).data@);
        }
    }

    /// Lays this overlay over a dense grid: every written tile takes its
    /// last written cost, every other tile is untouched.
    pub fn apply_to(&self, target: &mut DenseCostMatrix)
        requires
            self.wf(),
            old(target).wf(),
        ensures
            overlay_applied(self.overlay(), *old(target), *final(target)),
    {
        let n: usize = self.data.len();
        let mut i: usize = 0;
        while i < n
            invariant
                self.wf(),
                n == self.data@.len(),
                i <= n,
                overlay_applied(writes_overlay(self.data@.subrange(0, i as int)), *old(target), *target),
            decreases n - i,
        {
            let entry = self.data[i];
            target.set(entry.0, entry.1, entry.2);
            proof {
                assert(self.data@.subrange(0, i + 1).drop_last() =~= self.data@.subrange(0, i as int));
                assert(self.data@.subrange(0, i + 1).last() == self.data@[i as int]);
            }
            i = i + 1;
        }
        proof {
            assert(self.data@.subrange(0, n as int) =~= self.data@);
        }
    }

    /// Lays this overlay over a dense grid with a uniform replacement cost:
    /// every written tile takes `cost` instead of its recorded value.
    pub fn apply_to_override(&self, target: &mut DenseCostMatrix, cost: u8)
        requires
            self.wf(),
            old(target).wf(),
        ensures
            final(target).wf(),
            forall|tx: int, ty: int|
                valid_tile((tx, ty)) ==> #[trigger] final(target).spec_cost(tx, ty)
                    == if self.overlay().contains_key((tx, ty)) {
                    cost
                } else {
                    old(target).spec_cost(tx, ty)
                },
    {
        let n: usize = self.data.len();
        let mut i: usize = 0;
        while i < n
            invariant
                self.wf(),
                n == self.data@.len(),
                i <= n,
                target.wf(),
                forall|tx: int, ty: int|
                    valid_tile((tx, ty)) ==> #[trigger] target.spec_cost(tx, ty)
                        == if writes_overlay(self.data@.subrange(0, i as int)).contains_key(
                        (tx, ty),
                    ) {
                        cost
                    } else {
                        old(target).spec_cost(tx, ty)
                    },
            decreases n - i,
        {
            let entry = self.data[i];
            target.set(entry.0, entry.1, cost);
            proof {
                assert(self.data@.subrange(0, i + 1).drop_last() =~= self.data@.subrange(0, i as int));
                assert(self.data@.subrange(0, i + 1).last() == self.data@[i as int]);
            }
            i = i + 1;
        }
        proof {
            assert(self.data@.subrange(0, n as int) =~= self.data@);
        }
    }
}

/// Round trip: after laying an overlay over a fresh all-default grid, every
/// written tile reads back exactly its written cost, and every unwritten
/// tile reads the default cost 0.
pub proof fn lemma_overlay_round_trip(
    overlay: Map<(int, int), u8>,
    before: DenseCostMatrix,
    after: DenseCostMatrix,
)
    requires
        overlay_applied(overlay, before, after),
        forall|x: int, y: int| valid_tile((x, y)) ==> #[trigger] before.spec_cost(x, y) == 0,
    ensures
        forall|x: int, y: int|
            valid_tile((x, y)) && overlay.contains_key((x, y)) ==> #[trigger] after.spec_cost(x, y)
                == overlay[(x, y)],
        forall|x: int, y: int|
            valid_tile((x, y)) && !overlay.contains_key((x, y)) ==> #[trigger] after.spec_cost(
                x,
                y,
            ) == 0,
{
}


/// Whether the tile `(x, y)` of room `room` lies within `max_range`
/// (Chebyshev distance in world coordinates) of `origin`.
pub open spec fn tile_within(
    room: crate::position::RoomName,
    x: int,
    y: int,
    origin: crate::position::Position,
    max_range: u32,
) -> bool {
    (crate::position::Position { room, x: x as u8, y: y as u8 }).spec_range_to(origin) <= max_range
}

impl LinearCostMatrix {
    /// Lays this overlay (read as tiles of `room`) over a dense grid,
    /// keeping only tiles within `max_range` of `origin`: the proximity
    /// filter of occupant layers. A conservative room-level lower bound
    /// skips the per-tile distance checks for rooms that are entirely out
    /// of range.
    pub fn apply_to_within(
        &self,
        target: &mut DenseCostMatrix,
        room: crate::position::RoomName,
        origin: crate::position::Position,
        max_range: u32,
    )
        requires
            self.wf(),
            old(target).wf(),
        ensures
            final(target).wf(),
            forall|tx: int, ty: int|
                valid_tile((tx, ty)) ==> #[trigger] final(target).spec_cost(tx, ty)
                    == if self.overlay().contains_key((tx, ty)) && tile_within(
                    room,
                    tx,
                    ty,
                    origin,
                    max_range,
                ) {
                    self.overlay()[(tx, ty)]
                } else {
                    old(target).spec_cost(tx, ty)
                },
    {
        // room-level lower bound: the least possible distance from the
        // origin to any tile of this room
        let lo_x: i64 = room.x as i64 * 50;
        let hi_x: i64 = lo_x + 49;
        let lo_y: i64 = room.y as i64 * 50;
        let hi_y: i64 = lo_y + 49;
        let ox: i64 = origin.room.x as i64 * 50 + origin.x as i64;
        let oy: i64 = origin.room.y as i64 * 50 + origin.y as i64;
        let dx_min: i64 = if ox < lo_x {
            lo_x - ox
        } else if ox > hi_x {
            ox - hi_x
        } else {
            0
        };
        let dy_min: i64 = if oy < lo_y {
            lo_y - oy
        } else if oy > hi_y {
            oy - hi_y
        } else {
            0
        };
        let lower_bound: i64 = if dx_min >= dy_min {
            dx_min
        } else {
            dy_min
        };
        if lower_bound > max_range as i64 {
            // every tile of the room is out of range; nothing to write
            proof {
                assert forall|tx: int, ty: int| valid_tile((tx, ty)) implies !tile_within(
                    room,
                    tx,
                    ty,
                    origin,
                    max_range,
                ) by {
                    let p = crate::position::Position { room, x: tx as u8, y: ty as u8 };
                    assert(lo_x <= p.world_x() <= hi_x);
                    assert(lo_y <= p.world_y() <= hi_y);
                }
            }
            return ;
        }
        let n: usize = self.data.len();
        let mut i: usize = 0;
        while i < n
            invariant
                self.wf(),
                n == self.data@.len(),
                i <= n,
                target.wf(),
                forall|tx: int, ty: int|
                    valid_tile((tx, ty)) ==> #[trigger] target.spec_cost(tx, ty)
                        == if writes_overlay(self.data@.subrange(0, i as int)).contains_key(
                        (tx, ty),
                    ) && tile_within(room, tx, ty, origin, max_range) {
                        writes_overlay(self.data@.subrange(0, i as int))[(tx, ty)]
                    } else {
                        old(target).spec_cost(tx, ty)
                    },
            decreases n - i,
        {
            let entry = self.data[i];
            let p = crate::position::Position { room, x: entry.0, y: entry.1 };
            if p.get_range_to(origin) <= max_range {
                target.set(entry.0, entry.1, entry.2);
            }
            proof {
                assert(self.data@.subrange(0, i + 1).drop_last() =~= self.data@.subrange(
                    0,
                    i as int,
                ));
                assert(self.data@.subrange(0, i + 1).last() == self.data@[i as int]);
            }
            i = i + 1;
        }
        proof {
            assert(self.data@.subrange(0, n as int) =~= self.data@);
        }
    }
}

} // verus!
