//! Tile-contention resolution: follow-dependency ordering, head-to-head
//! swaps, and priority arbitration with bounded chained displacement
//! ("shoving").
//!
//! All resolution works over a tick-scoped vector of [`ResolvedCreep`]
//! records plus the positions of idle agents outside the request set, which
//! act as immovable obstacles. The central well-formedness predicate
//! [`resolution_inv`] is preserved by every step; it guarantees that final
//! tiles never collide, that anchored agents are never displaced outside
//! their anchor radius, and that `Immovable` agents never move.

use vstd::prelude::*;
use crate::position::{Direction, Position};
use crate::request::{AnchorConstraint, MovementPriority};

verus! {

/// Maximum depth of a displacement chain; a shove that would need more fails.
pub const MAX_SHOVE_DEPTH: u32 = 3;

/// Tick-scoped record of one agent's movement resolution state.
#[derive(Copy, Clone, Debug)]
pub struct ResolvedCreep {
    /// The agent's handle.
    pub entity: u64,
    /// Tile the agent stands on this tick.
    pub current_pos: Position,
    /// Tile the agent wants to step onto, if any.
    pub desired_pos: Option<Position>,
    pub priority: MovementPriority,
    /// May this agent be displaced by others?
    pub allow_shove: bool,
    /// May this agent exchange tiles head-to-head?
    pub allow_swap: bool,
    /// Consecutive ticks without movement, used as a contention tie-breaker.
    pub stuck_ticks: u32,
    /// Has this agent's movement been decided?
    pub resolved: bool,
    /// Tile the agent ends the tick on; equals `current_pos` until resolved.
    pub final_pos: Position,
    /// Did the agent submit a movement request this tick?
    pub has_request: bool,
    /// Optional constraint keeping the final tile near a fixed point.
    pub anchor: Option<AnchorConstraint>,
}

/// Whether a tile satisfies an agent's anchor constraint (trivially true for
/// unanchored agents).
pub open spec fn anchored_ok(c: ResolvedCreep, p: Position) -> bool {
    match c.anchor {
        None => true,
        Some(a) => p.spec_range_to(a.position) <= a.range,
    }
}

/// Where a displaced or granted agent may end up: its own desired tile, or
/// one of the eight tiles neighboring the one it stood on.
pub open spec fn displaced_to_ok(c: ResolvedCreep) -> bool {
    ||| c.desired_pos == Some(c.final_pos)
    ||| (c.final_pos.room == c.current_pos.room && c.final_pos != c.current_pos && -1
        <= c.final_pos.x - c.current_pos.x <= 1 && -1 <= c.final_pos.y - c.current_pos.y <= 1)
}

/// The only outcomes resolution hands an agent: it keeps its tile, it is
/// granted its desired tile (a move, a grant or a swap), or — having
/// permitted shoving — it is displaced to its desired tile or one step
/// sideways.
pub open spec fn outcome_tile_ok(c: ResolvedCreep) -> bool {
    ||| c.final_pos == c.current_pos
    ||| c.desired_pos == Some(c.final_pos)
    ||| (displaced_to_ok(c) && c.allow_shove)
}

/// Everything about a record except its resolution outcome.
pub open spec fn core_eq(a: ResolvedCreep, b: ResolvedCreep) -> bool {
    &&& a.entity == b.entity
    &&& a.current_pos == b.current_pos
    &&& a.desired_pos == b.desired_pos
    &&& a.priority == b.priority
    &&& a.allow_shove == b.allow_shove
    &&& a.allow_swap == b.allow_swap
    &&& a.stuck_ticks == b.stuck_ticks
    &&& a.has_request == b.has_request
    &&& a.anchor == b.anchor
}

/// Resolution never invents or discards agents, and never edits anything but
/// the `resolved` flag and the final tile.
pub open spec fn same_cores(a: Seq<ResolvedCreep>, b: Seq<ResolvedCreep>) -> bool {
    &&& a.len() == b.len()
    &&& forall|i: int| 0 <= i < a.len() ==> core_eq(a[i], #[trigger] b[i])
}

/// Each agent (requesting or idle) stands on a tile of its own.
pub open spec fn distinct_currents(creeps: Seq<ResolvedCreep>, idle: Seq<Position>) -> bool {
    &&& forall|i: int, j: int|
        0 <= i < creeps.len() && 0 <= j < creeps.len() && i != j ==> (
        #[trigger] creeps[i].current_pos) != (#[trigger] creeps[j].current_pos)
    &&& forall|i: int, k: int|
        0 <= i < creeps.len() && 0 <= k < idle.len() ==> (#[trigger] creeps[i].current_pos) != (
        #[trigger] idle[k])
}

/// The central invariant of conflict resolution.
///
/// - an unresolved agent's final tile is the placeholder `current_pos`;
/// - no two agents end the tick on the same tile (a head-to-head swap keeps
///   this: the two agents' final tiles are each other's origins);
/// - no agent ends the tick on an idle agent's tile;
/// - a resolved `Immovable` agent stays on its current tile;
/// - an agent that moves satisfies its anchor constraint.
pub open spec fn resolution_inv(creeps: Seq<ResolvedCreep>, idle: Seq<Position>) -> bool {
    &&& distinct_currents(creeps, idle)
    &&& forall|i: int|
        0 <= i < creeps.len() && !(#[trigger] creeps[i]).resolved ==> creeps[i].final_pos
            == creeps[i].current_pos
    &&& forall|i: int, j: int|
        0 <= i < creeps.len() && 0 <= j < creeps.len() && i != j ==> (
        #[trigger] creeps[i].final_pos) != (#[trigger] creeps[j].final_pos)
    &&& forall|i: int, k: int|
        0 <= i < creeps.len() && 0 <= k < idle.len() ==> (#[trigger] creeps[i].final_pos) != (
        #[trigger] idle[k])
    &&& forall|i: int|
        0 <= i < creeps.len() && (#[trigger] creeps[i]).resolved && creeps[i].priority
            == MovementPriority::Immovable ==> creeps[i].final_pos == creeps[i].current_pos
    &&& forall|i: int|
        0 <= i < creeps.len() && (#[trigger] creeps[i]).final_pos != creeps[i].current_pos
            ==> anchored_ok(creeps[i], creeps[i].final_pos)
}

/// No other agent ends the tick on tile `t`, and no idle agent stands there:
/// agent `i` may move onto it.
pub open spec fn tile_free_for(
    creeps: Seq<ResolvedCreep>,
    idle: Seq<Position>,
    i: int,
    t: Position,
) -> bool {
    &&& forall|j: int|
        0 <= j < creeps.len() && j != i ==> (#[trigger] creeps[j]).final_pos != t
    &&& forall|k: int| 0 <= k < idle.len() ==> (#[trigger] idle[k]) != t
}

/// Resolves agent `i` onto tile `t`: the single primitive through which every
/// arbitration step (grant, shove, stay-in-place) commits an outcome.
fn commit_move(creeps: &mut Vec<ResolvedCreep>, idle: &Vec<Position>, i: usize, t: Position)
    requires
        resolution_inv(old(creeps)@, idle@),
        i < old(creeps)@.len(),
        !old(creeps)@[i as int].resolved,
        tile_free_for(old(creeps)@, idle@, i as int, t),
        t == old(creeps)@[i as int].current_pos || anchored_ok(old(creeps)@[i as int], t),
        old(creeps)@[i as int].priority == MovementPriority::Immovable ==> t == old(
            creeps,
        )@[i as int].current_pos,
    ensures
        resolution_inv(final(creeps)@, idle@),
        final(creeps)@.len() == old(creeps)@.len(),
        forall|j: int|
            0 <= j < old(creeps)@.len() && j != i ==> (#[trigger] final(creeps)@[j]) == old(
                creeps)@[j],
        core_eq(old(creeps)@[i as int], final(creeps)@[i as int]),
        final(creeps)@[i as int].resolved,
        final(creeps)@[i as int].final_pos == t,
{
    let mut c = creeps[i];
    c.resolved = true;
    c.final_pos = t;
    creeps.set(i, c);
}

/// Atomically resolves the head-to-head swap of agents `a` and `b`: each ends
/// the tick on the other's origin tile.
fn commit_swap(creeps: &mut Vec<ResolvedCreep>, idle: &Vec<Position>, a: usize, b: usize)
    requires
        resolution_inv(old(creeps)@, idle@),
        swap_spec(old(creeps)@, a as int, b as int),
    ensures
        resolution_inv(final(creeps)@, idle@),
        final(creeps)@.len() == old(creeps)@.len(),
        forall|j: int|
            0 <= j < old(creeps)@.len() && j != a && j != b ==> (#[trigger] final(creeps)@[j])
                == old(creeps)@[j],
        core_eq(old(creeps)@[a as int], final(creeps)@[a as int]),
        core_eq(old(creeps)@[b as int], final(creeps)@[b as int]),
        final(creeps)@[a as int].resolved,
        final(creeps)@[b as int].resolved,
        final(creeps)@[a as int].final_pos == old(creeps)@[b as int].current_pos,
        final(creeps)@[b as int].final_pos == old(creeps)@[a as int].current_pos,
{
    let ta = creeps[b].current_pos;
    let tb = creeps[a].current_pos;
    let mut ca = creeps[a];
    ca.resolved = true;
    ca.final_pos = ta;
    creeps.set(a, ca);
    let mut cb = creeps[b];
    cb.resolved = true;
    cb.final_pos = tb;
    creeps.set(b, cb);
}

/// The exact condition under which two agents swap tiles: each wants the
/// other's origin, both permit swapping, neither is `Immovable` or already
/// resolved, and both prospective destinations satisfy any anchor.
pub open spec fn swap_spec(s: Seq<ResolvedCreep>, a: int, b: int) -> bool {
    &&& 0 <= a < s.len()
    &&& 0 <= b < s.len()
    &&& a != b
    &&& !s[a].resolved
    &&& !s[b].resolved
    &&& s[a].allow_swap
    &&& s[b].allow_swap
    &&& s[a].priority != MovementPriority::Immovable
    &&& s[b].priority != MovementPriority::Immovable
    &&& s[a].desired_pos == Some(s[b].current_pos)
    &&& s[b].desired_pos == Some(s[a].current_pos)
    &&& anchored_ok(s[a], s[b].current_pos)
    &&& anchored_ok(s[b], s[a].current_pos)
}


/// True when no agent other than `exclude` has been resolved onto tile `t`.
/// Tiles held by unresolved agents are not excluded: a displacement chain
/// may still free them.
fn no_resolved_final_at(creeps: &Vec<ResolvedCreep>, exclude: usize, t: Position) -> (r: bool)
    ensures
        r == forall|j: int|
            0 <= j < creeps@.len() && j != exclude && (#[trigger] creeps@[j]).resolved
                ==> creeps@[j].final_pos != t,
{
    let n = creeps.len();
    let mut j: usize = 0;
    while j < n
        invariant
            n == creeps@.len(),
            j <= n,
            forall|k: int|
                0 <= k < j && k != exclude && (#[trigger] creeps@[k]).resolved
                    ==> creeps@[k].final_pos != t,
        decreases n - j,
    {
        if j != exclude && creeps[j].resolved && creeps[j].final_pos == t {
            return false;
        }
        j = j + 1;
    }
    true
}

/// True when tile `t` occurs nowhere in `list`.
fn none_at(list: &Vec<Position>, t: Position) -> (r: bool)
    ensures
        r == forall|k: int| 0 <= k < list@.len() ==> (#[trigger] list@[k]) != t,
{
    let n = list.len();
    let mut k: usize = 0;
    while k < n
        invariant
            n == list@.len(),
            k <= n,
            forall|m: int| 0 <= m < k ==> (#[trigger] list@[m]) != t,
        decreases n - k,
    {
        if list[k] == t {
            return false;
        }
        k = k + 1;
    }
    true
}

/// The unresolved agent (other than `exclude`) standing on tile `t`, if any.
fn find_unresolved_at(creeps: &Vec<ResolvedCreep>, exclude: usize, t: Position) -> (r: Option<
    usize,
>)
    ensures
        match r {
            Some(j) => j < creeps@.len() && j != exclude && !creeps@[j as int].resolved
                && creeps@[j as int].current_pos == t,
            None => forall|j: int|
                0 <= j < creeps@.len() && j != exclude && !(#[trigger] creeps@[j]).resolved
                    ==> creeps@[j].current_pos != t,
        },
{
    let n = creeps.len();
    let mut j: usize = 0;
    while j < n
        invariant
            n == creeps@.len(),
            j <= n,
            forall|k: int|
                0 <= k < j && k != exclude && !(#[trigger] creeps@[k]).resolved
                    ==> creeps@[k].current_pos != t,
        decreases n - j,
    {
        if j != exclude && !creeps[j].resolved && creeps[j].current_pos == t {
            return Some(j);
        }
        j = j + 1;
    }
    None
}

/// Whether tile `t` satisfies the agent's anchor constraint.
fn anchor_allows(c: &ResolvedCreep, t: Position) -> (r: bool)
    ensures
        r == anchored_ok(*c, t),
{
    match c.anchor {
        None => true,
        Some(a) => t.get_range_to(a.position) <= a.range,
    }
}

/// Clears tile `target` for agent `i` and commits the agent onto it:
/// chain-displaces an unresolved occupant of the tile first, then moves the
/// agent. Fails without any change when the chain fails. The caller has
/// already validated the target: walkable, anchor-compliant, not the agent's
/// own tile, outside `avoid`, free of resolved agents and of idle agents.
fn shove_commit_target<W: crate::traits::TerrainSource>(
    creeps: &mut Vec<ResolvedCreep>,
    idle: &Vec<Position>,
    terrain: &W,
    i: usize,
    depth: u32,
    avoid: &mut Vec<Position>,
    target: Position,
) -> (moved: bool)
    requires
        resolution_inv(old(creeps)@, idle@),
        i < old(creeps)@.len(),
        depth < MAX_SHOVE_DEPTH,
        !old(creeps)@[i as int].resolved,
        old(creeps)@[i as int].allow_shove,
        old(creeps)@[i as int].priority != MovementPriority::Immovable,
        target != old(creeps)@[i as int].current_pos,
        anchored_ok(old(creeps)@[i as int], target),
        old(creeps)@[i as int].desired_pos == Some(target) || (target.room == old(
            creeps)@[i as int].current_pos.room && -1 <= target.x - old(
            creeps)@[i as int].current_pos.x <= 1 && -1 <= target.y - old(
            creeps)@[i as int].current_pos.y <= 1),
        forall|j: int|
            0 <= j < old(creeps)@.len() && j != i && (#[trigger] old(creeps)@[j]).resolved
                ==> old(creeps)@[j].final_pos != target,
        forall|k: int| 0 <= k < idle@.len() ==> (#[trigger] idle@[k]) != target,
        forall|k: int| 0 <= k < old(avoid)@.len() ==> (#[trigger] old(avoid)@[k]) != target,
    ensures
        final(avoid)@ == old(avoid)@,
        resolution_inv(final(creeps)@, idle@),
        same_cores(old(creeps)@, final(creeps)@),
        forall|j: int|
            0 <= j < old(creeps)@.len() && (#[trigger] old(creeps)@[j]).resolved ==> final(
                creeps)@[j] == old(creeps)@[j],
        !moved ==> final(creeps)@ == old(creeps)@,
        moved ==> final(creeps)@[i as int].resolved && final(creeps)@[i as int].final_pos != final(
            creeps)@[i as int].current_pos,
        forall|j: int|
            0 <= j < old(creeps)@.len() && !(#[trigger] old(creeps)@[j]).resolved && final(
                creeps)@[j].resolved ==> final(creeps)@[j].final_pos != final(
                creeps)@[j].current_pos && displaced_to_ok(final(creeps)@[j]) && final(
                creeps)@[j].allow_shove,
        forall|j: int, k: int|
            0 <= j < old(creeps)@.len() && !(#[trigger] old(creeps)@[j]).resolved && final(
                creeps)@[j].resolved && 0 <= k < old(avoid)@.len() ==> final(
                creeps)@[j].final_pos != (#[trigger] old(avoid)@[k]),
    decreases MAX_SHOVE_DEPTH - depth, 0int,
{
    let ghost pre = creeps@;
    let occupant = find_unresolved_at(creeps, i, target);
    let cleared: bool;
    match occupant {
        None => {
            cleared = true;
        },
        Some(j) => {
            avoid.push(target);
            cleared = try_shove(creeps, idle, terrain, j, depth + 1, avoid);
            avoid.pop();
            proof {
                assert(avoid@ =~= old(avoid)@);
            }
        },
    }
    if !cleared {
        return false;
    }
    if creeps[i].resolved {
        // a deeper link of the chain displaced this agent itself; it is
        // already leaving its tile
        return true;
    }
    proof {
        assert forall|j: int|
            0 <= j < creeps@.len() && j != i implies (#[trigger] creeps@[j]).final_pos
            != target by {
            if creeps@[j].resolved {
                if pre[j].resolved {
                    assert(creeps@[j] == pre[j]);
                } else {
                    match occupant {
                        None => {
                            assert(creeps@ == pre);
                            assert(false);
                        },
                        Some(o) => {
                            // newly resolved by the chain, which avoided
                            // `target` together with the caller's own list
                            assert(pre[j].current_pos != target || j == o as int);
                            let chain_avoid = old(avoid)@.push(target);
                            assert(chain_avoid[chain_avoid.len() - 1] == target);
                            assert(creeps@[j].final_pos != chain_avoid[chain_avoid.len() - 1]);
                        },
                    }
                }
            } else {
                // an unresolved agent still stands on its own tile, which is
                // not the target: at most one agent stood there and the
                // chain resolved it
                assert(creeps@[j].final_pos == creeps@[j].current_pos);
                assert(core_eq(pre[j], creeps@[j]));
                match occupant {
                    None => {
                        assert(creeps@ == pre);
                    },
                    Some(o) => {
                        assert(creeps@[o as int].resolved);
                        assert(j != o as int);
                        assert(pre[j].current_pos != pre[o as int].current_pos);
                    },
                }
            }
        }
    }
    commit_move(creeps, idle, i, target);
    true
}

/// Tries to displace the agent at index `i` so its tile becomes free,
/// chain-displacing deeper blockers up to `MAX_SHOVE_DEPTH` levels.
///
/// The agent's own desired tile is preferred over lateral displacement, so
/// convoys advance along their paths instead of oscillating sideways. Tiles
/// in `avoid` (the contested tile under arbitration and the tiles upper
/// chain links are clearing) are never taken by any link of the chain.
///
/// A shove that fails — including one whose chain would exceed
/// `MAX_SHOVE_DEPTH` — changes nothing: no partial displacement is left
/// behind. A successful shove leaves the agent resolved and moving, and
/// every agent newly resolved by the chain moves to a tile outside `avoid`.
pub fn try_shove<W: crate::traits::TerrainSource>(
    creeps: &mut Vec<ResolvedCreep>,
    idle: &Vec<Position>,
    terrain: &W,
    i: usize,
    depth: u32,
    avoid: &mut Vec<Position>,
) -> (shoved: bool)
    requires
        resolution_inv(old(creeps)@, idle@),
        i < old(creeps)@.len(),
        depth <= MAX_SHOVE_DEPTH,
    ensures
        final(avoid)@ == old(avoid)@,
        resolution_inv(final(creeps)@, idle@),
        same_cores(old(creeps)@, final(creeps)@),
        forall|j: int|
            0 <= j < old(creeps)@.len() && (#[trigger] old(creeps)@[j]).resolved ==> final(creeps)@[j] == old(creeps)@[j],
        !shoved ==> final(creeps)@ == old(creeps)@,
        shoved ==> final(creeps)@[i as int].resolved && final(creeps)@[i as int].final_pos
            != final(creeps)@[i as int].current_pos,
        forall|j: int|
            0 <= j < old(creeps)@.len() && !(#[trigger] old(creeps)@[j]).resolved && final(creeps)@[j].resolved
                ==> final(creeps)@[j].final_pos != final(creeps)@[j].current_pos
                    && displaced_to_ok(final(creeps)@[j]) && final(creeps)@[j].allow_shove,
        forall|j: int, k: int|
            0 <= j < old(creeps)@.len() && !(#[trigger] old(creeps)@[j]).resolved && final(creeps)@[j].resolved
                && 0 <= k < old(avoid)@.len() ==> final(creeps)@[j].final_pos != (
            #[trigger] old(avoid)@[k]),
        depth >= MAX_SHOVE_DEPTH ==> !shoved,
        depth < MAX_SHOVE_DEPTH && old(creeps)@[i as int].resolved ==> shoved == (old(
            creeps)@[i as int].final_pos != old(creeps)@[i as int].current_pos),
        old(creeps)@[i as int].resolved ==> final(creeps)@ == old(creeps)@,
        !old(creeps)@[i as int].resolved && !old(creeps)@[i as int].allow_shove ==> !shoved,
        !old(creeps)@[i as int].resolved && old(creeps)@[i as int].priority
            == MovementPriority::Immovable ==> !shoved,
    decreases MAX_SHOVE_DEPTH - depth, 1int,
{
    if depth >= MAX_SHOVE_DEPTH {
        return false;
    }
    let c = creeps[i];
    if c.resolved {
        // An already-resolved occupant blocks unless it is moving away.
        return c.final_pos != c.current_pos;
    }
    if !c.allow_shove {
        return false;
    }
    if c.priority == MovementPriority::Immovable {
        return false;
    }

    // Prefer resolving the agent onto its own desired tile.
    match c.desired_pos {
        Some(desired) => {
            if desired != c.current_pos && none_at(avoid, desired) && terrain.is_tile_walkable(
                desired,
            ) && anchor_allows(&c, desired) && no_resolved_final_at(creeps, i, desired) && none_at(
                idle,
                desired,
            ) {
                if shove_commit_target(creeps, idle, terrain, i, depth, avoid, desired) {
                    return true;
                }
            }
        },
        None => {},
    }

    // Scan the eight neighboring tiles in a fixed order.
    let mut d: u8 = 0;
    while d < 8
        invariant
            resolution_inv(old(creeps)@, idle@),
            i < old(creeps)@.len(),
            depth < MAX_SHOVE_DEPTH,
            d <= 8,
            creeps@ == old(creeps)@,
            avoid@ == old(avoid)@,
            c == old(creeps)@[i as int],
            !c.resolved,
            c.allow_shove,
            c.priority != MovementPriority::Immovable,
        decreases 8 - d,
    {
        let off = Direction::from_index(d).into_offset();
        let nx = c.current_pos.x as i32 + off.0;
        let ny = c.current_pos.y as i32 + off.1;
        if 0 <= nx && nx < 50 && 0 <= ny && ny < 50 {
            let neighbor = crate::position::Position::new(c.current_pos.room, nx as u8, ny as u8);
            if neighbor != c.current_pos && none_at(avoid, neighbor) && terrain.is_tile_walkable(
                neighbor,
            ) && anchor_allows(&c, neighbor) && no_resolved_final_at(creeps, i, neighbor)
                && none_at(idle, neighbor) {
                proof {
                    assert(-1 <= off.0 <= 1 && -1 <= off.1 <= 1);
                    assert(neighbor.x - c.current_pos.x == off.0);
                    assert(neighbor.y - c.current_pos.y == off.1);
                }
                if shove_commit_target(creeps, idle, terrain, i, depth, avoid, neighbor) {
                    return true;
                }
            }
        }
        d = d + 1;
    }
    false
}

/// Agent `k` contends for tile `t`: it is unresolved and wants to step there.
pub open spec fn is_candidate(s: Seq<ResolvedCreep>, k: int, t: Position) -> bool {
    &&& 0 <= k < s.len()
    &&& !s[k].resolved
    &&& s[k].desired_pos == Some(t)
}

/// Contention order: higher priority wins; equal priorities are broken in
/// favor of the agent that has been stuck longer.
pub open spec fn beats(a: ResolvedCreep, b: ResolvedCreep) -> bool {
    ||| a.priority.spec_rank() > b.priority.spec_rank()
    ||| (a.priority.spec_rank() == b.priority.spec_rank() && a.stuck_ticks > b.stuck_ticks)
}

/// Agent `w` contends for tile `t` and no contender beats it.
pub open spec fn is_max_candidate(s: Seq<ResolvedCreep>, w: int, t: Position) -> bool {
    &&& is_candidate(s, w, t)
    &&& forall|k: int| #[trigger] is_candidate(s, k, t) ==> !beats(s[k], s[w])
}

/// Picks the contender for tile `t` that no other contender beats.
fn select_winner(creeps: &Vec<ResolvedCreep>, t: Position) -> (r: Option<usize>)
    ensures
        match r {
            Some(w) => w < creeps@.len() && is_max_candidate(creeps@, w as int, t),
            None => forall|k: int| !is_candidate(creeps@, k, t),
        },
{
    let n = creeps.len();
    let mut best: Option<usize> = None;
    let mut j: usize = 0;
    while j < n
        invariant
            n == creeps@.len(),
            j <= n,
            match best {
                Some(w) => w < j && is_candidate(creeps@, w as int, t) && forall|k: int|
                    k < j && #[trigger] is_candidate(creeps@, k, t) ==> !beats(
                        creeps@[k],
                        creeps@[w as int],
                    ),
                None => forall|k: int| k < j ==> !is_candidate(creeps@, k, t),
            },
        decreases n - j,
    {
        let c = creeps[j];
        if !c.resolved && c.desired_pos == Some(t) {
            match best {
                None => {
                    best = Some(j);
                },
                Some(w) => {
                    let b = creeps[w];
                    let c_rank = c.priority.rank();
                    let b_rank = b.priority.rank();
                    if c_rank > b_rank || (c_rank == b_rank && c.stuck_ticks > b.stuck_ticks) {
                        best = Some(j);
                    }
                },
            }
        }
        j = j + 1;
    }
    best
}

/// Nothing stands between agent `w` and tile `t`: the tile satisfies `w`'s
/// anchor, no agent has been resolved onto it, no idle agent stands on it,
/// and no unresolved agent other than `w` stands on it.
pub open spec fn freely_grantable(
    s: Seq<ResolvedCreep>,
    idle: Seq<Position>,
    w: int,
    t: Position,
) -> bool {
    &&& t == s[w].current_pos || anchored_ok(s[w], t)
    &&& forall|j: int|
        0 <= j < s.len() && j != w && (#[trigger] s[j]).resolved ==> s[j].final_pos != t
    &&& forall|k: int| 0 <= k < idle.len() ==> (#[trigger] idle[k]) != t
    &&& forall|j: int|
        0 <= j < s.len() && j != w && !(#[trigger] s[j]).resolved ==> s[j].current_pos != t
}

/// Arbitrates one contested tile: the contender that no other contender
/// beats is granted the tile, after any current occupant has been displaced.
///
/// Whoever newly ends the tick on `t` after this call is a contender that no
/// other contender beats — the priority ordering of contention, with stuck
/// time as the tie-breaker, decides every grant. The grant is also owed:
/// when the tile is contested and nothing stands between its unbeaten
/// contenders and the tile, some unbeaten contender is resolved onto it.
/// A tile nobody contends leaves the records untouched, and every agent
/// this call displaces moves to its own desired tile or one step sideways.
pub fn resolve_tile<W: crate::traits::TerrainSource>(
    creeps: &mut Vec<ResolvedCreep>,
    idle: &Vec<Position>,
    terrain: &W,
    t: Position,
)
    requires
        resolution_inv(old(creeps)@, idle@),
        forall|j: int|
            0 <= j < old(creeps)@.len() && (#[trigger] old(creeps)@[j]).priority
                == MovementPriority::Immovable ==> old(creeps)@[j].resolved,
    ensures
        resolution_inv(final(creeps)@, idle@),
        same_cores(old(creeps)@, final(creeps)@),
        forall|j: int|
            0 <= j < old(creeps)@.len() && (#[trigger] old(creeps)@[j]).resolved ==> final(
                creeps)@[j] == old(creeps)@[j],
        forall|j: int|
            0 <= j < old(creeps)@.len() && !(#[trigger] old(creeps)@[j]).resolved && final(
                creeps)@[j].resolved && final(creeps)@[j].final_pos == t ==> is_max_candidate(
                old(creeps)@,
                j,
                t,
            ),
        forall|j: int|
            0 <= j < old(creeps)@.len() && !(#[trigger] old(creeps)@[j]).resolved && final(
                creeps)@[j].resolved ==> final(creeps)@[j].final_pos == t || (displaced_to_ok(
                final(creeps)@[j],
            ) && final(creeps)@[j].allow_shove),
        (forall|k: int| !is_candidate(old(creeps)@, k, t)) ==> final(creeps)@ == old(creeps)@,
        ((exists|k: int| is_candidate(old(creeps)@, k, t)) && forall|w: int|
            #[trigger] is_max_candidate(old(creeps)@, w, t) ==> freely_grantable(
                old(creeps)@,
                idle@,
                w,
                t,
            )) ==> exists|j: int|
            0 <= j < old(creeps)@.len() && !(#[trigger] old(creeps)@[j]).resolved && final(
                creeps)@[j].resolved && final(creeps)@[j].final_pos == t,
{
    let winner_opt = select_winner(creeps, t);
    let w: usize;
    match winner_opt {
        None => {
            return ;
        },
        Some(x) => {
            w = x;
        },
    }
    let cw = creeps[w];
    // The agent's own move must satisfy its anchor constraint as well.
    if t != cw.current_pos && !anchor_allows(&cw, t) {
        return ;
    }
    if !no_resolved_final_at(creeps, w, t) {
        return ;
    }
    if !none_at(idle, t) {
        return ;
    }
    match find_unresolved_at(creeps, w, t) {
        None => {
            commit_move(creeps, idle, w, t);
            proof {
                assert(!old(creeps)@[w as int].resolved && creeps@[w as int].resolved
                    && creeps@[w as int].final_pos == t);
            }
        },
        Some(occ) => {
            let ghost pre = creeps@;
            let mut avoid: Vec<Position> = Vec::new();
            avoid.push(t);
            proof {
                assert(avoid@.len() == 1 && avoid@[0] == t);
            }
            let shoved = try_shove(creeps, idle, terrain, occ, 0, &mut avoid);
            if shoved {
                if !creeps[w].resolved {
                    proof {
                        assert forall|j: int|
                            0 <= j < creeps@.len() && j != w implies (
                        #[trigger] creeps@[j]).final_pos != t by {
                            if creeps@[j].resolved {
                                if pre[j].resolved {
                                    assert(creeps@[j] == pre[j]);
                                } else {
                                    // newly resolved by the chain, which
                                    // avoided the contested tile
                                    assert(creeps@[j].final_pos != avoid@[0]);
                                }
                            } else {
                                // an unresolved agent still stands on its own
                                // tile; only the now-resolved occupant stood
                                // on the contested one
                                assert(creeps@[j].final_pos == creeps@[j].current_pos);
                                assert(core_eq(pre[j], creeps@[j]));
                                assert(creeps@[occ as int].resolved);
                                assert(j != occ as int);
                                assert(pre[j].current_pos != pre[occ as int].current_pos);
                            }
                        }
                    }
                    commit_move(creeps, idle, w, t);
                }
            }
            proof {
                assert forall|j: int|
                    0 <= j < old(creeps)@.len() && !(#[trigger] old(creeps)@[j]).resolved
                        && creeps@[j].resolved && creeps@[j].final_pos == t implies
                    is_max_candidate(old(creeps)@, j, t) by {
                    if j != w {
                        assert(creeps@[j].final_pos != avoid@[0]);
                    }
                }
            }
        },
    }
}

/// Agents `x` and `y` have exchanged tiles: both resolved, each ending on
/// the other's origin tile.
pub open spec fn swapped_now(
    old_s: Seq<ResolvedCreep>,
    cur_s: Seq<ResolvedCreep>,
    x: int,
    y: int,
) -> bool {
    &&& cur_s[x].resolved
    &&& cur_s[y].resolved
    &&& cur_s[x].final_pos == old_s[y].current_pos
    &&& cur_s[y].final_pos == old_s[x].current_pos
}

/// Every agent that the swap pass has resolved so far was resolved as one
/// half of a head-to-head swap.
pub open spec fn swaps_explain_resolutions(orig: Seq<ResolvedCreep>, cur: Seq<ResolvedCreep>) -> bool {
    forall|j: int|
        0 <= j < orig.len() && !(#[trigger] orig[j]).resolved && cur[j].resolved ==> exists|p: int|
            #[trigger] swap_spec(orig, j, p) && swapped_now(orig, cur, j, p)
}

/// An agent has at most one swap partner: its desired tile pins down the
/// partner's current tile, and current tiles are distinct.
proof fn lemma_swap_partner_unique(
    s: Seq<ResolvedCreep>,
    idle: Seq<Position>,
    x: int,
    y1: int,
    y2: int,
)
    requires
        distinct_currents(s, idle),
        swap_spec(s, x, y1),
        swap_spec(s, x, y2),
    ensures
        y1 == y2,
{
    assert(s[y1].current_pos == s[y2].current_pos);
}

/// One step of the swap pass: commits the swap of `a` and `b` when the pair
/// satisfies the swap condition now; afterwards, a pair that satisfied the
/// condition at the pass's start is exchanged if it is this one, and earlier
/// exchanges are untouched.
fn swap_pass_pair(
    creeps: &mut Vec<ResolvedCreep>,
    idle: &Vec<Position>,
    a: usize,
    b: usize,
    Ghost(orig): Ghost<Seq<ResolvedCreep>>,
)
    requires
        a < b < old(creeps)@.len(),
        resolution_inv(old(creeps)@, idle@),
        same_cores(orig, old(creeps)@),
        forall|j: int|
            0 <= j < orig.len() && (#[trigger] orig[j]).resolved ==> old(creeps)@[j] == orig[j],
        swaps_explain_resolutions(orig, old(creeps)@),
        distinct_currents(orig, idle@),
    ensures
        final(creeps)@.len() == old(creeps)@.len(),
        resolution_inv(final(creeps)@, idle@),
        same_cores(orig, final(creeps)@),
        forall|j: int|
            0 <= j < orig.len() && (#[trigger] orig[j]).resolved ==> final(creeps)@[j] == orig[j],
        swaps_explain_resolutions(orig, final(creeps)@),
        swap_spec(orig, a as int, b as int) ==> swapped_now(orig, final(creeps)@, a as int, b as int),
        forall|j: int|
            0 <= j < old(creeps)@.len() && (#[trigger] old(creeps)@[j]).resolved ==> final(
                creeps)@[j] == old(creeps)@[j],
{
    let ca = creeps[a];
    let cb = creeps[b];
    let mutual = !ca.resolved && !cb.resolved && ca.allow_swap && cb.allow_swap && ca.priority
        != MovementPriority::Immovable && cb.priority != MovementPriority::Immovable
        && ca.desired_pos == Some(cb.current_pos) && cb.desired_pos == Some(ca.current_pos)
        && anchor_allows(&ca, cb.current_pos) && anchor_allows(&cb, ca.current_pos);
    if mutual {
        assert(swap_spec(creeps@, a as int, b as int));
        let ghost pre = creeps@;
        commit_swap(creeps, idle, a, b);
        proof {
            assert(core_eq(orig[a as int], pre[a as int]));
            assert(core_eq(orig[b as int], pre[b as int]));
            assert(swap_spec(orig, a as int, b as int));
            assert(swapped_now(orig, creeps@, a as int, b as int));
            assert forall|j: int|
                0 <= j < orig.len() && !(#[trigger] orig[j]).resolved
                    && creeps@[j].resolved implies exists|p: int|
                #[trigger] swap_spec(orig, j, p) && swapped_now(orig, creeps@, j, p) by {
                if j == a {
                    assert(swap_spec(orig, a as int, b as int) && swapped_now(
                        orig,
                        creeps@,
                        a as int,
                        b as int,
                    ));
                } else if j == b {
                    assert(swap_spec(orig, b as int, a as int) && swapped_now(
                        orig,
                        creeps@,
                        b as int,
                        a as int,
                    ));
                } else {
                    assert(creeps@[j] == pre[j]);
                    let p = choose|p: int|
                        #[trigger] swap_spec(orig, j, p) && swapped_now(orig, pre, j, p);
                    assert(pre[p].resolved);
                    assert(p != a && p != b);
                    assert(swapped_now(orig, creeps@, j, p));
                }
            }
        }
    } else {
        proof {
            if swap_spec(orig, a as int, b as int) {
                // every core condition of the swap is unchanged from the
                // pass's start, so the check can only have failed because an
                // agent is already resolved - necessarily by the swap with
                // its unique partner: this very pair
                assert(core_eq(orig[a as int], creeps@[a as int]));
                assert(core_eq(orig[b as int], creeps@[b as int]));
                if !creeps@[a as int].resolved && !creeps@[b as int].resolved {
                    assert(!orig[a as int].resolved && !orig[b as int].resolved);
                    assert(mutual);
                    assert(false);
                } else if creeps@[a as int].resolved {
                    assert(!orig[a as int].resolved);
                    let p = choose|p: int|
                        #[trigger] swap_spec(orig, a as int, p) && swapped_now(
                            orig,
                            creeps@,
                            a as int,
                            p,
                        );
                    lemma_swap_partner_unique(orig, idle@, a as int, p, b as int);
                    assert(swapped_now(orig, creeps@, a as int, b as int));
                } else {
                    assert(!orig[b as int].resolved);
                    let p = choose|p: int|
                        #[trigger] swap_spec(orig, b as int, p) && swapped_now(
                            orig,
                            creeps@,
                            b as int,
                            p,
                        );
                    assert(swap_spec(orig, b as int, a as int));
                    lemma_swap_partner_unique(orig, idle@, b as int, p, a as int);
                    assert(swapped_now(orig, creeps@, b as int, a as int));
                }
            }
        }
    }
}

/// Detects and atomically resolves every head-to-head swap: whenever two
/// unresolved, swappable, non-`Immovable` agents each want the other's tile
/// and both prospective destinations satisfy their anchors, both agents
/// resolve in this same pass to each other's origin tile — neither is ever
/// individually left behind.
pub fn resolve_swaps(creeps: &mut Vec<ResolvedCreep>, idle: &Vec<Position>)
    requires
        resolution_inv(old(creeps)@, idle@),
    ensures
        final(creeps)@.len() == old(creeps)@.len(),
        resolution_inv(final(creeps)@, idle@),
        same_cores(old(creeps)@, final(creeps)@),
        forall|j: int|
            0 <= j < old(creeps)@.len() && (#[trigger] old(creeps)@[j]).resolved ==> final(
                creeps)@[j] == old(creeps)@[j],
        forall|x: int, y: int|
            #[trigger] swap_spec(old(creeps)@, x, y) ==> swapped_now(
                old(creeps)@,
                final(creeps)@,
                x,
                y,
            ),
        swaps_explain_resolutions(old(creeps)@, final(creeps)@),
        forall|j: int|
            0 <= j < old(creeps)@.len() && !(#[trigger] old(creeps)@[j]).resolved && final(
                creeps)@[j].resolved ==> final(creeps)@[j].desired_pos == Some(
                final(creeps)@[j].final_pos,
            ),
{
    let ghost orig = old(creeps)@;
    let n = creeps.len();
    let mut a: usize = 0;
    while a < n
        invariant
            n == creeps@.len(),
            a <= n,
            orig == old(creeps)@,
            resolution_inv(creeps@, idle@),
            same_cores(orig, creeps@),
            forall|j: int|
                0 <= j < orig.len() && (#[trigger] orig[j]).resolved ==> creeps@[j] == orig[j],
            swaps_explain_resolutions(orig, creeps@),
            forall|x: int, y: int|
                x < y && x < a && #[trigger] swap_spec(orig, x, y) ==> swapped_now(
                    orig,
                    creeps@,
                    x,
                    y,
                ),
        decreases n - a,
    {
        let mut b: usize = a + 1;
        while b < n
            invariant
                n == creeps@.len(),
                a < n,
                a < b <= n,
                orig == old(creeps)@,
                resolution_inv(creeps@, idle@),
                same_cores(orig, creeps@),
                forall|j: int|
                    0 <= j < orig.len() && (#[trigger] orig[j]).resolved ==> creeps@[j] == orig[j],
                swaps_explain_resolutions(orig, creeps@),
                forall|x: int, y: int|
                    x < y && (x < a || (x == a && y < b)) && #[trigger] swap_spec(orig, x, y)
                        ==> swapped_now(orig, creeps@, x, y),
            decreases n - b,
        {
            let ghost pre = creeps@;
            swap_pass_pair(creeps, idle, a, b, Ghost(orig));
            proof {
                assert forall|x: int, y: int|
                    x < y && (x < a || (x == a && y < b + 1)) && #[trigger] swap_spec(orig, x, y)
                        implies swapped_now(orig, creeps@, x, y) by {
                    if x == a as int && y == b as int {
                    } else {
                        assert(swapped_now(orig, pre, x, y));
                        assert(creeps@[x] == pre[x] && creeps@[y] == pre[y]);
                    }
                }
            }
            b = b + 1;
        }
        a = a + 1;
    }
    proof {
        assert forall|x: int, y: int| #[trigger] swap_spec(orig, x, y) implies swapped_now(
            orig,
            creeps@,
            x,
            y,
        ) by {
            if x < y {
                assert(swap_spec(orig, x, y));
            } else {
                assert(swap_spec(orig, y, x));
                assert(swapped_now(orig, creeps@, y, x));
            }
        }
        assert forall|j: int|
            0 <= j < orig.len() && !(#[trigger] orig[j]).resolved
                && creeps@[j].resolved implies creeps@[j].desired_pos == Some(
            creeps@[j].final_pos,
        ) by {
            let p = choose|p: int| #[trigger] swap_spec(orig, j, p) && swapped_now(orig, creeps@, j, p);
            assert(core_eq(orig[j], creeps@[j]));
        }
    }
}


/// The index of tile `p` in `tiles`, if present.
fn index_of_tile(tiles: &Vec<Position>, p: Position) -> (r: Option<usize>)
    ensures
        r matches Some(i) ==> i < tiles@.len(),
{
    let m = tiles.len();
    let mut i: usize = 0;
    while i < m
        invariant
            m == tiles@.len(),
            i <= m,
        decreases m - i,
    {
        if tiles[i] == p {
            return Some(i);
        }
        i = i + 1;
    }
    None
}

/// Tile `d` occurs in `ts` at or after index `from`.
pub open spec fn listed_from(ts: Seq<Position>, d: Position, from: int) -> bool {
    exists|i: int| from <= i < ts.len() && (#[trigger] ts[i]) == d
}

/// Tile `t` is the one thing contended this tick: some agent contends for
/// it, every desire names it, nobody — agent, idle agent, or resolved final
/// tile — stands on it, no contender is `Immovable`, and every unbeaten
/// contender satisfies its anchor at it.
pub open spec fn sole_contest(s: Seq<ResolvedCreep>, idle: Seq<Position>, t: Position) -> bool {
    &&& exists|k: int| is_candidate(s, k, t)
    &&& forall|k: int|
        0 <= k < s.len() ==> ((#[trigger] s[k]).desired_pos matches Some(d) ==> d == t)
    &&& forall|k: int| 0 <= k < s.len() ==> (#[trigger] s[k]).current_pos != t
    &&& forall|k: int| 0 <= k < idle.len() ==> (#[trigger] idle[k]) != t
    &&& forall|k: int| 0 <= k < s.len() && (#[trigger] s[k]).resolved ==> s[k].final_pos != t
    &&& forall|k: int|
        #[trigger] is_candidate(s, k, t) ==> s[k].priority != MovementPriority::Immovable
    &&& forall|w: int|
        #[trigger] is_max_candidate(s, w, t) ==> (t == s[w].current_pos || anchored_ok(s[w], t))
}

/// Some contender that no contender beats has been resolved onto `t`.
pub open spec fn granted_from(orig: Seq<ResolvedCreep>, cur: Seq<ResolvedCreep>, t: Position) -> bool {
    exists|j: int|
        0 <= j < orig.len() && #[trigger] is_max_candidate(orig, j, t) && cur[j].resolved
            && cur[j].final_pos == t
}

/// A resolution step that leaves records intact except for resolving some
/// non-contenders in place keeps a sole contest intact, with the same
/// contenders and the same unbeaten contenders.
proof fn lemma_sole_contest_step(
    s1: Seq<ResolvedCreep>,
    s2: Seq<ResolvedCreep>,
    idle: Seq<Position>,
    t: Position,
)
    requires
        s1.len() == s2.len(),
        same_cores(s1, s2),
        sole_contest(s1, idle, t),
        forall|j: int| 0 <= j < s1.len() && (#[trigger] s1[j]).resolved ==> s2[j] == s1[j],
        forall|j: int|
            0 <= j < s1.len() && !(#[trigger] s1[j]).resolved && s2[j].resolved ==> s2[j].final_pos
                == s2[j].current_pos && !is_candidate(s1, j, t),
    ensures
        sole_contest(s2, idle, t),
        forall|k: int| #[trigger] is_candidate(s2, k, t) <==> is_candidate(s1, k, t),
        forall|k: int| #[trigger] is_max_candidate(s2, k, t) <==> is_max_candidate(s1, k, t),
{
    assert forall|k: int| #[trigger] is_candidate(s2, k, t) <==> is_candidate(
        s1,
        k,
        t,
    ) by {
        if is_candidate(s1, k, t) {
            assert(core_eq(s1[k], s2[k]));
            assert(!s2[k].resolved);
        }
        if is_candidate(s2, k, t) {
            assert(core_eq(s1[k], s2[k]));
            assert(!s1[k].resolved);
        }
    }
    assert forall|k: int| #[trigger] is_max_candidate(s2, k, t) <==> is_max_candidate(
        s1,
        k,
        t,
    ) by {
        assert forall|a: int, b: int|
            is_candidate(s1, a, t) && is_candidate(s1, b, t) implies (beats(s2[a], s2[b]) <==> beats(
            s1[a],
            s1[b],
        )) by {
            assert(core_eq(s1[a], s2[a]));
            assert(core_eq(s1[b], s2[b]));
        }
        if is_max_candidate(s1, k, t) {
            assert(is_candidate(s2, k, t));
            assert forall|c: int| #[trigger] is_candidate(s2, c, t) implies !beats(
                s2[c],
                s2[k],
            ) by {
                assert(is_candidate(s1, c, t));
            }
        }
        if is_max_candidate(s2, k, t) {
            assert(is_candidate(s1, k, t));
            assert forall|c: int| #[trigger] is_candidate(s1, c, t) implies !beats(
                s1[c],
                s1[k],
            ) by {
                assert(is_candidate(s2, c, t));
            }
        }
    }
    let k0 = choose|k: int| is_candidate(s1, k, t);
    assert(is_candidate(s2, k0, t));
    assert forall|k: int|
        0 <= k < s2.len() && (#[trigger] s2[k]).resolved implies s2[k].final_pos != t by {
        if s1[k].resolved {
            assert(s2[k] == s1[k]);
        } else {
            assert(s2[k].final_pos == s2[k].current_pos);
            assert(core_eq(s1[k], s2[k]));
        }
    }
    assert forall|k: int| 0 <= k < s2.len() implies (#[trigger] s2[k]).current_pos != t by {
        assert(core_eq(s1[k], s2[k]));
    }
    assert forall|k: int|
        0 <= k < s2.len() implies ((#[trigger] s2[k]).desired_pos matches Some(d) ==> d == t) by {
        assert(core_eq(s1[k], s2[k]));
    }
    assert forall|k: int| #[trigger] is_candidate(s2, k, t) implies s2[k].priority
        != MovementPriority::Immovable by {
        assert(is_candidate(s1, k, t));
        assert(core_eq(s1[k], s2[k]));
    }
    assert forall|w: int| #[trigger] is_max_candidate(s2, w, t) implies (t == s2[w].current_pos
        || anchored_ok(s2[w], t)) by {
        assert(is_max_candidate(s1, w, t));
        assert(core_eq(s1[w], s2[w]));
    }
}

/// The desired tiles of all unresolved agents, in agent order (one entry per
/// agent; repeats are harmless to arbitration).
fn collect_contested_tiles(creeps: &Vec<ResolvedCreep>) -> (tiles: Vec<Position>)
    ensures
        forall|j: int|
            0 <= j < creeps@.len() && !(#[trigger] creeps@[j]).resolved
                && creeps@[j].desired_pos is Some ==> listed_from(
                tiles@,
                creeps@[j].desired_pos->0,
                0,
            ),
{
    let n = creeps.len();
    let mut tiles: Vec<Position> = Vec::new();
    let mut i: usize = 0;
    while i < n
        invariant
            n == creeps@.len(),
            i <= n,
            forall|j: int|
                0 <= j < i && !(#[trigger] creeps@[j]).resolved && creeps@[j].desired_pos
                    is Some ==> listed_from(tiles@, creeps@[j].desired_pos->0, 0),
        decreases n - i,
    {
        let ghost pre = tiles@;
        let c = creeps[i];
        if !c.resolved {
            match c.desired_pos {
                Some(d) => {
                    tiles.push(d);
                    proof {
                        assert(tiles@[tiles@.len() - 1] == d);
                        assert forall|j: int|
                            0 <= j < i && !(#[trigger] creeps@[j]).resolved
                                && creeps@[j].desired_pos is Some implies listed_from(
                            tiles@,
                            creeps@[j].desired_pos->0,
                            0,
                        ) by {
                            let w = choose|w: int|
                                0 <= w < pre.len() && (#[trigger] pre[w])
                                    == creeps@[j].desired_pos->0;
                            assert(tiles@[w] == pre[w]);
                        }
                    }
                },
                None => {},
            }
        }
        i = i + 1;
    }
    tiles
}

/// Orders contested tiles so that convoys resolve front to back: when the
/// agent standing on tile `T` wants contested tile `T2`, `T2` is processed
/// before `T`, so the lead agent's grant frees its tile for the follower.
/// Tiles on a dependency cycle are appended afterwards in input order.
/// Every input tile stays listed.
fn order_tiles(creeps: &Vec<ResolvedCreep>, tiles: &Vec<Position>) -> (ordered: Vec<Position>)
    ensures
        forall|d: Position| #[trigger] listed_from(tiles@, d, 0) ==> listed_from(ordered@, d, 0),
{
    let n = creeps.len();
    let m = tiles.len();
    // dep[ti] = Some(tj): tile tj should be processed before tile ti
    let mut dep: Vec<Option<usize>> = Vec::new();
    let mut ti: usize = 0;
    while ti < m
        invariant
            m == tiles@.len(),
            ti <= m,
            dep@.len() == ti,
            forall|k: int| 0 <= k < ti ==> ((#[trigger] dep@[k]) matches Some(tj) ==> tj < m),
        decreases m - ti,
    {
        let mut d: Option<usize> = None;
        match find_unresolved_at(creeps, n, tiles[ti]) {
            Some(j) => {
                match creeps[j].desired_pos {
                    Some(des) => {
                        if des != tiles[ti] {
                            d = index_of_tile(tiles, des);
                        }
                    },
                    None => {},
                }
            },
            None => {},
        }
        dep.push(d);
        ti = ti + 1;
    }
    let mut done: Vec<bool> = Vec::new();
    let mut k: usize = 0;
    while k < m
        invariant
            k <= m,
            done@.len() == k,
            forall|q: int| 0 <= q < k ==> !(#[trigger] done@[q]),
        decreases m - k,
    {
        done.push(false);
        k = k + 1;
    }
    let mut ordered: Vec<Position> = Vec::new();
    let mut rounds: usize = 0;
    while rounds < m
        invariant
            m == tiles@.len(),
            done@.len() == m,
            dep@.len() == m,
            forall|k2: int| 0 <= k2 < m ==> ((#[trigger] dep@[k2]) matches Some(tj) ==> tj < m),
            forall|k2: int|
                0 <= k2 < m && (#[trigger] done@[k2]) ==> listed_from(ordered@, tiles@[k2], 0),
        decreases m - rounds,
    {
        let mut progressed = false;
        let mut t2: usize = 0;
        while t2 < m
            invariant
                m == tiles@.len(),
                done@.len() == m,
                dep@.len() == m,
                t2 <= m,
                forall|k2: int| 0 <= k2 < m ==> ((#[trigger] dep@[k2]) matches Some(tj) ==> tj < m),
                forall|k2: int|
                    0 <= k2 < m && (#[trigger] done@[k2]) ==> listed_from(ordered@, tiles@[k2], 0),
            decreases m - t2,
        {
            if !done[t2] {
                let ready = match dep[t2] {
                    None => true,
                    Some(tj) => done[tj],
                };
                if ready {
                    let ghost pre = ordered@;
                    done.set(t2, true);
                    ordered.push(tiles[t2]);
                    progressed = true;
                    proof {
                        assert(ordered@[ordered@.len() - 1] == tiles@[t2 as int]);
                        assert forall|k2: int|
                            0 <= k2 < m && (#[trigger] done@[k2]) implies listed_from(
                            ordered@,
                            tiles@[k2],
                            0,
                        ) by {
                            if k2 != t2 {
                                let w = choose|w: int|
                                    0 <= w < pre.len() && (#[trigger] pre[w]) == tiles@[k2];
                                assert(ordered@[w] == pre[w]);
                            }
                        }
                    }
                }
            }
            t2 = t2 + 1;
        }
        if !progressed {
            break ;
        }
        rounds = rounds + 1;
    }
    // tiles on a dependency cycle, in input order
    let mut t3: usize = 0;
    while t3 < m
        invariant
            m == tiles@.len(),
            done@.len() == m,
            t3 <= m,
            forall|k2: int| 0 <= k2 < t3 ==> #[trigger] done@[k2],
            forall|k2: int|
                0 <= k2 < m && (#[trigger] done@[k2]) ==> listed_from(ordered@, tiles@[k2], 0),
        decreases m - t3,
    {
        if !done[t3] {
            let ghost pre = ordered@;
            done.set(t3, true);
            ordered.push(tiles[t3]);
            proof {
                assert(ordered@[ordered@.len() - 1] == tiles@[t3 as int]);
                assert forall|k2: int|
                    0 <= k2 < m && (#[trigger] done@[k2]) implies listed_from(
                    ordered@,
                    tiles@[k2],
                    0,
                ) by {
                    if k2 != t3 {
                        let w = choose|w: int|
                            0 <= w < pre.len() && (#[trigger] pre[w]) == tiles@[k2];
                        assert(ordered@[w] == pre[w]);
                    }
                }
            }
        }
        t3 = t3 + 1;
    }
    proof {
        assert forall|d: Position| #[trigger] listed_from(tiles@, d, 0) implies listed_from(
            ordered@,
            d,
            0,
        ) by {
            let k = choose|k: int| 0 <= k < tiles@.len() && (#[trigger] tiles@[k]) == d;
            assert(done@[k]);
        }
    }
    ordered
}

/// Resolves all tile contention for one tick.
///
/// Steps: `Immovable` agents are fixed on their current tiles; head-to-head
/// swaps resolve atomically; contested tiles are arbitrated front to back,
/// granting each to the contender no other contender beats, displacing
/// occupants with bounded shove chains; every agent left unresolved stays on
/// its current tile.
///
/// On exit every agent is resolved, and the resolution invariant guarantees:
/// no two agents share a final tile, no agent ends on an idle agent's tile,
/// anchored agents that move stay within their anchor radius, and
/// `Immovable` agents keep their current tile. Every pair that satisfied the
/// swap condition on entry has exchanged tiles, and every agent ends on its
/// own tile, on its desired tile, or — having permitted shoving — one step
/// sideways; in particular an agent that wins nothing stays in place. When
/// one free tile is the only thing contended, its grant is owed: some
/// unbeaten contender is resolved onto it.
pub fn resolve_conflicts<W: crate::traits::TerrainSource>(
    creeps: &mut Vec<ResolvedCreep>,
    idle: &Vec<Position>,
    terrain: &W,
)
    requires
        resolution_inv(old(creeps)@, idle@),
    ensures
        resolution_inv(final(creeps)@, idle@),
        same_cores(old(creeps)@, final(creeps)@),
        forall|j: int| 0 <= j < final(creeps)@.len() ==> (#[trigger] final(creeps)@[j]).resolved,
        forall|j: int|
            0 <= j < old(creeps)@.len() && (#[trigger] old(creeps)@[j]).resolved ==> final(
                creeps)@[j] == old(creeps)@[j],
        forall|x: int, y: int|
            #[trigger] swap_spec(old(creeps)@, x, y) ==> swapped_now(
                old(creeps)@,
                final(creeps)@,
                x,
                y,
            ),
        forall|j: int|
            0 <= j < old(creeps)@.len() && !(#[trigger] old(creeps)@[j]).resolved
                ==> outcome_tile_ok(final(creeps)@[j]),
        forall|t: Position|
            #[trigger] sole_contest(old(creeps)@, idle@, t) ==> granted_from(
                old(creeps)@,
                final(creeps)@,
                t,
            ),
{
    let ghost orig = creeps@;
    let n = creeps.len();

    // Fix every Immovable agent on its current tile first: they are never
    // shoved, never swapped, and always resolve to where they stand.
    let mut i: usize = 0;
    while i < n
        invariant
            n == creeps@.len(),
            i <= n,
            resolution_inv(creeps@, idle@),
            same_cores(orig, creeps@),
            forall|j: int|
                0 <= j < n && (#[trigger] orig[j]).resolved ==> creeps@[j] == orig[j],
            forall|j: int|
                0 <= j < i && (#[trigger] creeps@[j]).priority == MovementPriority::Immovable
                    ==> creeps@[j].resolved,
            forall|j: int|
                0 <= j < n && !(#[trigger] orig[j]).resolved && creeps@[j].resolved
                    ==> creeps@[j].final_pos == creeps@[j].current_pos && creeps@[j].priority
                        == MovementPriority::Immovable,
        decreases n - i,
    {
        let c = creeps[i];
        if !c.resolved && c.priority == MovementPriority::Immovable {
            proof {
                assert forall|j: int|
                    0 <= j < creeps@.len() && j != i implies (#[trigger] creeps@[j]).final_pos
                    != creeps@[i as int].current_pos by {
                    assert(creeps@[i as int].final_pos == creeps@[i as int].current_pos);
                }
            }
            commit_move(creeps, idle, i, c.current_pos);
        }
        i = i + 1;
    }
    let ghost after_imm = creeps@;

    // Head-to-head swaps resolve atomically before any contention.
    resolve_swaps(creeps, idle);
    let ghost after_swaps = creeps@;

    proof {
        // a sole contest survives the two passes so far: the Immovable pass
        // fixes only non-contenders in place, and no swap pair can exist when
        // every desire names an unoccupied tile
        assert forall|tc: Position| #[trigger] sole_contest(orig, idle@, tc) implies sole_contest(
            after_swaps,
            idle@,
            tc,
        ) && (forall|k: int|
            #[trigger] is_max_candidate(after_swaps, k, tc) <==> is_max_candidate(
                orig,
                k,
                tc,
            )) by {
            assert forall|j: int|
                0 <= j < orig.len() && !(#[trigger] orig[j]).resolved
                    && after_imm[j].resolved implies after_imm[j].final_pos
                == after_imm[j].current_pos && !is_candidate(orig, j, tc) by {
                if is_candidate(orig, j, tc) {
                    assert(orig[j].priority != MovementPriority::Immovable);
                    assert(core_eq(orig[j], after_imm[j]));
                }
            }
            lemma_sole_contest_step(orig, after_imm, idle@, tc);
            assert forall|j: int|
                0 <= j < after_imm.len() && !(#[trigger] after_imm[j]).resolved
                    && after_swaps[j].resolved implies after_swaps[j].final_pos
                == after_swaps[j].current_pos && !is_candidate(after_imm, j, tc) by {
                assert(after_swaps[j].desired_pos == Some(after_swaps[j].final_pos));
                assert(core_eq(after_imm[j], after_swaps[j]));
                assert(after_swaps[j].final_pos == tc);
                assert(after_imm[j].current_pos != tc);
                let p = choose|p: int|
                    #[trigger] swap_spec(after_imm, j, p) && swapped_now(
                        after_imm,
                        after_swaps,
                        j,
                        p,
                    );
                assert(after_imm[j].desired_pos == Some(after_imm[p].current_pos));
                assert(after_imm[p].current_pos != tc);
                assert(false);
            }
            lemma_sole_contest_step(after_imm, after_swaps, idle@, tc);
        }
    }

    // Arbitrate each contested tile, front of a convoy first.
    let tiles = collect_contested_tiles(creeps);
    let ordered = order_tiles(creeps, &tiles);
    let mut t: usize = 0;
    while t < ordered.len()
        invariant
            n == creeps@.len(),
            orig.len() == n,
            resolution_inv(creeps@, idle@),
            t <= ordered@.len(),
            same_cores(after_swaps, creeps@),
            forall|j: int|
                0 <= j < n && (#[trigger] after_swaps[j]).resolved ==> creeps@[j] == after_swaps[j],
            forall|j: int|
                0 <= j < n && (#[trigger] creeps@[j]).priority == MovementPriority::Immovable
                    ==> creeps@[j].resolved,
            forall|j: int|
                0 <= j < n && !(#[trigger] after_swaps[j]).resolved && creeps@[j].resolved
                    ==> outcome_tile_ok(creeps@[j]),
            forall|tc: Position|
                #[trigger] sole_contest(orig, idle@, tc) ==> granted_from(orig, creeps@, tc) || (
                sole_contest(creeps@, idle@, tc) && (forall|k: int|
                    #[trigger] is_max_candidate(creeps@, k, tc) <==> is_max_candidate(
                        orig,
                        k,
                        tc,
                    )) && listed_from(ordered@, tc, t as int)),
        decreases ordered.len() - t,
    {
        let ghost pre = creeps@;
        let tile = ordered[t];
        resolve_tile(creeps, idle, terrain, tile);
        proof {
            assert forall|j: int|
                0 <= j < n && !(#[trigger] after_swaps[j]).resolved
                    && creeps@[j].resolved implies outcome_tile_ok(creeps@[j]) by {
                if pre[j].resolved {
                    assert(creeps@[j] == pre[j]);
                } else {
                    // resolved by this tile's arbitration: granted the tile
                    // it contended for, or displaced with its consent
                    assert(core_eq(pre[j], creeps@[j]));
                    if creeps@[j].final_pos == tile {
                        assert(is_max_candidate(pre, j, tile));
                        assert(pre[j].desired_pos == Some(tile));
                    }
                }
            }
            assert forall|tc: Position| #[trigger] sole_contest(orig, idle@, tc) implies
                granted_from(orig, creeps@, tc) || (sole_contest(creeps@, idle@, tc) && (forall|
                k: int,
            |
                #[trigger] is_max_candidate(creeps@, k, tc) <==> is_max_candidate(orig, k, tc))
                && listed_from(ordered@, tc, t + 1)) by {
                if granted_from(orig, pre, tc) {
                    // the grant survives: arbitration never touches a
                    // resolved agent
                    let j = choose|j: int|
                        0 <= j < orig.len() && #[trigger] is_max_candidate(orig, j, tc)
                            && pre[j].resolved && pre[j].final_pos == tc;
                    assert(0 <= j < pre.len());
                    assert(pre[j].resolved);
                    assert(creeps@[j] == pre[j]);
                    assert(granted_from(orig, creeps@, tc));
                } else {
                    if tile == tc {
                        // this is the contested tile's turn: the grant fires
                        assert forall|w: int| #[trigger] is_max_candidate(pre, w, tc) implies
                            freely_grantable(pre, idle@, w, tc) by {}
                        let j = choose|j: int|
                            0 <= j < pre.len() && !(#[trigger] pre[j]).resolved
                                && creeps@[j].resolved && creeps@[j].final_pos == tc;
                        assert(is_max_candidate(pre, j, tc));
                        assert(is_max_candidate(orig, j, tc));
                        assert(granted_from(orig, creeps@, tc));
                    } else {
                        // another tile's turn: the sole contest has no
                        // contender for it, so nothing changes
                        assert forall|k: int| !is_candidate(pre, k, tile) by {
                            if is_candidate(pre, k, tile) {
                                assert(pre[k].desired_pos == Some(tile));
                            }
                        }
                        assert(creeps@ == pre);
                        let i = choose|i: int|
                            t <= i < ordered@.len() && (#[trigger] ordered@[i]) == tc;
                        assert(i != t);
                        assert(listed_from(ordered@, tc, t + 1));
                    }
                }
            }
        }
        t = t + 1;
    }
    let ghost after_tiles = creeps@;
    proof {
        assert forall|tc: Position| #[trigger] sole_contest(orig, idle@, tc) implies granted_from(
            orig,
            after_tiles,
            tc,
        ) by {
            if !granted_from(orig, after_tiles, tc) {
                let i = choose|i: int|
                    t <= i < ordered@.len() && (#[trigger] ordered@[i]) == tc;
                assert(false);
            }
        }
    }

    // Whoever is still unresolved stays in place.
    let mut f: usize = 0;
    while f < n
        invariant
            n == creeps@.len(),
            f <= n,
            resolution_inv(creeps@, idle@),
            same_cores(after_tiles, creeps@),
            forall|j: int|
                0 <= j < n && (#[trigger] after_tiles[j]).resolved ==> creeps@[j] == after_tiles[j],
            forall|j: int| 0 <= j < f ==> (#[trigger] creeps@[j]).resolved,
            forall|j: int|
                0 <= j < n && !(#[trigger] after_tiles[j]).resolved && creeps@[j].resolved
                    ==> creeps@[j].final_pos == creeps@[j].current_pos,
        decreases n - f,
    {
        let c = creeps[f];
        if !c.resolved {
            proof {
                assert forall|j: int|
                    0 <= j < creeps@.len() && j != f implies (#[trigger] creeps@[j]).final_pos
                    != creeps@[f as int].current_pos by {
                    assert(creeps@[f as int].final_pos == creeps@[f as int].current_pos);
                }
            }
            commit_move(creeps, idle, f, c.current_pos);
        }
        f = f + 1;
    }

    proof {
        // a swap pair on entry is still a swap pair after the Immovable pass
        // (that pass touches only Immovable agents, which no swap involves),
        // and its exchange survives the later passes, which never touch a
        // resolved agent
        assert(same_cores(orig, creeps@));
        assert forall|x: int, y: int| #[trigger] swap_spec(orig, x, y) implies swapped_now(
            orig,
            creeps@,
            x,
            y,
        ) by {
            assert(core_eq(orig[x], after_imm[x]));
            assert(core_eq(orig[y], after_imm[y]));
            assert(after_imm[x] == orig[x] || after_imm[x].final_pos == after_imm[x].current_pos);
            assert(!after_imm[x].resolved) by {
                if after_imm[x].resolved && !orig[x].resolved {
                    assert(after_imm[x].priority == MovementPriority::Immovable);
                }
            }
            assert(!after_imm[y].resolved) by {
                if after_imm[y].resolved && !orig[y].resolved {
                    assert(after_imm[y].priority == MovementPriority::Immovable);
                }
            }
            assert(swap_spec(after_imm, x, y));
            assert(swapped_now(after_imm, after_swaps, x, y));
            assert(after_tiles[x] == after_swaps[x] && after_tiles[y] == after_swaps[y]);
            assert(creeps@[x] == after_tiles[x] && creeps@[y] == after_tiles[y]);
        }
        assert forall|tc: Position| #[trigger] sole_contest(orig, idle@, tc) implies granted_from(
            orig,
            creeps@,
            tc,
        ) by {
            let j = choose|j: int|
                0 <= j < orig.len() && #[trigger] is_max_candidate(orig, j, tc)
                    && after_tiles[j].resolved && after_tiles[j].final_pos == tc;
            assert(creeps@[j] == after_tiles[j]);
        }
        assert forall|j: int|
            0 <= j < n && !(#[trigger] orig[j]).resolved implies outcome_tile_ok(creeps@[j]) by {
            if after_imm[j].resolved {
                // fixed in place by the Immovable pass, untouched after
                assert(after_imm[j].final_pos == after_imm[j].current_pos);
                assert(after_swaps[j] == after_imm[j]);
                assert(after_tiles[j] == after_swaps[j]);
                assert(creeps@[j] == after_tiles[j]);
            } else if after_swaps[j].resolved {
                // swapped onto its desired tile, untouched after
                assert(after_swaps[j].desired_pos == Some(after_swaps[j].final_pos));
                assert(after_tiles[j] == after_swaps[j]);
                assert(creeps@[j] == after_tiles[j]);
            } else if after_tiles[j].resolved {
                assert(outcome_tile_ok(after_tiles[j]));
                assert(creeps@[j] == after_tiles[j]);
            } else {
                assert(creeps@[j].final_pos == creeps@[j].current_pos);
            }
        }
    }
}

/// `h` is the handle of one of the submitted requests.
pub open spec fn appears_as_request(
    requests: Seq<(u64, crate::request::MovementRequest)>,
    h: u64,
) -> bool {
    exists|k: int| 0 <= k < requests.len() && (#[trigger] requests[k]).0 == h
}

/// `h` occurs somewhere in the output order.
pub open spec fn listed_in_order(sorted: Seq<u64>, h: u64) -> bool {
    exists|i: int| 0 <= i < sorted.len() && #[trigger] sorted[i] == h
}

/// The output order lists every requesting agent exactly once: entries are
/// pairwise distinct, every entry is a requesting agent's handle, and every
/// requesting agent's handle appears.
pub open spec fn follow_order_ok(
    requests: Seq<(u64, crate::request::MovementRequest)>,
    sorted: Seq<u64>,
) -> bool {
    &&& forall|i: int, j: int|
        0 <= i < sorted.len() && 0 <= j < sorted.len() && i != j ==> (#[trigger] sorted[i]) != (
        #[trigger] sorted[j])
    &&& forall|i: int|
        0 <= i < sorted.len() ==> appears_as_request(requests, #[trigger] sorted[i])
    &&& forall|k: int|
        0 <= k < requests.len() ==> listed_in_order(sorted, (#[trigger] requests[k]).0)
}

/// The index of the request submitted by `entity`, if any.
pub(crate) fn find_request_index(
    requests: &Vec<(u64, crate::request::MovementRequest)>,
    entity: u64,
) -> (r: Option<usize>)
    ensures
        match r {
            Some(i) => i < requests@.len() && requests@[i as int].0 == entity,
            None => forall|k: int|
                0 <= k < requests@.len() ==> (#[trigger] requests@[k]).0 != entity,
        },
{
    let n = requests.len();
    let mut i: usize = 0;
    while i < n
        invariant
            n == requests@.len(),
            i <= n,
            forall|k: int| 0 <= k < i ==> (#[trigger] requests@[k]).0 != entity,
        decreases n - i,
    {
        if requests[i].0 == entity {
            return Some(i);
        }
        i = i + 1;
    }
    None
}

/// A well-formed follower-to-leader edge: it points at a request index, and
/// it came from the follower's own follow intent.
pub open spec fn follow_edge_ok(
    requests: Seq<(u64, crate::request::MovementRequest)>,
    k: int,
    e: Option<usize>,
) -> bool {
    e matches Some(l) ==> l < requests.len() && (
    requests[k].1.intent matches crate::request::MovementIntent::Follow { target, .. }
        && requests[l as int].0 == target)
}

/// `first` appears strictly before `second` in the output order.
pub open spec fn precedes(sorted: Seq<u64>, first: u64, second: u64) -> bool {
    exists|i: int, j: int|
        0 <= i < j < sorted.len() && (#[trigger] sorted[i]) == first && (#[trigger] sorted[j])
            == second
}

/// Some recorded severed edge names `f` as the follower whose edge was cut.
pub open spec fn severed_follower_listed(broken: Seq<(u64, u64)>, f: u64) -> bool {
    exists|b: int| 0 <= b < broken.len() && (#[trigger] broken[b]).0 == f
}

/// A recorded severed edge really was a follow edge of the input: its first
/// agent follows, by its own intent, the second.
pub open spec fn severed_edge_ok(
    requests: Seq<(u64, crate::request::MovementRequest)>,
    b: (u64, u64),
) -> bool {
    exists|k: int|
        0 <= k < requests.len() && (#[trigger] requests[k]).0 == b.0 && (
        requests[k].1.intent matches crate::request::MovementIntent::Follow { target, .. }
            && target == b.1)
}

/// Agent `to` is reachable from agent `from` by following at most `fuel`
/// leader edges.
pub open spec fn leads_to(leader: Seq<Option<usize>>, from: int, to: int, fuel: nat) -> bool
    decreases fuel,
{
    if !(0 <= from < leader.len()) {
        false
    } else if from == to {
        true
    } else if fuel == 0 {
        false
    } else {
        match leader[from] {
            Some(l) => leads_to(leader, l as int, to, (fuel - 1) as nat),
            None => false,
        }
    }
}

/// A recorded severed edge closes a cycle: its leader reaches its follower
/// back through the edge map, so follower -> leader -> ... -> follower was a
/// cycle before the cut.
pub open spec fn severed_closes_cycle(
    requests: Seq<(u64, crate::request::MovementRequest)>,
    leader0: Seq<Option<usize>>,
    b: (u64, u64),
) -> bool {
    exists|f: int, l: int|
        0 <= f < requests.len() && 0 <= l < requests.len() && (#[trigger] requests[f]).0 == b.0
            && (#[trigger] requests[l]).0 == b.1 && (leader0[f] matches Some(x) && x as int == l)
            && leads_to(leader0, l, f, (requests.len() + 1) as nat)
}

/// Reachability only grows with fuel.
proof fn lemma_leads_to_fuel(leader: Seq<Option<usize>>, from: int, to: int, f1: nat, f2: nat)
    requires
        leads_to(leader, from, to, f1),
        f1 <= f2,
    ensures
        leads_to(leader, from, to, f2),
    decreases f1,
{
    if from != to && f1 > 0 {
        match leader[from] {
            Some(l) => {
                lemma_leads_to_fuel(leader, l as int, to, (f1 - 1) as nat, (f2 - 1) as nat);
            },
            None => {},
        }
    }
}

/// Severing edges never creates reachability: a chain in the cut map was a
/// chain in the original map.
proof fn lemma_leads_to_weaken(
    l1: Seq<Option<usize>>,
    l2: Seq<Option<usize>>,
    from: int,
    to: int,
    fuel: nat,
)
    requires
        l1.len() == l2.len(),
        forall|k: int| 0 <= k < l2.len() ==> ((#[trigger] l2[k]) matches Some(x) ==> l1[k] == Some(x)),
        leads_to(l2, from, to, fuel),
    ensures
        leads_to(l1, from, to, fuel),
    decreases fuel,
{
    if from != to && fuel > 0 {
        match l2[from] {
            Some(l) => {
                assert(l1[from] == Some(l));
                lemma_leads_to_weaken(l1, l2, l as int, to, (fuel - 1) as nat);
            },
            None => {},
        }
    }
}

/// A walked path is a leader chain, so its tail is reachable from any of its
/// tiles.
proof fn lemma_path_leads(leader: Seq<Option<usize>>, path: Seq<usize>, j: int)
    requires
        0 <= j < path.len(),
        forall|i: int| 0 <= i < path.len() ==> (#[trigger] path[i]) < leader.len(),
        forall|i: int|
            0 <= i < path.len() - 1 ==> (#[trigger] leader[path[i] as int]) == Some(path[i + 1]),
    ensures
        leads_to(leader, path[j] as int, path[path.len() - 1] as int, (path.len() - j) as nat),
    decreases path.len() - j,
{
    if j == path.len() - 1 {
    } else {
        assert(leader[path[j] as int] == Some(path[j + 1]));
        lemma_path_leads(leader, path, j + 1);
    }
}

/// Builds the follower-to-leader edge map from the follow intents.
fn build_follow_edges(requests: &Vec<(u64, crate::request::MovementRequest)>) -> (leader: Vec<
    Option<usize>,
>)
    ensures
        leader@.len() == requests@.len(),
        forall|k: int|
            0 <= k < requests@.len() ==> follow_edge_ok(requests@, k, #[trigger] leader@[k]),
        forall|k: int|
            0 <= k < requests@.len() && ((#[trigger] requests@[k]).1.intent
                matches crate::request::MovementIntent::Follow { target, .. }
                && appears_as_request(requests@, target)) ==> leader@[k] is Some,
{
    let n = requests.len();
    let mut leader: Vec<Option<usize>> = Vec::new();
    let mut i: usize = 0;
    while i < n
        invariant
            n == requests@.len(),
            i <= n,
            leader@.len() == i,
            forall|k: int| 0 <= k < i ==> follow_edge_ok(requests@, k, #[trigger] leader@[k]),
            forall|k: int|
                0 <= k < i && ((#[trigger] requests@[k]).1.intent
                    matches crate::request::MovementIntent::Follow { target, .. }
                    && appears_as_request(requests@, target)) ==> leader@[k] is Some,
        decreases n - i,
    {
        let mut l: Option<usize> = None;
        match &requests[i].1.intent {
            crate::request::MovementIntent::Follow { target, .. } => {
                l = find_request_index(requests, *target);
            },
            _ => {},
        }
        leader.push(l);
        i = i + 1;
    }
    leader
}

/// Detects follow cycles by walking each chain with transient three-state
/// coloring, severing the edge that closes each cycle. Returns the severed
/// edges as `(follower, leader)` handle pairs: each names a distinct
/// follower whose recorded leader led back to it through the edge map — a
/// genuine cycle — and whose edge is gone afterwards, everything else being
/// untouched.
pub fn sever_follow_cycles(
    requests: &Vec<(u64, crate::request::MovementRequest)>,
    leader: &mut Vec<Option<usize>>,
) -> (broken: Vec<(u64, u64)>)
    requires
        old(leader)@.len() == requests@.len(),
        forall|k: int|
            0 <= k < requests@.len() ==> follow_edge_ok(requests@, k, #[trigger] old(leader)@[k]),
        forall|i: int, j: int|
            0 <= i < requests@.len() && 0 <= j < requests@.len() && i != j ==> (
            #[trigger] requests@[i]).0 != (#[trigger] requests@[j]).0,
    ensures
        final(leader)@.len() == requests@.len(),
        forall|k: int|
            0 <= k < requests@.len() ==> follow_edge_ok(requests@, k, #[trigger] final(leader)@[k]),
        forall|b: int| 0 <= b < broken@.len() ==> severed_edge_ok(requests@, #[trigger] broken@[b]),
        forall|k: int|
            0 <= k < requests@.len() ==> (#[trigger] final(leader)@[k]) == old(leader)@[k]
                || final(leader)@[k] is None,
        forall|k: int|
            0 <= k < requests@.len() && (#[trigger] old(leader)@[k]) is Some && final(
                leader)@[k] is None ==> severed_follower_listed(broken@, requests@[k].0),
        forall|k: int|
            0 <= k < requests@.len() && severed_follower_listed(broken@, (
            #[trigger] requests@[k]).0) ==> final(leader)@[k] is None,
        forall|b1: int, b2: int|
            0 <= b1 < broken@.len() && 0 <= b2 < broken@.len() && b1 != b2 ==> (
            #[trigger] broken@[b1]).0 != (#[trigger] broken@[b2]).0,
        forall|b: int|
            0 <= b < broken@.len() ==> severed_closes_cycle(
                requests@,
                old(leader)@,
                #[trigger] broken@[b],
            ),
{
    let n = requests.len();
    let mut broken: Vec<(u64, u64)> = Vec::new();
    // 0 = unvisited, 1 = on the current walk, 2 = fully processed
    let mut colors: Vec<u8> = Vec::new();
    let mut k: usize = 0;
    while k < n
        invariant
            k <= n,
            colors@.len() == k,
            forall|q: int| 0 <= q < k ==> (#[trigger] colors@[q]) == 0,
        decreases n - k,
    {
        colors.push(0);
        k = k + 1;
    }
    let mut start: usize = 0;
    while start < n
        invariant
            n == requests@.len(),
            start <= n,
            colors@.len() == n,
            leader@.len() == n,
            old(leader)@.len() == n,
            forall|i: int, j: int|
                0 <= i < n && 0 <= j < n && i != j ==> (#[trigger] requests@[i]).0 != (
                #[trigger] requests@[j]).0,
            forall|k2: int|
                0 <= k2 < n ==> follow_edge_ok(requests@, k2, #[trigger] leader@[k2]),
            forall|b: int|
                0 <= b < broken@.len() ==> severed_edge_ok(requests@, #[trigger] broken@[b]),
            forall|k2: int|
                0 <= k2 < n ==> (#[trigger] leader@[k2]) == old(leader)@[k2] || leader@[k2]
                    is None,
            forall|k2: int|
                0 <= k2 < n && (#[trigger] old(leader)@[k2]) is Some && leader@[k2]
                    is None ==> severed_follower_listed(broken@, requests@[k2].0),
            forall|k2: int|
                0 <= k2 < n && severed_follower_listed(broken@, (#[trigger] requests@[k2]).0)
                    ==> leader@[k2] is None,
            forall|b1: int, b2: int|
                0 <= b1 < broken@.len() && 0 <= b2 < broken@.len() && b1 != b2 ==> (
                #[trigger] broken@[b1]).0 != (#[trigger] broken@[b2]).0,
            forall|b: int|
                0 <= b < broken@.len() ==> severed_closes_cycle(
                    requests@,
                    old(leader)@,
                    #[trigger] broken@[b],
                ),
            forall|x: int| 0 <= x < n ==> (#[trigger] colors@[x]) != 1,
        decreases n - start,
    {
        if colors[start] == 0 {
            let mut path: Vec<usize> = Vec::new();
            colors.set(start, 1);
            path.push(start);
            proof {
                assert(path@[0] == start);
                assert forall|x: int|
                    0 <= x < n && (#[trigger] colors@[x]) == 1 implies exists|i: int|
                    0 <= i < path@.len() && #[trigger] path@[i] == x as usize by {
                    assert(x == start as int);
                    assert(path@[0] == x as usize);
                }
            }
            let mut current: usize = start;
            let mut fuel: usize = n;
            while fuel > 0
                invariant
                    n == requests@.len(),
                    colors@.len() == n,
                    leader@.len() == n,
                    old(leader)@.len() == n,
                    current < n,
                    fuel <= n,
                    forall|i: int, j: int|
                        0 <= i < n && 0 <= j < n && i != j ==> (#[trigger] requests@[i]).0 != (
                        #[trigger] requests@[j]).0,
                    forall|p: int| 0 <= p < path@.len() ==> (#[trigger] path@[p]) < n,
                    forall|k2: int|
                        0 <= k2 < n ==> follow_edge_ok(requests@, k2, #[trigger] leader@[k2]),
                    forall|b: int|
                        0 <= b < broken@.len() ==> severed_edge_ok(requests@, #[trigger] broken@[b]),
                    forall|k2: int|
                        0 <= k2 < n ==> (#[trigger] leader@[k2]) == old(leader)@[k2]
                            || leader@[k2] is None,
                    forall|k2: int|
                        0 <= k2 < n && (#[trigger] old(leader)@[k2]) is Some && leader@[k2]
                            is None ==> severed_follower_listed(broken@, requests@[k2].0),
                    forall|k2: int|
                        0 <= k2 < n && severed_follower_listed(
                            broken@,
                            (#[trigger] requests@[k2]).0,
                        ) ==> leader@[k2] is None,
                    forall|b1: int, b2: int|
                        0 <= b1 < broken@.len() && 0 <= b2 < broken@.len() && b1 != b2 ==> (
                        #[trigger] broken@[b1]).0 != (#[trigger] broken@[b2]).0,
                    forall|b: int|
                        0 <= b < broken@.len() ==> severed_closes_cycle(
                            requests@,
                            old(leader)@,
                            #[trigger] broken@[b],
                        ),
                    path@.len() >= 1,
                    current == path@[path@.len() - 1],
                    path@.len() + fuel <= n + 1,
                    forall|i: int|
                        0 <= i < path@.len() - 1 ==> (#[trigger] leader@[path@[i] as int])
                            == Some(path@[i + 1]),
                    forall|i: int|
                        0 <= i < path@.len() ==> colors@[(#[trigger] path@[i]) as int] == 1,
                    forall|i: int, j: int|
                        0 <= i < path@.len() && 0 <= j < path@.len() && i != j ==> (
                        #[trigger] path@[i]) != (#[trigger] path@[j]),
                    forall|x: int|
                        0 <= x < n && (#[trigger] colors@[x]) == 1 ==> exists|i: int|
                            0 <= i < path@.len() && #[trigger] path@[i] == x as usize,
                decreases fuel,
            {
                let next: usize;
                match leader[current] {
                    Some(l) => {
                        next = l;
                    },
                    None => {
                        break ;
                    },
                }
                let color = colors[next];
                if color == 1 {
                    // the walk closed a cycle: sever the edge leading back
                    // into it
                    let ghost pre_broken = broken@;
                    let ghost pre_leader = leader@;
                    broken.push((requests[current].0, requests[next].0));
                    leader.set(current, None);
                    proof {
                        // the walked path carries the cycle: the revisited
                        // agent leads back to the severed follower
                        assert(colors@[next as int] == 1);
                        let j = choose|i: int|
                            0 <= i < path@.len() && #[trigger] path@[i] == (next as int) as usize;
                        lemma_path_leads(pre_leader, path@, j);
                        lemma_leads_to_fuel(
                            pre_leader,
                            next as int,
                            current as int,
                            (path@.len() - j) as nat,
                            (n + 1) as nat,
                        );
                        assert forall|k2: int|
                            0 <= k2 < pre_leader.len() implies ((#[trigger] pre_leader[k2])
                            matches Some(x) ==> old(leader)@[k2] == Some(x)) by {}
                        lemma_leads_to_weaken(
                            old(leader)@,
                            pre_leader,
                            next as int,
                            current as int,
                            (n + 1) as nat,
                        );
                        assert(old(leader)@[current as int] == Some(next));
                        assert(severed_closes_cycle(
                            requests@,
                            old(leader)@,
                            broken@[broken@.len() - 1],
                        )) by {
                            assert(0 <= current < requests@.len() && 0 <= next
                                < requests@.len() && requests@[current as int].0
                                == broken@[broken@.len() - 1].0 && requests@[next as int].0
                                == broken@[broken@.len() - 1].1 && (old(
                            leader)@[current as int] matches Some(x) && x as int == next as int)
                                && leads_to(
                                old(leader)@,
                                next as int,
                                current as int,
                                (requests@.len() + 1) as nat,
                            ));
                        }
                        assert forall|b: int|
                            0 <= b < broken@.len() implies severed_closes_cycle(
                            requests@,
                            old(leader)@,
                            #[trigger] broken@[b],
                        ) by {
                            if b < pre_broken.len() {
                                assert(broken@[b] == pre_broken[b]);
                            }
                        }
                        // severing the last walked agent's edge leaves the
                        // chain of the earlier ones intact
                        assert forall|i: int|
                            0 <= i < path@.len() - 1 implies (
                        #[trigger] leader@[path@[i] as int]) == Some(path@[i + 1]) by {
                            assert(path@[i] != path@[path@.len() - 1]);
                        }
                        assert forall|b: int|
                            0 <= b < broken@.len() implies severed_edge_ok(
                            requests@,
                            #[trigger] broken@[b],
                        ) by {
                            if b == broken@.len() - 1 {
                                assert(requests@[current as int].0 == broken@[b].0 && (
                                requests@[current as int].1.intent
                                    matches crate::request::MovementIntent::Follow {
                                    target,
                                    ..
                                } && target == broken@[b].1));
                            }
                        }
                        assert(broken@[broken@.len() - 1].0 == requests@[current as int].0);
                        assert forall|k2: int|
                            0 <= k2 < n && (#[trigger] old(leader)@[k2]) is Some && leader@[k2]
                                is None implies severed_follower_listed(
                            broken@,
                            requests@[k2].0,
                        ) by {
                            if k2 != current {
                                let b = choose|b: int|
                                    0 <= b < pre_broken.len() && (#[trigger] pre_broken[b]).0
                                        == requests@[k2].0;
                                assert(broken@[b] == pre_broken[b]);
                            }
                        }
                        // the severed follower's handle is new to the record:
                        // its edge was still in place a moment ago
                        assert(!severed_follower_listed(pre_broken, requests@[current as int].0));
                        assert forall|k2: int|
                            0 <= k2 < n && severed_follower_listed(
                                broken@,
                                (#[trigger] requests@[k2]).0,
                            ) implies leader@[k2] is None by {
                            if k2 != current {
                                assert(requests@[k2].0 != requests@[current as int].0);
                                let b = choose|b: int|
                                    0 <= b < broken@.len() && (#[trigger] broken@[b]).0
                                        == requests@[k2].0;
                                assert(b < pre_broken.len());
                                assert(pre_broken[b] == broken@[b]);
                            }
                        }
                        assert forall|b1: int, b2: int|
                            0 <= b1 < broken@.len() && 0 <= b2 < broken@.len() && b1
                                != b2 implies (#[trigger] broken@[b1]).0 != (
                        #[trigger] broken@[b2]).0 by {
                            if b1 == broken@.len() - 1 || b2 == broken@.len() - 1 {
                                assert(!severed_follower_listed(
                                    pre_broken,
                                    requests@[current as int].0,
                                ));
                            } else {
                                assert(broken@[b1] == pre_broken[b1]);
                                assert(broken@[b2] == pre_broken[b2]);
                            }
                        }
                    }
                    break ;
                }
                if color == 2 {
                    break ;
                }
                let ghost pre_path = path@;
                let ghost pre_colors = colors@;
                colors.set(next, 1);
                path.push(next);
                current = next;
                fuel = fuel - 1;
                proof {
                    // the stepped-onto agent was unvisited, so it is new to
                    // the path, and everything colored in-progress stays on
                    // the path
                    assert(path@[path@.len() - 1] == next);
                    assert forall|i: int, j: int|
                        0 <= i < path@.len() && 0 <= j < path@.len() && i != j implies (
                    #[trigger] path@[i]) != (#[trigger] path@[j]) by {
                        if i == path@.len() - 1 || j == path@.len() - 1 {
                            let o: int = if i == path@.len() - 1 {
                                j
                            } else {
                                i
                            };
                            if 0 <= o < pre_path.len() {
                                assert(path@[o] == pre_path[o]);
                                assert(pre_colors[pre_path[o] as int] == 1);
                            }
                        } else {
                            assert(path@[i] == pre_path[i]);
                            assert(path@[j] == pre_path[j]);
                        }
                    }
                    assert forall|x: int|
                        0 <= x < n && (#[trigger] colors@[x]) == 1 implies exists|i: int|
                        0 <= i < path@.len() && #[trigger] path@[i] == x as usize by {
                        if x == next as int {
                            assert(path@[path@.len() - 1] == x as usize);
                        } else {
                            assert(pre_colors[x] == 1);
                            let i = choose|i: int|
                                0 <= i < pre_path.len() && #[trigger] pre_path[i] == x as usize;
                            assert(path@[i] == pre_path[i]);
                        }
                    }
                }
            }
            // everything on the walked path is fully processed
            let mut p: usize = 0;
            while p < path.len()
                invariant
                    colors@.len() == n,
                    p <= path@.len(),
                    forall|q: int| 0 <= q < path@.len() ==> (#[trigger] path@[q]) < n,
                    forall|i: int, j: int|
                        0 <= i < path@.len() && 0 <= j < path@.len() && i != j ==> (
                        #[trigger] path@[i]) != (#[trigger] path@[j]),
                    forall|q: int| 0 <= q < p ==> colors@[(#[trigger] path@[q]) as int] == 2,
                    forall|x: int|
                        0 <= x < n && (#[trigger] colors@[x]) == 1 ==> exists|i: int|
                            p <= i < path@.len() && #[trigger] path@[i] == x as usize,
                decreases path.len() - p,
            {
                let ghost pre_colors = colors@;
                let here = path[p];
                colors.set(here, 2);
                p = p + 1;
                proof {
                    assert forall|x: int|
                        0 <= x < n && (#[trigger] colors@[x]) == 1 implies exists|i: int|
                        p <= i < path@.len() && #[trigger] path@[i] == x as usize by {
                        assert(pre_colors[x] == 1);
                        let i = choose|i: int|
                            p - 1 <= i < path@.len() && #[trigger] path@[i] == x as usize;
                        assert(x != here as int);
                        assert(i != p - 1);
                    }
                }
            }
            proof {
                assert forall|x: int| 0 <= x < n implies (#[trigger] colors@[x]) != 1 by {
                    if colors@[x] == 1 {
                        let i = choose|i: int|
                            path@.len() <= i < path@.len() && #[trigger] path@[i] == x as usize;
                    }
                }
            }
        }
        start = start + 1;
    }
    broken
}

/// Layered extraction over the (now acyclic) follow edges: an agent comes
/// out once its leader has, so every surviving edge places the leader before
/// its follower in the output. Any residue (a defensive fallback, not a
/// normal path) has its edge severed and recorded, then is appended in input
/// order. Every agent appears exactly once in the result.
fn extract_follow_order(
    requests: &Vec<(u64, crate::request::MovementRequest)>,
    leader: &mut Vec<Option<usize>>,
) -> (r: (Vec<u64>, Vec<(u64, u64)>))
    requires
        old(leader)@.len() == requests@.len(),
        forall|k: int|
            0 <= k < requests@.len() ==> follow_edge_ok(requests@, k, #[trigger] old(leader)@[k]),
        forall|i: int, j: int|
            0 <= i < requests@.len() && 0 <= j < requests@.len() && i != j ==> (
            #[trigger] requests@[i]).0 != (#[trigger] requests@[j]).0,
    ensures
        follow_order_ok(requests@, r.0@),
        final(leader)@.len() == requests@.len(),
        forall|k: int|
            0 <= k < requests@.len() ==> ((#[trigger] final(leader)@[k]) matches Some(l)
                ==> precedes(r.0@, requests@[l as int].0, requests@[k].0)),
        forall|k: int|
            0 <= k < requests@.len() ==> (#[trigger] final(leader)@[k]) == old(leader)@[k]
                || final(leader)@[k] is None,
        forall|k: int|
            0 <= k < requests@.len() && (#[trigger] old(leader)@[k]) is Some && final(
                leader)@[k] is None ==> severed_follower_listed(r.1@, requests@[k].0),
        forall|b: int| 0 <= b < r.1@.len() ==> severed_edge_ok(requests@, #[trigger] r.1@[b]),
        forall|k: int|
            0 <= k < requests@.len() && severed_follower_listed(r.1@, (
            #[trigger] requests@[k]).0) ==> old(leader)@[k] is Some && final(leader)@[k] is None,
        forall|b1: int, b2: int|
            0 <= b1 < r.1@.len() && 0 <= b2 < r.1@.len() && b1 != b2 ==> (#[trigger] r.1@[b1]).0
                != (#[trigger] r.1@[b2]).0,
{
    let n = requests.len();
    let mut severed: Vec<(u64, u64)> = Vec::new();
    let mut done: Vec<bool> = Vec::new();
    let mut k3: usize = 0;
    while k3 < n
        invariant
            k3 <= n,
            done@.len() == k3,
            forall|q: int| 0 <= q < k3 ==> !(#[trigger] done@[q]),
        decreases n - k3,
    {
        done.push(false);
        k3 = k3 + 1;
    }
    let mut sorted: Vec<u64> = Vec::new();
    let ghost mut order: Seq<int> = Seq::empty();
    let mut rounds: usize = 0;
    while rounds < n
        invariant
            n == requests@.len(),
            n == leader@.len(),
            done@.len() == n,
            extraction_inv(requests@, done@, sorted@, order),
            extraction_ordered(leader@, order),
            forall|k: int|
                0 <= k < n ==> follow_edge_ok(requests@, k, #[trigger] leader@[k]),
            leader@ == old(leader)@,
            severed@.len() == 0,
        decreases n - rounds,
    {
        let mut progressed = false;
        let mut r2: usize = 0;
        while r2 < n
            invariant
                n == requests@.len(),
                n == leader@.len(),
                done@.len() == n,
                r2 <= n,
                extraction_inv(requests@, done@, sorted@, order),
                extraction_ordered(leader@, order),
                forall|k: int|
                    0 <= k < n ==> follow_edge_ok(requests@, k, #[trigger] leader@[k]),
                leader@ == old(leader)@,
                severed@.len() == 0,
            decreases n - r2,
        {
            if !done[r2] {
                let ready = match leader[r2] {
                    None => true,
                    Some(l) => l < n && done[l],
                };
                if ready {
                    let ghost prev = order;
                    let ghost done_pre = done@;
                    done.set(r2, true);
                    sorted.push(requests[r2].0);
                    proof {
                        order = order.push(r2 as int);
                        lemma_extraction_step(requests@, done@, sorted@, prev, r2 as int);
                        assert forall|q: int|
                            0 <= q < order.len() implies ((#[trigger] leader@[order[q]])
                            matches Some(l2) ==> exists|q2: int|
                            0 <= q2 < q && order[q2] == l2) by {
                            if q < prev.len() {
                                assert(order[q] == prev[q]);
                                match leader@[prev[q]] {
                                    Some(l2) => {
                                        // the earlier placement still stands
                                        let q2 = choose|q2: int|
                                            0 <= q2 < q && prev[q2] == l2;
                                        assert(order[q2] == prev[q2]);
                                    },
                                    None => {},
                                }
                            } else {
                                assert(order[q] == r2 as int);
                                match leader@[r2 as int] {
                                    Some(l2) => {
                                        // readiness means the leader was
                                        // already placed
                                        assert(done_pre[l2 as int]);
                                        let q2 = choose|q2: int|
                                            0 <= q2 < prev.len() && prev[q2] == l2 as int;
                                        assert(order[q2] == prev[q2]);
                                    },
                                    None => {},
                                }
                            }
                        }
                    }
                    progressed = true;
                }
            }
            r2 = r2 + 1;
        }
        if !progressed {
            break ;
        }
        rounds = rounds + 1;
    }
    // defensive fallback: anything still unplaced has its edge severed and
    // recorded, then joins in input order
    let mut r3: usize = 0;
    while r3 < n
        invariant
            n == requests@.len(),
            n == leader@.len(),
            done@.len() == n,
            r3 <= n,
            extraction_inv(requests@, done@, sorted@, order),
            extraction_ordered(leader@, order),
            forall|k: int|
                0 <= k < n ==> follow_edge_ok(requests@, k, #[trigger] leader@[k]),
            forall|k: int|
                0 <= k < n ==> (#[trigger] leader@[k]) == old(leader)@[k] || leader@[k] is None,
            forall|k: int|
                0 <= k < n && (#[trigger] old(leader)@[k]) is Some && leader@[k]
                    is None ==> severed_follower_listed(severed@, requests@[k].0),
            forall|b: int|
                0 <= b < severed@.len() ==> severed_edge_ok(requests@, #[trigger] severed@[b]),
            forall|k: int|
                0 <= k < n && severed_follower_listed(severed@, (#[trigger] requests@[k]).0)
                    ==> old(leader)@[k] is Some && leader@[k] is None,
            forall|b1: int, b2: int|
                0 <= b1 < severed@.len() && 0 <= b2 < severed@.len() && b1 != b2 ==> (
                #[trigger] severed@[b1]).0 != (#[trigger] severed@[b2]).0,
            forall|i: int, j: int|
                0 <= i < n && 0 <= j < n && i != j ==> (#[trigger] requests@[i]).0 != (
                #[trigger] requests@[j]).0,
            forall|k2: int| 0 <= k2 < r3 ==> #[trigger] done@[k2],
        decreases n - r3,
    {
        if !done[r3] {
            match leader[r3] {
                Some(l) => {
                    let ghost pre_severed = severed@;
                    let ghost pre_leader = leader@;
                    severed.push((requests[r3].0, requests[l].0));
                    leader.set(r3, None);
                    proof {
                        assert forall|b: int|
                            0 <= b < severed@.len() implies severed_edge_ok(
                            requests@,
                            #[trigger] severed@[b],
                        ) by {
                            if b == severed@.len() - 1 {
                                assert(requests@[r3 as int].0 == severed@[b].0 && (
                                requests@[r3 as int].1.intent
                                    matches crate::request::MovementIntent::Follow {
                                    target,
                                    ..
                                } && target == severed@[b].1));
                            } else {
                                assert(severed@[b] == pre_severed[b]);
                            }
                        }
                        assert(severed@[severed@.len() - 1].0 == requests@[r3 as int].0);
                        assert forall|k: int|
                            0 <= k < n && (#[trigger] old(leader)@[k]) is Some && leader@[k]
                                is None implies severed_follower_listed(
                            severed@,
                            requests@[k].0,
                        ) by {
                            if k != r3 && pre_leader[k] is None {
                                let b = choose|b: int|
                                    0 <= b < pre_severed.len() && (#[trigger] pre_severed[b]).0
                                        == requests@[k].0;
                                assert(severed@[b] == pre_severed[b]);
                            }
                        }
                        // this follower's handle is new to the record: its
                        // edge was still in place a moment ago
                        assert(!severed_follower_listed(pre_severed, requests@[r3 as int].0));
                        assert forall|k: int|
                            0 <= k < n && severed_follower_listed(
                                severed@,
                                (#[trigger] requests@[k]).0,
                            ) implies old(leader)@[k] is Some && leader@[k] is None by {
                            if k != r3 {
                                assert(requests@[k].0 != requests@[r3 as int].0);
                                let b = choose|b: int|
                                    0 <= b < severed@.len() && (#[trigger] severed@[b]).0
                                        == requests@[k].0;
                                assert(b < pre_severed.len());
                                assert(pre_severed[b] == severed@[b]);
                            } else {
                                // this follower's edge was still in place, so
                                // it was in place at entry too
                                assert(pre_leader[r3 as int] is Some);
                            }
                        }
                        assert forall|b1: int, b2: int|
                            0 <= b1 < severed@.len() && 0 <= b2 < severed@.len() && b1
                                != b2 implies (#[trigger] severed@[b1]).0 != (
                        #[trigger] severed@[b2]).0 by {
                            if b1 == severed@.len() - 1 || b2 == severed@.len() - 1 {
                                assert(!severed_follower_listed(
                                    pre_severed,
                                    requests@[r3 as int].0,
                                ));
                            } else {
                                assert(severed@[b1] == pre_severed[b1]);
                                assert(severed@[b2] == pre_severed[b2]);
                            }
                        }
                        assert forall|q: int|
                            0 <= q < order.len() implies ((#[trigger] leader@[order[q]])
                            matches Some(l2) ==> exists|q2: int|
                            0 <= q2 < q && order[q2] == l2) by {
                            assert(done@[order[q]]);
                            assert(order[q] != r3);
                            assert(leader@[order[q]] == pre_leader[order[q]]);
                        }
                    }
                },
                None => {},
            }
            let ghost prev = order;
            done.set(r3, true);
            sorted.push(requests[r3].0);
            proof {
                order = order.push(r3 as int);
                lemma_extraction_step(requests@, done@, sorted@, prev, r3 as int);
                assert forall|q: int|
                    0 <= q < order.len() implies ((#[trigger] leader@[order[q]]) matches Some(l2)
                    ==> exists|q2: int| 0 <= q2 < q && order[q2] == l2) by {
                    if q < prev.len() {
                        assert(order[q] == prev[q]);
                        match leader@[prev[q]] {
                            Some(l2) => {
                                let q2 = choose|q2: int| 0 <= q2 < q && prev[q2] == l2;
                                assert(order[q2] == prev[q2]);
                            },
                            None => {},
                        }
                    } else {
                        assert(order[q] == r3 as int);
                        assert(leader@[r3 as int] is None);
                    }
                }
            }
        }
        r3 = r3 + 1;
    }
    proof {
        assert forall|i: int, j: int|
            0 <= i < sorted@.len() && 0 <= j < sorted@.len() && i != j implies (
        #[trigger] sorted@[i]) != (#[trigger] sorted@[j]) by {
            assert(requests@[order[i]].0 != requests@[order[j]].0);
        }
        assert forall|i: int| 0 <= i < sorted@.len() implies appears_as_request(
            requests@,
            #[trigger] sorted@[i],
        ) by {
            let w = order[i];
            assert(0 <= w < requests@.len() && requests@[w].0 == sorted@[i]);
        }
        assert forall|k: int| 0 <= k < requests@.len() implies listed_in_order(
            sorted@,
            (#[trigger] requests@[k]).0,
        ) by {
            assert(done@[k]);
            let q = choose|q: int| 0 <= q < order.len() && order[q] == k;
            assert(sorted@[q] == requests@[k].0);
        }
        assert(follow_order_ok(requests@, sorted@));
        assert forall|k: int|
            0 <= k < requests@.len() implies ((#[trigger] leader@[k]) matches Some(l) ==> precedes(
            sorted@,
            requests@[l as int].0,
            requests@[k].0,
        )) by {
            match leader@[k] {
                Some(l) => {
                    assert(done@[k]);
                    let qk = choose|q: int| 0 <= q < order.len() && order[q] == k;
                    assert(leader@[order[qk]] matches Some(l2) && l2 == l);
                    let q2 = choose|q2: int| 0 <= q2 < qk && order[q2] == l as int;
                    assert(sorted@[q2] == requests@[l as int].0);
                    assert(sorted@[qk] == requests@[k].0);
                },
                None => {},
            }
        }
    }
    (sorted, severed)
}

/// The extraction order respects the edge map: whenever a placed agent still
/// has a leader edge, that leader was placed earlier.
pub open spec fn extraction_ordered(leader: Seq<Option<usize>>, order: Seq<int>) -> bool {
    forall|q: int|
        0 <= q < order.len() ==> ((#[trigger] leader[order[q]]) matches Some(l) ==> exists|
            q2: int,
        |
            0 <= q2 < q && order[q2] == l)
}

/// Bookkeeping of layered extraction: `order` records which request index
/// each output entry came from; indices are valid, marked done, and used at
/// most once, and every done index has been output.
pub open spec fn extraction_inv(
    requests: Seq<(u64, crate::request::MovementRequest)>,
    done: Seq<bool>,
    sorted: Seq<u64>,
    order: Seq<int>,
) -> bool {
    &&& order.len() == sorted.len()
    &&& forall|q: int|
        0 <= q < order.len() ==> 0 <= #[trigger] order[q] < requests.len() && done[order[q]]
            && sorted[q] == requests[order[q]].0
    &&& forall|q: int, q2: int|
        0 <= q < order.len() && 0 <= q2 < order.len() && q != q2 ==> #[trigger] order[q]
            != #[trigger] order[q2]
    &&& forall|k: int|
        0 <= k < requests.len() && #[trigger] done[k] ==> exists|q: int|
            0 <= q < order.len() && order[q] == k
}

/// Marking one more index done and appending its entry preserves the
/// extraction bookkeeping.
proof fn lemma_extraction_step(
    requests: Seq<(u64, crate::request::MovementRequest)>,
    done: Seq<bool>,
    sorted: Seq<u64>,
    prev: Seq<int>,
    r: int,
)
    requires
        0 <= r < requests.len(),
        done.len() == requests.len(),
        sorted.len() > 0,
        done[r],
        sorted[sorted.len() - 1] == requests[r].0,
        extraction_inv(requests, done.update(r, false), sorted.drop_last(), prev),
        forall|k: int| 0 <= k < done.len() && k != r ==> done[k] == done.update(r, false)[k],
    ensures
        extraction_inv(requests, done, sorted, prev.push(r)),
{
    let order = prev.push(r);
    assert forall|q: int|
        0 <= q < order.len() implies 0 <= #[trigger] order[q] < requests.len() && done[order[q]]
        && sorted[q] == requests[order[q]].0 by {
        if q < prev.len() {
            assert(order[q] == prev[q]);
            assert(!done.update(r, false)[r]);
            assert(prev[q] != r);
            assert(done[prev[q]] == done.update(r, false)[prev[q]]);
            assert(sorted.drop_last()[q] == sorted[q]);
        }
    }
    assert forall|k: int|
        0 <= k < requests.len() && #[trigger] done[k] implies exists|q: int|
        0 <= q < order.len() && order[q] == k by {
        if k == r {
            assert(order[order.len() - 1] == r);
        } else {
            assert(done.update(r, false)[k]);
            let q = choose|q: int| 0 <= q < prev.len() && prev[q] == k;
            assert(order[q] == k);
        }
    }
}

/// Orders agents so leaders come before their followers, breaking follow
/// cycles first.
///
/// Follow intents form a follower-to-leader edge map. Cycles are severed
/// first (see [`sever_follow_cycles`], which guarantees each recorded cut
/// closed a genuine cycle); the remaining acyclic graph is sorted by layered
/// extraction, whose defensive fallback severs and records any residual
/// edges so the ordering guarantee is unconditional.
///
/// The returned order holds every requesting agent exactly once — none is
/// omitted, none repeated, and the sort always terminates; every recorded
/// severed edge was a follow edge of the input, each follower is cut at most
/// once, and every surviving edge places the leader before its follower.
pub fn topological_sort_follows(requests: &Vec<(u64, crate::request::MovementRequest)>) -> (r: (
    Vec<u64>,
    Vec<(u64, u64)>,
))
    requires
        forall|i: int, j: int|
            0 <= i < requests@.len() && 0 <= j < requests@.len() && i != j ==> (
            #[trigger] requests@[i]).0 != (#[trigger] requests@[j]).0,
    ensures
        follow_order_ok(requests@, r.0@),
        forall|b: int| 0 <= b < r.1@.len() ==> severed_edge_ok(requests@, #[trigger] r.1@[b]),
        forall|f: int, l: int|
            0 <= f < requests@.len() && 0 <= l < requests@.len() && ((
            #[trigger] requests@[f]).1.intent matches crate::request::MovementIntent::Follow {
                target,
                ..
            } && (#[trigger] requests@[l]).0 == target) && !severed_follower_listed(
                r.1@,
                requests@[f].0,
            ) ==> precedes(r.0@, requests@[l].0, requests@[f].0),
        forall|b1: int, b2: int|
            0 <= b1 < r.1@.len() && 0 <= b2 < r.1@.len() && b1 != b2 ==> (#[trigger] r.1@[b1]).0
                != (#[trigger] r.1@[b2]).0,
{
    let mut leader = build_follow_edges(requests);
    let ghost leader0 = leader@;
    let mut broken = sever_follow_cycles(requests, &mut leader);
    let ghost leader1 = leader@;
    let ghost broken1 = broken@;
    let (sorted, mut residue) = extract_follow_order(requests, &mut leader);
    let ghost residue0 = residue@;
    broken.append(&mut residue);
    proof {
        assert forall|f: int, l: int|
            0 <= f < requests@.len() && 0 <= l < requests@.len() && ((
        #[trigger] requests@[f]).1.intent matches crate::request::MovementIntent::Follow {
            target,
            ..
        } && (#[trigger] requests@[l]).0 == target) && !severed_follower_listed(
            broken@,
            requests@[f].0,
        ) implies precedes(sorted@, requests@[l].0, requests@[f].0) by {
            // the edge exists after building, with the leader pinned down by
            // the uniqueness of handles
            assert(appears_as_request(requests@, requests@[l].0));
            assert(leader0[f] is Some);
            assert(follow_edge_ok(requests@, f, leader0[f]));
            let l2 = leader0[f]->0;
            assert(requests@[l2 as int].0 == requests@[l].0);
            assert(l2 as int == l);
            // a follower listed in neither part of the severed record kept
            // its edge through both passes
            assert(!severed_follower_listed(broken1, requests@[f].0)) by {
                if severed_follower_listed(broken1, requests@[f].0) {
                    let b = choose|b: int|
                        0 <= b < broken1.len() && (#[trigger] broken1[b]).0 == requests@[f].0;
                    assert(broken@[b] == broken1[b]);
                }
            }
            assert(!severed_follower_listed(residue0, requests@[f].0)) by {
                if severed_follower_listed(residue0, requests@[f].0) {
                    let b = choose|b: int|
                        0 <= b < residue0.len() && (#[trigger] residue0[b]).0 == requests@[f].0;
                    assert(broken@[broken1.len() + b] == residue0[b]);
                }
            }
            assert(leader1[f] == leader0[f]);
            assert(leader@[f] == leader1[f]);
            assert(leader@[f] matches Some(lf) && lf as int == l);
        }
        // each follower's edge is severed at most once across both passes:
        // the first pass leaves a severed follower's edge gone, and the
        // second severs only edges still in place
        assert forall|b1: int, b2: int|
            0 <= b1 < broken@.len() && 0 <= b2 < broken@.len() && b1 != b2 implies (
        #[trigger] broken@[b1]).0 != (#[trigger] broken@[b2]).0 by {
            if b1 < broken1.len() && b2 < broken1.len() {
                assert(broken@[b1] == broken1[b1]);
                assert(broken@[b2] == broken1[b2]);
            } else if b1 >= broken1.len() && b2 >= broken1.len() {
                assert(broken@[b1] == residue0[b1 - broken1.len()]);
                assert(broken@[b2] == residue0[b2 - broken1.len()]);
            } else {
                let bs: int = if b1 < broken1.len() {
                    b1
                } else {
                    b2
                };
                let br: int = if b1 < broken1.len() {
                    b2
                } else {
                    b1
                };
                assert(broken@[bs] == broken1[bs]);
                assert(broken@[br] == residue0[br - broken1.len()]);
                if broken1[bs].0 == residue0[br - broken1.len()].0 {
                    assert(severed_edge_ok(requests@, broken1[bs]));
                    let k1 = choose|k: int|
                        0 <= k < requests@.len() && (#[trigger] requests@[k]).0 == broken1[bs].0
                            && (requests@[k].1.intent
                            matches crate::request::MovementIntent::Follow { target, .. } && target
                            == broken1[bs].1);
                    assert(severed_follower_listed(broken1, requests@[k1].0));
                    assert(leader1[k1] is None);
                    assert(severed_edge_ok(requests@, residue0[br - broken1.len()]));
                    let k2 = choose|k: int|
                        0 <= k < requests@.len() && (#[trigger] requests@[k]).0 == residue0[br
                            - broken1.len()].0 && (requests@[k].1.intent
                            matches crate::request::MovementIntent::Follow { target, .. } && target
                            == residue0[br - broken1.len()].1);
                    assert(severed_follower_listed(residue0, requests@[k2].0));
                    assert(leader1[k2] is Some);
                    assert(k1 == k2);
                    assert(false);
                }
            }
        }
    }
    (sorted, broken)
}


/// Anchor containment: however an agent came to move — granted its desired
/// tile, shoved aside, or swapped — a resolved agent that leaves its tile
/// ends the tick within its anchor radius of the anchor point.
pub proof fn lemma_anchor_containment(creeps: Seq<ResolvedCreep>, idle: Seq<Position>, i: int)
    requires
        resolution_inv(creeps, idle),
        0 <= i < creeps.len(),
        creeps[i].final_pos != creeps[i].current_pos,
    ensures
        creeps[i].anchor matches Some(a) ==> creeps[i].final_pos.spec_range_to(a.position)
            <= a.range,
{
    assert(anchored_ok(creeps[i], creeps[i].final_pos));
}

} // verus!
