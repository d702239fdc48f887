//! A per-tick movement resolution engine for grid-bound agents ("creeps")
//! sharing a common map of 50x50 rooms.
//!
//! The engine turns each agent's movement intent into a single conflict-free
//! tile transition per tick: it caches layered traversal costs per room,
//! reuses and trims cached paths, detects stuck agents and escalates recovery,
//! and arbitrates tile contention with swaps, bounded shove chains and
//! follow-dependency ordering.

pub mod costcache;
pub mod costmatrix;
pub mod movementsystem;
pub mod pathstate;
pub mod position;
pub mod request;
pub mod resolver;
pub mod result;
pub mod traits;
pub mod utility;
