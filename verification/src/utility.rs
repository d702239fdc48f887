//! Room accessibility policy.

use vstd::prelude::*;

verus! {

/// Accessibility status of a room, as the host map reports it.
#[derive(Copy, Clone, Debug, PartialEq, Eq, Structural)]
pub enum RoomStatus {
    Normal,
    Closed,
    Novice,
    Respawn,
}

/// Whether an agent may cross from a room with status `from` into one with
/// status `to`: closed rooms never, and the novice and respawn areas only
/// from rooms of the same status.
pub fn can_traverse_between_room_status(from: RoomStatus, to: RoomStatus) -> (r: bool)
    ensures
        r == spec_can_traverse_between_room_status(from, to),
{
    match to {
        RoomStatus::Normal => from == RoomStatus::Normal,
        RoomStatus::Closed => false,
        RoomStatus::Novice => from == RoomStatus::Novice,
        RoomStatus::Respawn => from == RoomStatus::Respawn,
    }
}

pub open spec fn spec_can_traverse_between_room_status(from: RoomStatus, to: RoomStatus) -> bool {
    match to {
        RoomStatus::Normal => from == RoomStatus::Normal,
        RoomStatus::Closed => false,
        RoomStatus::Novice => from == RoomStatus::Novice,
        RoomStatus::Respawn => from == RoomStatus::Respawn,
    }
}

} // verus!
