//! Tiles, rooms and directions.
//!
//! The map is a grid of named rooms; each room is a 50x50 grid of tiles.
//! A room's name is a pair of signed grid coordinates, so that positions in
//! different rooms can be compared through world coordinates.

use vstd::prelude::*;

verus! {

/// Width and height of a room, in tiles.
pub const ROOM_SIZE: u8 = 50;

/// A named room: a fixed-size subdivision of the world map.
#[derive(Copy, Clone, Debug, PartialEq, Eq, Structural, Hash)]
pub struct RoomName {
    /// Horizontal room grid coordinate.
    pub x: i16,
    /// Vertical room grid coordinate.
    pub y: i16,
}

/// A tile on the map: a room plus in-room coordinates, each below `ROOM_SIZE`.
#[derive(Copy, Clone, Debug, PartialEq, Eq, Structural, Hash)]
pub struct Position {
    pub room: RoomName,
    pub x: u8,
    pub y: u8,
}

/// One of the eight movement directions between adjacent tiles.
#[derive(Copy, Clone, Debug, PartialEq, Eq, Structural)]
pub enum Direction {
    Top,
    TopRight,
    Right,
    BottomRight,
    Bottom,
    BottomLeft,
    Left,
    TopLeft,
}

impl Position {
    /// A position is valid when its in-room coordinates lie inside the room.
    pub open spec fn is_valid(self) -> bool {
        self.x < ROOM_SIZE && self.y < ROOM_SIZE
    }

    /// Horizontal world coordinate: rooms are laid out edge to edge.
    pub open spec fn world_x(self) -> int {
        self.room.x * (ROOM_SIZE as int) + self.x
    }

    /// Vertical world coordinate.
    pub open spec fn world_y(self) -> int {
        self.room.y * (ROOM_SIZE as int) + self.y
    }

    /// Chebyshev distance between two tiles in world coordinates: the number
    /// of single-tile steps (diagonals allowed) needed to go from one to the
    /// other.
    pub open spec fn spec_range_to(self, other: Position) -> int {
        max_int(abs_int(self.world_x() - other.world_x()), abs_int(self.world_y() - other.world_y()))
    }

    pub fn new(room: RoomName, x: u8, y: u8) -> (p: Position)
        requires
            x < ROOM_SIZE,
            y < ROOM_SIZE,
        ensures
            p == (Position { room, x, y }),
            p.is_valid(),
    {
        Position { room, x, y }
    }

    /// Chebyshev distance to another tile.
    pub fn get_range_to(self, other: Position) -> (r: u32)
        ensures
            r == self.spec_range_to(other),
    {
        let sx: i64 = self.room.x as i64 * 50 + self.x as i64;
        let sy: i64 = self.room.y as i64 * 50 + self.y as i64;
        let ox: i64 = other.room.x as i64 * 50 + other.x as i64;
        let oy: i64 = other.room.y as i64 * 50 + other.y as i64;
        let dx: i64 = if sx >= ox { sx - ox } else { ox - sx };
        let dy: i64 = if sy >= oy { sy - oy } else { oy - sy };
        let m: i64 = if dx >= dy { dx } else { dy };
        m as u32
    }

    /// The direction of the single step from this tile onto an adjacent tile,
    /// or `None` when `other` is not exactly one step away.
    pub fn get_direction_to(self, other: Position) -> (d: Option<Direction>)
        ensures
            match d {
                Some(dir) => {
                    &&& self.spec_range_to(other) == 1
                    &&& other.world_x() - self.world_x() == dir.spec_offset().0
                    &&& other.world_y() - self.world_y() == dir.spec_offset().1
                },
                None => self.spec_range_to(other) != 1,
            },
    {
        let sx: i64 = self.room.x as i64 * 50 + self.x as i64;
        let sy: i64 = self.room.y as i64 * 50 + self.y as i64;
        let ox: i64 = other.room.x as i64 * 50 + other.x as i64;
        let oy: i64 = other.room.y as i64 * 50 + other.y as i64;
        let dx: i64 = ox - sx;
        let dy: i64 = oy - sy;
        match (dx, dy) {
            (0, -1) => Some(Direction::Top),
            (1, -1) => Some(Direction::TopRight),
            (1, 0) => Some(Direction::Right),
            (1, 1) => Some(Direction::BottomRight),
            (0, 1) => Some(Direction::Bottom),
            (-1, 1) => Some(Direction::BottomLeft),
            (-1, 0) => Some(Direction::Left),
            (-1, -1) => Some(Direction::TopLeft),
            _ => None,
        }
    }
}

pub open spec fn abs_int(x: int) -> int {
    if x >= 0 {
        x
    } else {
        -x
    }
}

pub open spec fn max_int(x: int, y: int) -> int {
    if x >= y {
        x
    } else {
        y
    }
}

impl Direction {
    /// The tile offset of one step in this direction, in spec form.
    pub open spec fn spec_offset(self) -> (int, int) {
        match self {
            Direction::Top => (0int, -1int),
            Direction::TopRight => (1int, -1int),
            Direction::Right => (1int, 0int),
            Direction::BottomRight => (1int, 1int),
            Direction::Bottom => (0int, 1int),
            Direction::BottomLeft => (-1int, 1int),
            Direction::Left => (-1int, 0int),
            Direction::TopLeft => (-1int, -1int),
        }
    }

    /// The tile offset of one step in this direction.
    pub fn into_offset(self) -> (o: (i32, i32))
        ensures
            o.0 == self.spec_offset().0,
            o.1 == self.spec_offset().1,
    {
        match self {
            Direction::Top => (0, -1),
            Direction::TopRight => (1, -1),
            Direction::Right => (1, 0),
            Direction::BottomRight => (1, 1),
            Direction::Bottom => (0, 1),
            Direction::BottomLeft => (-1, 1),
            Direction::Left => (-1, 0),
            Direction::TopLeft => (-1, -1),
        }
    }

    /// The direction at a given index, in the fixed scan order used when
    /// looking for a free neighboring tile.
    pub fn from_index(index: u8) -> (d: Direction)
        requires
            index < 8,
        ensures
            d == Direction::spec_from_index(index as int),
    {
        match index {
            0 => Direction::Top,
            1 => Direction::TopRight,
            2 => Direction::Right,
            3 => Direction::BottomRight,
            4 => Direction::Bottom,
            5 => Direction::BottomLeft,
            6 => Direction::Left,
            _ => Direction::TopLeft,
        }
    }

    pub open spec fn spec_from_index(index: int) -> Direction {
        if index == 0 {
            Direction::Top
        } else if index == 1 {
            Direction::TopRight
        } else if index == 2 {
            Direction::Right
        } else if index == 3 {
            Direction::BottomRight
        } else if index == 4 {
            Direction::Bottom
        } else if index == 5 {
            Direction::BottomLeft
        } else if index == 6 {
            Direction::Left
        } else {
            Direction::TopLeft
        }
    }
}

} // verus!
