//! Grid positions, movement directions and the wrap-around rule.

use vstd::prelude::*;

verus! {

/// A cell of the fixed rectangular grid, compared by value.
#[derive(Clone, Copy, Debug, PartialEq, Eq, Structural)]
pub struct Position {
    pub x: i16,
    pub y: i16,
}

impl Position {
    pub fn new(x: i16, y: i16) -> (p: Position)
        ensures
            p.x == x,
            p.y == y,
    {
        Position { x, y }
    }
}

/// True when `p` lies on the `width` by `height` grid.
pub open spec fn pos_in_bounds(p: Position, width: i16, height: i16) -> bool {
    &&& 0 <= p.x < width
    &&& 0 <= p.y < height
}

/// The movement direction requested by the player.  `Direction::Still`
/// is the initial pre-game state and means "no movement attempted".
#[derive(Clone, Copy, Debug, PartialEq, Eq, Structural)]
pub enum Direction {
    Still,
    Up,
    Down,
    Left,
    Right,
}

/// The reversal guard: a committed direction `cur` admits a request
/// `next` unless `next` is the exact opposite of `cur`.  An uncommitted
/// (`Still`) direction admits everything.
pub open spec fn spec_allowed(cur: Direction, next: Direction) -> bool {
    match cur {
        Direction::Still => true,
        Direction::Up => next != Direction::Down,
        Direction::Down => next != Direction::Up,
        Direction::Left => next != Direction::Right,
        Direction::Right => next != Direction::Left,
    }
}

impl Direction {
    /// Decides whether a requested direction change is legal under the
    /// reversal guard, `self` being the last committed direction.
    pub fn new_direction_allowed(&self, new_dir: Direction) -> (r: bool)
        ensures
            r == spec_allowed(*self, new_dir),
    {
        match self {
            Direction::Still => true,
            Direction::Up => !matches!(new_dir, Direction::Down),
            Direction::Down => !matches!(new_dir, Direction::Up),
            Direction::Left => !matches!(new_dir, Direction::Right),
            Direction::Right => !matches!(new_dir, Direction::Left),
        }
    }
}

/// The candidate head cell one step from `p` in direction `d`, before
/// any boundary handling.  `Direction::Still` moves nowhere.
pub open spec fn spec_step(p: Position, d: Direction) -> Position {
    match d {
        Direction::Still => p,
        Direction::Up => Position { x: p.x, y: (p.y - 1) as i16 },
        Direction::Down => Position { x: p.x, y: (p.y + 1) as i16 },
        Direction::Left => Position { x: (p.x - 1) as i16, y: p.y },
        Direction::Right => Position { x: (p.x + 1) as i16, y: p.y },
    }
}

/// Wrap-around: a coordinate that crossed an edge re-enters at the
/// opposite edge; in-bounds coordinates are unchanged.
pub open spec fn spec_wrap(p: Position, width: i16, height: i16) -> Position {
    Position {
        x: if p.x < 0 {
            (width - 1) as i16
        } else if p.x >= width {
            0
        } else {
            p.x
        },
        y: if p.y < 0 {
            (height - 1) as i16
        } else if p.y >= height {
            0
        } else {
            p.y
        },
    }
}

} // verus!
