//! Cells of the discrete grid and the extent of the arena.

use vstd::prelude::*;
use crate::direction::Direction;

verus! {

/// Number of columns of the arena.
pub const ARENA_WIDTH: u32 = 10;

/// Number of rows of the arena.
pub const ARENA_HEIGHT: u32 = 10;

/// Milliseconds between two movement ticks.
pub const MOVEMENT_TICK_MS: u64 = 150;

/// Milliseconds between two food spawns.
pub const FOOD_SPAWN_MS: u64 = 1000;

/// A cell of the grid. Two positions are equal when both coordinates are.
/// Nothing confines a position to the arena: the snake may leave it.
#[derive(Clone, Copy, Debug, PartialEq, Eq, Structural)]
pub struct Position {
    pub x: i32,
    pub y: i32,
}

impl Position {
    /// Whether the cell one step away in heading `d` still has coordinates
    /// that the machine integers can hold.
    pub open spec fn can_step(self, d: Direction) -> bool {
        &&& i32::MIN <= self.x + d.dx() <= i32::MAX
        &&& i32::MIN <= self.y + d.dy() <= i32::MAX
    }

    /// The cell one step away in heading `d`: left and right change `x` by
    /// one, up and down change `y` by one, up being the positive sense.
    pub open spec fn stepped(self, d: Direction) -> Position
        recommends
            self.can_step(d),
    {
        Position { x: (self.x + d.dx()) as i32, y: (self.y + d.dy()) as i32 }
    }

    /// Whether the cell lies in the arena of the given extent.
    pub open spec fn inside(self, width: u32, height: u32) -> bool {
        0 <= self.x < width && 0 <= self.y < height
    }

    /// Decides whether `step` may be taken in heading `d`.
    pub fn can_advance(&self, d: Direction) -> (ok: bool)
        ensures
            ok == self.can_step(d),
    {
        match d {
            Direction::Left => self.x > i32::MIN,
            Direction::Right => self.x < i32::MAX,
            Direction::Up => self.y < i32::MAX,
            Direction::Down => self.y > i32::MIN,
        }
    }

    /// The cell one step away in heading `d`.
    pub fn step(self, d: Direction) -> (p: Position)
        requires
            self.can_step(d),
        ensures
            p == self.stepped(d),
            p.x == self.x + d.dx(),
            p.y == self.y + d.dy(),
    {
        match d {
            Direction::Left => Position { x: self.x - 1, y: self.y },
            Direction::Right => Position { x: self.x + 1, y: self.y },
            Direction::Up => Position { x: self.x, y: self.y + 1 },
            Direction::Down => Position { x: self.x, y: self.y - 1 },
        }
    }

    /// The arena cell picked by two raw samples.
    pub open spec fn of_samples(sample_x: u32, sample_y: u32) -> Position {
        Position {
            x: cell_index(sample_x, ARENA_WIDTH) as i32,
            y: cell_index(sample_y, ARENA_HEIGHT) as i32,
        }
    }

    /// Maps two raw samples to a cell of the arena.
    pub fn from_samples(sample_x: u32, sample_y: u32) -> (p: Position)
        ensures
            p == Position::of_samples(sample_x, sample_y),
            p.x == sample_x as int % ARENA_WIDTH as int,
            p.y == sample_y as int % ARENA_HEIGHT as int,
            p.inside(ARENA_WIDTH, ARENA_HEIGHT),
    {
        Position { x: arena_cell(sample_x, ARENA_WIDTH), y: arena_cell(sample_y, ARENA_HEIGHT) }
    }
}

/// The coordinate in `[0, extent)` that a raw sample is mapped to: its
/// remainder on division by the extent.
pub open spec fn cell_index(sample: u32, extent: u32) -> int
    recommends
        extent > 0,
{
    sample as int % extent as int
}

/// Maps a raw sample to a coordinate in `[0, extent)`.
pub fn arena_cell(sample: u32, extent: u32) -> (c: i32)
    requires
        0 < extent <= i32::MAX,
    ensures
        c == cell_index(sample, extent),
        0 <= c < extent,
{
    (sample % extent) as i32
}

} // verus!
