//! Headings and the state machine that guards the snake's current heading.

use vstd::prelude::*;

verus! {

/// One of the four headings on the grid.
#[derive(Clone, Copy, Debug, PartialEq, Eq, Structural)]
pub enum Direction {
    Left,
    Up,
    Right,
    Down,
}

impl Direction {
    /// The heading that points the other way: `Left` and `Right` are a pair,
    /// and so are `Up` and `Down`.
    pub open spec fn opposite(self) -> Direction {
        match self {
            Direction::Left => Direction::Right,
            Direction::Right => Direction::Left,
            Direction::Up => Direction::Down,
            Direction::Down => Direction::Up,
        }
    }

    /// Change of the `x` coordinate made by one step in this heading.
    pub open spec fn dx(self) -> int {
        match self {
            Direction::Left => -1,
            Direction::Right => 1,
            Direction::Up => 0,
            Direction::Down => 0,
        }
    }

    /// Change of the `y` coordinate made by one step in this heading.
    pub open spec fn dy(self) -> int {
        match self {
            Direction::Left => 0,
            Direction::Right => 0,
            Direction::Up => 1,
            Direction::Down => -1,
        }
    }

    /// Returns the heading that points the other way.
    #[verifier::when_used_as_spec(opposite)]
    pub fn oppsite(self) -> (r: Self)
        ensures
            r == self.opposite(),
    {
        match self {
            Direction::Left => Direction::Right,
            Direction::Right => Direction::Left,
            Direction::Up => Direction::Down,
            Direction::Down => Direction::Up,
        }
    }
}

/// The heading that results when `candidate` is proposed while the snake is
/// heading `current`: the candidate, unless it is the exact reversal of
/// `current`, in which case the heading stays.
pub open spec fn turned(current: Direction, candidate: Direction) -> Direction {
    if candidate != current.opposite() {
        candidate
    } else {
        current
    }
}

/// The heading proposed by one input sample. The keys are looked at in the
/// fixed order left, down, up, right, and the first one held wins; with no
/// key held nothing is proposed.
pub open spec fn requested(left: bool, down: bool, up: bool, right: bool) -> Option<Direction> {
    if left {
        Some(Direction::Left)
    } else if down {
        Some(Direction::Down)
    } else if up {
        Some(Direction::Up)
    } else if right {
        Some(Direction::Right)
    } else {
        None
    }
}

/// The heading after one input sample taken while heading `current`.
pub open spec fn steered(current: Direction, left: bool, down: bool, up: bool, right: bool)
    -> Direction {
    match requested(left, down, up, right) {
        Some(candidate) => turned(current, candidate),
        None => current,
    }
}

/// The head of the snake, which owns the current heading.
#[derive(Clone, Copy, Debug, PartialEq, Eq, Structural)]
pub struct SnakeHead {
    pub direction: Direction,
}

impl SnakeHead {
    /// A head that starts out heading `direction`.
    pub fn new(direction: Direction) -> (head: Self)
        ensures
            head.direction == direction,
    {
        SnakeHead { direction }
    }

    /// The current heading.
    pub fn current(&self) -> (d: Direction)
        ensures
            d == self.direction,
    {
        self.direction
    }

    /// Proposes `candidate` as the new heading. It is applied unless it is
    /// the exact reversal of the current heading; then the heading stays.
    pub fn set_candidate(&mut self, candidate: Direction)
        ensures
            final(self).direction == turned(old(self).direction, candidate),
            final(self).direction == candidate <==> candidate != old(self).direction.opposite(),
            candidate == old(self).direction.opposite() ==> final(self).direction == old(
                self,
            ).direction,
    {
        if candidate != self.direction.oppsite() {
            self.direction = candidate;
        }
    }

    /// Takes one input sample: the four flags say which arrow keys are held.
    /// The first held key in the order left, down, up, right is proposed as
    /// the new heading; with none held the heading is unchanged.
    pub fn snake_movement_input(&mut self, left: bool, down: bool, up: bool, right: bool)
        ensures
            final(self).direction == steered(old(self).direction, left, down, up, right),
    {
        if left {
            self.set_candidate(Direction::Left);
        } else if down {
            self.set_candidate(Direction::Down);
        } else if up {
            self.set_candidate(Direction::Up);
        } else if right {
            self.set_candidate(Direction::Right);
        }
    }
}

} // verus!
