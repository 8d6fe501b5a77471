//! The four cardinal directions of the grid.

use vstd::prelude::*;

verus! {

/// A unit move on the grid.  East and west change the column, north and
/// south the row.
#[derive(Copy, Clone, Debug, PartialEq, Eq, Structural)]
pub enum Direction {
    East,
    West,
    North,
    South,
}

impl Direction {
    /// Position of this direction in a tile's neighbor list.
    pub open spec fn spec_index(self) -> usize {
        match self {
            Direction::East => 0,
            Direction::West => 1,
            Direction::North => 2,
            Direction::South => 3,
        }
    }

    #[verifier::when_used_as_spec(spec_index)]
    pub fn index(self) -> (k: usize)
        ensures
            k == self.spec_index(),
    {
        match self {
            Direction::East => 0,
            Direction::West => 1,
            Direction::North => 2,
            Direction::South => 3,
        }
    }

    /// The direction whose neighbor-list position is `k`.
    pub open spec fn spec_from_index(k: usize) -> Direction {
        if k == 0 {
            Direction::East
        } else if k == 1 {
            Direction::West
        } else if k == 2 {
            Direction::North
        } else {
            Direction::South
        }
    }

    #[verifier::when_used_as_spec(spec_from_index)]
    pub fn from_index(k: usize) -> (d: Direction)
        requires
            k < 4,
        ensures
            d == Direction::spec_from_index(k),
            d.spec_index() == k,
    {
        if k == 0 {
            Direction::East
        } else if k == 1 {
            Direction::West
        } else if k == 2 {
            Direction::North
        } else {
            Direction::South
        }
    }

    /// The direction that undoes this one.
    pub open spec fn spec_opposite(self) -> Direction {
        match self {
            Direction::East => Direction::West,
            Direction::West => Direction::East,
            Direction::North => Direction::South,
            Direction::South => Direction::North,
        }
    }

    #[verifier::when_used_as_spec(spec_opposite)]
    pub fn opposite(self) -> (d: Direction)
        ensures
            d == self.spec_opposite(),
    {
        match self {
            Direction::East => Direction::West,
            Direction::West => Direction::East,
            Direction::North => Direction::South,
            Direction::South => Direction::North,
        }
    }

    /// Change in column and row made by one step.
    pub open spec fn spec_delta(self) -> (int, int) {
        match self {
            Direction::East => (1, 0),
            Direction::West => (-1, 0),
            Direction::North => (0, 1),
            Direction::South => (0, -1),
        }
    }

    pub fn delta(self) -> (d: (i64, i64))
        ensures
            (d.0 as int, d.1 as int) == self.spec_delta(),
    {
        match self {
            Direction::East => (1, 0),
            Direction::West => (-1, 0),
            Direction::North => (0, 1),
            Direction::South => (0, -1),
        }
    }
}

/// Turning around twice faces the same way, and a step followed by the
/// opposite step returns to the start.
pub proof fn lemma_opposite(d: Direction)
    ensures
        d.spec_opposite().spec_opposite() == d,
        d.spec_opposite() != d,
        d.spec_opposite().spec_delta().0 == -d.spec_delta().0,
        d.spec_opposite().spec_delta().1 == -d.spec_delta().1,
{
}

} // verus!
