//! Fixed-point quantities and the grid of cells.
//!
//! Lengths are counted in millionths of a world unit, durations in
//! microseconds, angles in microradians. A speed of one unit per second is
//! therefore one millionth per microsecond, and products of a rate and a
//! duration need no rescaling.

use vstd::prelude::*;

verus! {

/// The number of fixed-point steps in one whole unit.
pub const UNIT: i64 = 1_000_000;

/// A point in world space, each coordinate in millionths of a unit.
#[derive(Clone, Copy, Debug, PartialEq, Eq, Structural)]
pub struct Position {
    pub x: i64,
    pub y: i64,
    pub z: i64,
}

/// A square of the horizontal grid: whole units along `x` and `z`.
#[derive(Clone, Copy, Debug, PartialEq, Eq, Structural)]
pub struct Cell {
    pub x: i64,
    pub z: i64,
}

/// The smallest whole number of units that is not below `value` millionths.
pub open spec fn ceil_units(value: int) -> int {
    -((-value) / (UNIT as int))
}

/// `ceil_units(value)` is the one whole number `c` with
/// `(c - 1) * UNIT < value <= c * UNIT`.
pub proof fn lemma_ceil_units_bounds(value: int)
    ensures
        (ceil_units(value) - 1) * UNIT < value <= ceil_units(value) * UNIT,
{
}

/// Any whole number that brackets `value` as `ceil_units` does is `ceil_units(value)`.
pub proof fn lemma_ceil_units_unique(value: int, c: int)
    requires
        (c - 1) * UNIT < value <= c * UNIT,
    ensures
        c == ceil_units(value),
{
}

/// Rounds a fixed-point coordinate up to whole units.
pub fn cell_coordinate(value: i64) -> (cell: i64)
    ensures
        cell == ceil_units(value as int),
{
    let quotient: i64 = value / UNIT;
    let remainder: i64 = value % UNIT;
    if remainder > 0 {
        quotient + 1
    } else {
        quotient
    }
}

impl Position {
    /// The cell that holds this point: both horizontal coordinates rounded up.
    pub open spec fn spec_cell(&self) -> Cell {
        Cell { x: ceil_units(self.x as int) as i64, z: ceil_units(self.z as int) as i64 }
    }

    /// The cell that holds this point. The height plays no part.
    #[verifier::when_used_as_spec(spec_cell)]
    pub fn cell(&self) -> (cell: Cell)
        ensures
            cell == self.spec_cell(),
            cell.x == ceil_units(self.x as int),
            cell.z == ceil_units(self.z as int),
    {
        Cell { x: cell_coordinate(self.x), z: cell_coordinate(self.z) }
    }
}

} // verus!
