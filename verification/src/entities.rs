//! The records that make up the state of a session.

use vstd::prelude::*;
use crate::units::Position;

verus! {

/// The cube that the player steers. Its extents are set when it is made
/// and never change.
#[derive(Clone, Copy, Debug, PartialEq, Eq, Structural)]
pub struct PlayerCube {
    pub position: Position,
    pub half_extent_x: i64,
    pub half_extent_z: i64,
}

/// A coin that has not been collected yet.
#[derive(Clone, Copy, Debug, PartialEq, Eq, Structural)]
pub struct Coin {
    pub id: u64,
    pub position: Position,
    /// The turn about the vertical axis, in microradians.
    pub rotation_angle: i64,
    /// The time on the session clock at which the coin appeared, in microseconds.
    pub spawn_time: u64,
}

/// Whether no two coins bear the same id.
pub open spec fn distinct_ids(coins: Seq<Coin>) -> bool {
    forall|i: int, j: int|
        0 <= i < coins.len() && 0 <= j < coins.len() && i != j ==> coins[i].id != coins[j].id
}

/// Whether one of the coins bears the given id.
pub open spec fn has_id(coins: Seq<Coin>, id: u64) -> bool {
    exists|j: int| 0 <= j < coins.len() && (#[trigger] coins[j]).id == id
}

/// The number of coins collected so far.
#[derive(Clone, Copy, Debug, PartialEq, Eq, Structural)]
pub struct Score {
    pub value: u32,
}

/// The four direction keys, each held or not.
#[derive(Clone, Copy, Debug, PartialEq, Eq, Structural)]
pub struct InputState {
    pub left: bool,
    pub right: bool,
    pub forward: bool,
    pub backward: bool,
}

} // verus!
