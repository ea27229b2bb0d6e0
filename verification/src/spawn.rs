//! The scene at the start of a session: one player cube and a square grid
//! of coins.

use vstd::prelude::*;
use itertools::Itertools;
use crate::entities::{distinct_ids, Coin, PlayerCube};
use crate::units::{Position, UNIT};

verus! {

/// The grid index of the first row and of the first column of coins.
pub const GRID_FIRST: i32 = -5;

/// One past the grid index of the last row and of the last column.
pub const GRID_END: i32 = 5;

/// The number of rows, which is also the number of columns.
pub const GRID_SIDE: i32 = 10;

/// The number of coins at the start of a session.
pub const COIN_COUNT: u32 = 100;

/// The distance between neighbouring coins, in whole units.
pub const GRID_SPACING: i64 = 2;

/// The height at which coins appear, in millionths of a unit.
pub const COIN_HEIGHT: i64 = 2_000_000;

/// All pairs of indices from `first` up to but not including `end`, row by
/// row: the second index runs fastest.
pub open spec fn index_pairs(first: int, end: int) -> Seq<(i32, i32)> {
    let side = end - first;
    Seq::new(
        (side * side) as nat,
        |k: int| ((first + k / side) as i32, (first + k % side) as i32),
    )
}

/// `Itertools::cartesian_product` on the range `first..end` and itself,
/// collected. The adaptor pairs every item of its receiver, in order, with
/// every item of its argument, in order, and restarts the argument for each
/// item of the receiver; the contract writes that out for two equal ranges.
#[verifier::external_body]
fn square_of_indices(first: i32, end: i32) -> (pairs: Vec<(i32, i32)>)
    requires
        first <= end,
        end - first <= 4096,
    ensures
        pairs@ == index_pairs(first as int, end as int),
{
    (first..end).cartesian_product(first..end).collect()
}

/// The place of coin `k` of the starting grid, counted row by row: rows
/// run along `x`, columns along `z`.
pub open spec fn grid_place(k: int) -> Position {
    Position {
        x: ((GRID_FIRST + k / (GRID_SIDE as int)) * GRID_SPACING * UNIT) as i64,
        y: COIN_HEIGHT,
        z: ((GRID_FIRST + k % (GRID_SIDE as int)) * GRID_SPACING * UNIT) as i64,
    }
}

/// The places of the coins of a new session.
pub open spec fn starting_places() -> Seq<Position> {
    Seq::new(COIN_COUNT as nat, |k: int| grid_place(k))
}

/// Lays out the grid of a new session: ten rows of ten places, two units
/// apart, all at the same height.
pub fn coin_places() -> (places: Vec<Position>)
    ensures
        places@ == starting_places(),
{
    let pairs = square_of_indices(GRID_FIRST, GRID_END);
    let mut places: Vec<Position> = Vec::new();
    let mut k: usize = 0;
    while k < pairs.len()
        invariant
            pairs@ == index_pairs(GRID_FIRST as int, GRID_END as int),
            pairs.len() == COIN_COUNT,
            k <= pairs.len(),
            places.len() == k,
            forall|j: int| 0 <= j < k ==> places[j] == grid_place(j),
        decreases pairs.len() - k,
    {
        let (row, column) = pairs[k];
        proof {
            let place = k as int;
            assert(0 <= place / 10 < 10 && 0 <= place % 10 < 10);
            assert(pairs@[place] == (
                (GRID_FIRST + place / 10) as i32,
                (GRID_FIRST + place % 10) as i32,
            ));
            assert(row == GRID_FIRST + place / 10);
            assert(column == GRID_FIRST + place % 10);
        }
        places.push(
            Position {
                x: (row as i64) * GRID_SPACING * UNIT,
                y: COIN_HEIGHT,
                z: (column as i64) * GRID_SPACING * UNIT,
            },
        );
        k = k + 1;
    }
    assert(places@ =~= starting_places());
    places
}

/// A coin as it appears: at rest, with the clock at zero.
pub open spec fn fresh_coin(id: u64, position: Position) -> Coin {
    Coin { id, position, rotation_angle: 0, spawn_time: 0 }
}

/// One fresh coin at each place, numbered from zero in the order of the
/// places.
pub open spec fn placed_coins(places: Seq<Position>) -> Seq<Coin> {
    Seq::new(places.len(), |k: int| fresh_coin(k as u64, places[k]))
}

/// The coins of a new session.
pub open spec fn starting_coins() -> Seq<Coin> {
    placed_coins(starting_places())
}

/// Coins placed by `place_coins` bear distinct ids, as long as their
/// number fits the type of an id.
pub proof fn lemma_placed_ids_distinct(places: Seq<Position>)
    requires
        places.len() <= u64::MAX,
    ensures
        distinct_ids(placed_coins(places)),
{
}

/// Puts one fresh coin at each place.
pub fn place_coins(places: &Vec<Position>) -> (coins: Vec<Coin>)
    ensures
        coins@ == placed_coins(places@),
{
    let mut coins: Vec<Coin> = Vec::new();
    let mut k: usize = 0;
    while k < places.len()
        invariant
            k <= places.len(),
            coins.len() == k,
            forall|j: int| 0 <= j < k ==> coins[j] == fresh_coin(j as u64, places[j]),
        decreases places.len() - k,
    {
        coins.push(Coin { id: k as u64, position: places[k], rotation_angle: 0, spawn_time: 0 });
        k = k + 1;
    }
    assert(coins@ =~= placed_coins(places@));
    coins
}

/// The player cube of a new session: five units wide and deep, resting on
/// the ground twelve units to the right of the grid's centre line.
pub open spec fn starting_player() -> PlayerCube {
    PlayerCube {
        position: Position { x: 12_000_000, y: 2_500_000, z: 0 },
        half_extent_x: 2_500_000,
        half_extent_z: 2_500_000,
    }
}

/// Makes the player cube of a new session.
pub fn player_cube() -> (player: PlayerCube)
    ensures
        player == starting_player(),
{
    PlayerCube {
        position: Position { x: 12_000_000, y: 2_500_000, z: 0 },
        half_extent_x: 2_500_000,
        half_extent_z: 2_500_000,
    }
}

} // verus!
