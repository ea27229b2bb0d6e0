//! Collecting: the coins that share the player's cell leave the world and
//! count towards the score.

use vstd::prelude::*;
use crate::entities::{distinct_ids, Coin, PlayerCube, Score};
use crate::error::SimError;
use crate::units::Cell;

verus! {

/// Whether a coin lies in the given cell.
pub open spec fn in_cell(coin: Coin, cell: Cell) -> bool {
    coin.position.spec_cell() == cell
}

/// The test that picks the coins inside `cell`.
pub open spec fn inside(cell: Cell) -> spec_fn(Coin) -> bool {
    |coin: Coin| in_cell(coin, cell)
}

/// The test that picks the coins outside `cell`.
pub open spec fn outside(cell: Cell) -> spec_fn(Coin) -> bool {
    |coin: Coin| !in_cell(coin, cell)
}

/// The coins that a player in `cell` collects, in their order.
pub open spec fn collected(coins: Seq<Coin>, cell: Cell) -> Seq<Coin> {
    coins.filter(inside(cell))
}

/// The coins that a player in `cell` leaves behind, in their order.
pub open spec fn remaining(coins: Seq<Coin>, cell: Cell) -> Seq<Coin> {
    coins.filter(outside(cell))
}

/// Whether the score can take in every coin that a player in `cell` collects.
pub open spec fn score_fits(score: Score, coins: Seq<Coin>, cell: Cell) -> bool {
    score.value + collected(coins, cell).len() <= u32::MAX
}

/// Picks up coins. With no player cube there is nothing to test against:
/// the call fails and changes nothing. Otherwise every coin in the player's
/// cell is taken out of `coins` and handed back, however many there are, the
/// others stay in their order, and the score grows by the number taken. A
/// pickup that the score cannot count is refused and changes nothing.
pub fn resolve(player: Option<&PlayerCube>, coins: &mut Vec<Coin>, score: &mut Score) -> (outcome:
    Result<Vec<Coin>, SimError>)
    ensures
        player is None ==> {
            &&& outcome == Err::<Vec<Coin>, SimError>(SimError::MissingPlayer)
            &&& final(coins)@ == old(coins)@
            &&& *final(score) == *old(score)
        },
        player matches Some(p) ==> {
            let cell = p.position.spec_cell();
            if score_fits(*old(score), old(coins)@, cell) {
                &&& outcome matches Ok(taken)
                &&& taken@ == collected(old(coins)@, cell)
                &&& final(coins)@ == remaining(old(coins)@, cell)
                &&& final(score).value == old(score).value + taken@.len()
                &&& taken@.len() + final(coins)@.len() == old(coins)@.len()
                &&& forall|i: int|
                    0 <= i < final(coins)@.len() ==> !in_cell(#[trigger] final(coins)@[i], cell)
            } else {
                &&& outcome == Err::<Vec<Coin>, SimError>(SimError::OutOfRange)
                &&& final(coins)@ == old(coins)@
                &&& *final(score) == *old(score)
            }
        },
{
    let cell = match player {
        Some(p) => p.position.cell(),
        None => {
            return Err(SimError::MissingPlayer);
        },
    };
    let mut kept: Vec<Coin> = Vec::new();
    let mut taken: Vec<Coin> = Vec::new();
    let mut i: usize = 0;
    assert(coins@.take(0) =~= Seq::<Coin>::empty());
    proof {
        lemma_nothing_from_nothing(cell);
    }
    while i < coins.len()
        invariant
            i <= coins.len(),
            coins@ == old(coins)@,
            kept@ == remaining(coins@.take(i as int), cell),
            taken@ == collected(coins@.take(i as int), cell),
        decreases coins.len() - i,
    {
        let coin = coins[i];
        proof {
            let seen = coins@.take(i as int);
            assert(coins@.take(i + 1) =~= seen.push(coin));
            seen.lemma_filter_push(coin, inside(cell));
            seen.lemma_filter_push(coin, outside(cell));
        }
        if coin.position.cell() == cell {
            taken.push(coin);
        } else {
            kept.push(coin);
        }
        i = i + 1;
    }
    assert(coins@.take(coins.len() as int) =~= coins@);
    proof {
        lemma_collected_or_remaining(coins@, cell);
    }
    if taken.len() > (u32::MAX - score.value) as usize {
        return Err(SimError::OutOfRange);
    }
    *coins = kept;
    score.value = score.value + (taken.len() as u32);
    Ok(taken)
}

proof fn lemma_nothing_from_nothing(cell: Cell)
    ensures
        collected(Seq::<Coin>::empty(), cell) == Seq::<Coin>::empty(),
        remaining(Seq::<Coin>::empty(), cell) == Seq::<Coin>::empty(),
{
    reveal(Seq::filter);
}

/// Every coin is either collected or left behind, never both: the two
/// groups together are as many as the coins were.
pub proof fn lemma_collected_or_remaining(coins: Seq<Coin>, cell: Cell)
    ensures
        collected(coins, cell).len() + remaining(coins, cell).len() == coins.len(),
        forall|i: int|
            0 <= i < collected(coins, cell).len() ==> in_cell(
                #[trigger] collected(coins, cell)[i],
                cell,
            ),
        forall|i: int|
            0 <= i < remaining(coins, cell).len() ==> !in_cell(
                #[trigger] remaining(coins, cell)[i],
                cell,
            ),
    decreases coins.len(),
{
    reveal(Seq::filter);
    if coins.len() > 0 {
        lemma_collected_or_remaining(coins.drop_last(), cell);
    }
}

/// The coins left behind were all there before: a pickup never adds a coin,
/// so the live coins can only become fewer.
pub proof fn lemma_remaining_were_live(coins: Seq<Coin>, cell: Cell)
    ensures
        remaining(coins, cell).len() <= coins.len(),
        forall|coin: Coin| #[trigger]
            remaining(coins, cell).contains(coin) ==> coins.contains(coin),
    decreases coins.len(),
{
    reveal(Seq::filter);
    if coins.len() > 0 {
        let front = coins.drop_last();
        lemma_remaining_were_live(front, cell);
        assert forall|coin: Coin| #[trigger]
            remaining(coins, cell).contains(coin) implies coins.contains(coin) by {
            let k = choose|k: int|
                0 <= k < remaining(coins, cell).len() && remaining(coins, cell)[k] == coin;
            if k < remaining(front, cell).len() {
                assert(remaining(front, cell)[k] == coin);
                assert(remaining(front, cell).contains(coin));
                let j = choose|j: int| 0 <= j < front.len() && front[j] == coin;
                assert(coins[j] == coin);
            } else {
                assert(coins[coins.len() - 1] == coin);
            }
        }
    }
}

/// Coins that bore distinct ids still do after a pickup.
pub proof fn lemma_remaining_ids_distinct(coins: Seq<Coin>, cell: Cell)
    requires
        distinct_ids(coins),
    ensures
        distinct_ids(remaining(coins, cell)),
        forall|k: int|
            0 <= k < remaining(coins, cell).len() ==> exists|j: int|
                0 <= j < coins.len() && coins[j] == #[trigger] remaining(coins, cell)[k],
    decreases coins.len(),
{
    reveal(Seq::filter);
    if coins.len() > 0 {
        let front = coins.drop_last();
        let last = coins.last();
        assert forall|i: int, j: int|
            0 <= i < front.len() && 0 <= j < front.len() && i != j implies front[i].id
            != front[j].id by {
            assert(front[i] == coins[i] && front[j] == coins[j]);
        }
        lemma_remaining_ids_distinct(front, cell);
        let left = remaining(coins, cell);
        let left_front = remaining(front, cell);
        assert forall|k: int| 0 <= k < left.len() implies exists|j: int|
            0 <= j < coins.len() && coins[j] == #[trigger] left[k] by {
            if k < left_front.len() {
                assert(left[k] == left_front[k]);
                let j = choose|j: int| 0 <= j < front.len() && front[j] == left_front[k];
                assert(coins[j] == left[k]);
            } else {
                assert(coins[coins.len() - 1] == left[k]);
            }
        }
        assert forall|a: int, b: int|
            0 <= a < left.len() && 0 <= b < left.len() && a != b implies left[a].id
            != left[b].id by {
            if a < left_front.len() && b < left_front.len() {
                assert(left[a] == left_front[a] && left[b] == left_front[b]);
            } else if a < left_front.len() {
                let j = choose|j: int| 0 <= j < front.len() && front[j] == left_front[a];
                assert(coins[j] == left[a] && coins[coins.len() - 1] == left[b]);
            } else {
                let j = choose|j: int| 0 <= j < front.len() && front[j] == left_front[b];
                assert(coins[j] == left[b] && coins[coins.len() - 1] == left[a]);
            }
        }
    }
}

/// A sequence whose coins all lie outside `cell` loses nothing to a player
/// in that cell.
pub proof fn lemma_nothing_in_reach(coins: Seq<Coin>, cell: Cell)
    requires
        forall|i: int| 0 <= i < coins.len() ==> !in_cell(#[trigger] coins[i], cell),
    ensures
        collected(coins, cell) == Seq::<Coin>::empty(),
        remaining(coins, cell) == coins,
    decreases coins.len(),
{
    reveal(Seq::filter);
    if coins.len() > 0 {
        let front = coins.drop_last();
        assert forall|i: int| 0 <= i < front.len() implies !in_cell(#[trigger] front[i], cell) by {
            assert(front[i] == coins[i]);
        }
        lemma_nothing_in_reach(front, cell);
        assert(!in_cell(coins[coins.len() - 1], cell));
        assert(front.push(coins.last()) =~= coins);
    }
}

/// Picking up twice from the same cell, with nothing moved in between,
/// collects nothing the second time and leaves the coins as the first
/// pickup left them.
pub proof fn lemma_second_pickup_finds_nothing(coins: Seq<Coin>, cell: Cell)
    ensures
        collected(remaining(coins, cell), cell) == Seq::<Coin>::empty(),
        remaining(remaining(coins, cell), cell) == remaining(coins, cell),
{
    lemma_collected_or_remaining(coins, cell);
    lemma_nothing_in_reach(remaining(coins, cell), cell);
}

} // verus!
