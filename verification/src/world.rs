//! The state of a session, and the tick that moves it on.

use vstd::prelude::*;
use crate::coin_animator::{
    advance, advanced, bob, can_advance, check_advance, Sine, BOB_SPEED,
};
use crate::entities::{distinct_ids, has_id, Coin, InputState, PlayerCube, Score};
use crate::error::SimError;
use crate::pickup_detector::{
    collected, lemma_collected_or_remaining, lemma_remaining_ids_distinct,
    lemma_second_pickup_finds_nothing, remaining, resolve,
};
use crate::player_controller::{can_update, check_update, moved, update};
use crate::spawn::{
    coin_places, lemma_placed_ids_distinct, place_coins, placed_coins, player_cube,
    starting_coins, starting_player, COIN_COUNT,
};
use crate::units::Position;

verus! {

/// A session as the contracts see it.
pub struct WorldView {
    pub player: PlayerCube,
    /// The live coins, in the order in which they are kept.
    pub coins: Seq<Coin>,
    pub score: Score,
    /// The number of coins that the session began with.
    pub initial_coin_count: u32,
}

impl WorldView {
    /// What holds of every session at every moment: the score counts the
    /// coins that are gone, and the live coins bear distinct ids.
    pub open spec fn valid(self) -> bool {
        &&& self.score.value + self.coins.len() == self.initial_coin_count
        &&& distinct_ids(self.coins)
    }

    /// The coins after the animation step of a tick.
    pub open spec fn animated(self, dt: u32, wave: int) -> Seq<Coin> {
        self.coins.map_values(|coin: Coin| advanced(coin, dt, wave))
    }

    /// Whether a tick can be taken: whether the cube and every coin stay
    /// within the range of their coordinates.
    pub open spec fn can_tick(self, input: InputState, dt: u32, wave: int) -> bool {
        &&& can_update(self.player, input, dt)
        &&& forall|i: int|
            0 <= i < self.coins.len() ==> can_advance(#[trigger] self.coins[i], dt, wave)
    }

    /// The session one tick later: the cube is steered, then every coin is
    /// animated, then the coins in the cube's new cell are collected.
    pub open spec fn after_tick(self, input: InputState, dt: u32, wave: int) -> WorldView {
        let player = moved(self.player, input, dt);
        let cell = player.position.spec_cell();
        let coins = self.animated(dt, wave);
        WorldView {
            player,
            coins: remaining(coins, cell),
            score: Score { value: (self.score.value + collected(coins, cell).len()) as u32 },
            initial_coin_count: self.initial_coin_count,
        }
    }
}

/// The score is the number of coins that the session began with less the
/// number that are still live.
pub proof fn lemma_score_counts_collected(world: WorldView)
    requires
        world.valid(),
    ensures
        world.score.value == world.initial_coin_count - world.coins.len(),
        world.coins.len() <= world.initial_coin_count,
{
}

/// A tick keeps a session valid: afterwards the score still counts the
/// coins that are gone. The score never falls, the count at the start
/// stays, and no coin is added: every live coin bears the id of a coin that
/// was live before.
pub proof fn lemma_tick_keeps_valid(world: WorldView, input: InputState, dt: u32, wave: int)
    requires
        world.valid(),
    ensures
        world.after_tick(input, dt, wave).valid(),
        world.after_tick(input, dt, wave).initial_coin_count == world.initial_coin_count,
        world.after_tick(input, dt, wave).coins.len() <= world.coins.len(),
        world.after_tick(input, dt, wave).score.value >= world.score.value,
        forall|k: int|
            0 <= k < world.after_tick(input, dt, wave).coins.len() ==> has_id(
                world.coins,
                (#[trigger] world.after_tick(input, dt, wave).coins[k]).id,
            ),
{
    let next = world.after_tick(input, dt, wave);
    let cell = next.player.position.spec_cell();
    let coins = world.animated(dt, wave);
    lemma_collected_or_remaining(coins, cell);
    lemma_remaining_ids_distinct(coins, cell);
    assert forall|k: int| 0 <= k < next.coins.len() implies has_id(
        world.coins,
        (#[trigger] next.coins[k]).id,
    ) by {
        let left = remaining(coins, cell);
        assert(next.coins[k] == left[k]);
        let j = choose|j: int| 0 <= j < coins.len() && coins[j] == left[k];
        assert(world.coins[j].id == coins[j].id);
    }
}

/// A tick of no duration with no key held moves nothing. Taken right after
/// another tick, it therefore picks up from the same cell a second time,
/// collects nothing, and leaves the session as the first tick left it.
pub proof fn lemma_idle_tick_changes_nothing(
    world: WorldView,
    input: InputState,
    dt: u32,
    wave: int,
    idle_wave: int,
)
    requires
        world.valid(),
    ensures
        ({
            let idle = InputState { left: false, right: false, forward: false, backward: false };
            let next = world.after_tick(input, dt, wave);
            &&& collected(next.animated(0, idle_wave), next.player.position.spec_cell())
                == Seq::<Coin>::empty()
            &&& next.after_tick(idle, 0, idle_wave) == next
        }),
{
    let idle = InputState { left: false, right: false, forward: false, backward: false };
    let next = world.after_tick(input, dt, wave);
    let cell = next.player.position.spec_cell();
    let before = world.animated(dt, wave);
    assert(moved(next.player, idle, 0) == next.player);
    assert forall|coin: Coin| advanced(coin, 0, idle_wave) == coin by {
        lemma_no_rise_in_no_time(idle_wave);
    }
    assert(next.animated(0, idle_wave) =~= next.coins);
    lemma_collected_or_remaining(before, cell);
    lemma_second_pickup_finds_nothing(before, cell);
}

proof fn lemma_no_rise_in_no_time(wave: int)
    ensures
        bob(wave, 0) == 0,
{
    let size: int = if wave >= 0 { wave } else { -wave };
    assert(BOB_SPEED * size * 0 == 0);
}

/// A session: the player cube, the live coins and the score.
pub struct World {
    player: PlayerCube,
    coins: Vec<Coin>,
    score: Score,
    initial_coin_count: u32,
}

impl View for World {
    type V = WorldView;

    closed spec fn view(&self) -> WorldView {
        WorldView {
            player: self.player,
            coins: self.coins@,
            score: self.score,
            initial_coin_count: self.initial_coin_count,
        }
    }
}

impl World {
    /// Every session is valid, at every moment.
    #[verifier::type_invariant]
    pub open spec fn well_formed(self) -> bool {
        self@.valid()
    }

    /// Starts a session: the cube at its starting place, the full grid of
    /// coins, and a score of zero.
    pub fn new() -> (world: World)
        ensures
            world@.valid(),
            world@.player == starting_player(),
            world@.coins == starting_coins(),
            world@.score.value == 0,
            world@.initial_coin_count == COIN_COUNT,
    {
        let places = coin_places();
        proof {
            lemma_placed_ids_distinct(places@);
        }
        World {
            player: player_cube(),
            coins: place_coins(&places),
            score: Score { value: 0 },
            initial_coin_count: COIN_COUNT,
        }
    }

    /// Starts a session from any scene: the given cube, one fresh coin at
    /// each of the given places, and a score of zero. The one scene that is
    /// turned down is one with more coins than a score can count.
    pub fn with_scene(player: PlayerCube, places: &Vec<Position>) -> (world: Option<World>)
        ensures
            world is Some <==> places.len() <= u32::MAX,
            world matches Some(w) ==> {
                &&& w@.valid()
                &&& w@.player == player
                &&& w@.coins == placed_coins(places@)
                &&& w@.score.value == 0
                &&& w@.initial_coin_count == places.len()
            },
    {
        if places.len() > u32::MAX as usize {
            return None;
        }
        proof {
            lemma_placed_ids_distinct(places@);
        }
        Some(
            World {
                player,
                coins: place_coins(places),
                score: Score { value: 0 },
                initial_coin_count: places.len() as u32,
            },
        )
    }

    /// The player cube.
    pub fn player(&self) -> (player: PlayerCube)
        ensures
            player == self@.player,
    {
        self.player
    }

    /// The live coins, in the order in which they are kept.
    pub fn coins(&self) -> (coins: &Vec<Coin>)
        ensures
            coins@ == self@.coins,
            self@.valid(),
    {
        proof {
            use_type_invariant(self);
        }
        &self.coins
    }

    /// The score, which counts the coins collected since the start.
    pub fn score(&self) -> (score: Score)
        ensures
            score == self@.score,
            score.value == self@.initial_coin_count - self@.coins.len(),
    {
        proof {
            use_type_invariant(self);
        }
        self.score
    }

    /// The number of coins that the session began with.
    pub fn initial_coin_count(&self) -> (count: u32)
        ensures
            count == self@.initial_coin_count,
    {
        self.initial_coin_count
    }

    /// The number of coins not yet collected.
    pub fn live_coin_count(&self) -> (count: usize)
        ensures
            count == self@.coins.len(),
            count == self@.initial_coin_count - self@.score.value,
    {
        proof {
            use_type_invariant(self);
        }
        self.coins.len()
    }

    fn check_tick(&self, input: InputState, dt: u32, wave: Sine) -> (fits: bool)
        ensures
            fits == self@.can_tick(input, dt, wave@),
    {
        if !check_update(&self.player, input, dt) {
            return false;
        }
        let mut i: usize = 0;
        while i < self.coins.len()
            invariant
                i <= self.coins.len(),
                forall|j: int| 0 <= j < i ==> can_advance(#[trigger] self.coins[j], dt, wave@),
            decreases self.coins.len() - i,
        {
            if !check_advance(&self.coins[i], dt, wave) {
                assert(!can_advance(self@.coins[i as int], dt, wave@));
                return false;
            }
            i = i + 1;
        }
        true
    }

    /// Takes one tick of `dt` microseconds: steers the cube by the held
    /// keys, animates every coin with the wave at `wave`, then collects the
    /// coins in the cube's cell and hands them back. A tick that would carry
    /// a coordinate or an angle out of range is refused and changes
    /// nothing.
    pub fn tick(&mut self, input: InputState, dt: u32, wave: Sine) -> (outcome: Result<
        Vec<Coin>,
        SimError,
    >)
        ensures
            final(self)@.valid(),
            final(self)@.score.value == final(self)@.initial_coin_count
                - final(self)@.coins.len(),
            final(self)@.initial_coin_count == old(self)@.initial_coin_count,
            !old(self)@.can_tick(input, dt, wave@) ==> {
                &&& outcome == Err::<Vec<Coin>, SimError>(SimError::OutOfRange)
                &&& final(self)@ == old(self)@
            },
            old(self)@.can_tick(input, dt, wave@) ==> {
                &&& outcome matches Ok(taken)
                &&& final(self)@ == old(self)@.after_tick(input, dt, wave@)
                &&& taken@ == collected(
                    old(self)@.animated(dt, wave@),
                    final(self)@.player.position.spec_cell(),
                )
            },
    {
        proof {
            use_type_invariant(&*self);
        }
        if !self.check_tick(input, dt, wave) {
            return Err(SimError::OutOfRange);
        }
        let mut player = self.player;
        if let Err(refusal) = update(&mut player, input, dt) {
            return Err(refusal);
        }
        let mut coins: Vec<Coin> = Vec::new();
        let mut i: usize = 0;
        while i < self.coins.len()
            invariant
                i <= self.coins.len(),
                coins.len() == i,
                forall|j: int|
                    0 <= j < i ==> coins[j] == advanced(#[trigger] self.coins[j], dt, wave@),
                forall|j: int|
                    0 <= j < self.coins.len() ==> can_advance(
                        #[trigger] self.coins[j],
                        dt,
                        wave@,
                    ),
            decreases self.coins.len() - i,
        {
            let mut coin = self.coins[i];
            if let Err(refusal) = advance(&mut coin, dt, wave) {
                return Err(refusal);
            }
            coins.push(coin);
            i = i + 1;
        }
        assert(coins@ =~= self@.animated(dt, wave@));
        let mut score = self.score;
        proof {
            let cell = player.position.spec_cell();
            lemma_collected_or_remaining(coins@, cell);
            lemma_ids_survive_animation(self.coins@, dt, wave@);
            lemma_remaining_ids_distinct(coins@, cell);
        }
        let outcome = resolve(Some(&player), &mut coins, &mut score);
        *self = World { player, coins, score, initial_coin_count: self.initial_coin_count };
        outcome
    }
}

proof fn lemma_ids_survive_animation(coins: Seq<Coin>, dt: u32, wave: int)
    requires
        distinct_ids(coins),
    ensures
        distinct_ids(coins.map_values(|coin: Coin| advanced(coin, dt, wave))),
{
}

} // verus!
