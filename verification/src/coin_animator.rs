//! Animation: every live coin spins at a steady rate and bobs up and down
//! with a wave that the session clock drives.

use vstd::prelude::*;
use crate::entities::Coin;
use crate::error::SimError;
use crate::units::{Position, UNIT};

verus! {

/// The spin of a coin in radians per second, which is also microradians per
/// microsecond.
pub const SPIN_RATE: i64 = 2;

/// The greatest vertical speed of a bobbing coin, in units per second.
pub const BOB_SPEED: i64 = 3;

/// The rate at which the phase of the bob advances, in radians per second.
pub const BOB_RATE: u64 = 3;

/// A value of the sine function, in millionths: a whole number from
/// minus one million to one million.
#[derive(Clone, Copy, Debug)]
pub struct Sine {
    millionths: i64,
}

/// Whether a number of millionths can be a sine.
pub open spec fn is_sine(millionths: int) -> bool {
    -UNIT <= millionths <= UNIT
}

impl View for Sine {
    type V = int;

    closed spec fn view(&self) -> int {
        self.millionths as int
    }
}

impl Sine {
    #[verifier::type_invariant]
    spec fn within_unit(self) -> bool {
        is_sine(self.millionths as int)
    }

    /// Accepts the values from minus one to one, and no others.
    pub fn new(millionths: i64) -> (sine: Option<Sine>)
        ensures
            sine is Some <==> is_sine(millionths as int),
            sine matches Some(s) ==> s@ == millionths,
    {
        if -UNIT <= millionths && millionths <= UNIT {
            Some(Sine { millionths })
        } else {
            None
        }
    }

    /// The value in millionths.
    pub fn millionths(&self) -> (value: i64)
        ensures
            value == self@,
            is_sine(self@),
    {
        proof {
            use_type_invariant(self);
        }
        self.millionths
    }
}

/// The phase of the bob, in microradians, when the session clock shows
/// `elapsed` microseconds. The wave that drives `advance` is the sine of
/// this angle.
pub fn bob_phase(elapsed: u64) -> (phase: u128)
    ensures
        phase == BOB_RATE * elapsed,
{
    (BOB_RATE as u128) * (elapsed as u128)
}

/// The turn of a coin in `dt` microseconds, in microradians.
pub open spec fn spin(dt: u32) -> int {
    SPIN_RATE * dt
}

/// The rise of a coin in `dt` microseconds while the wave stands at `wave`
/// millionths: three units per second times the wave, rounded towards zero
/// to a whole number of millionths of a unit.
pub open spec fn bob(wave: int, dt: u32) -> int {
    if wave >= 0 {
        (BOB_SPEED * wave * dt) / (UNIT as int)
    } else {
        -((BOB_SPEED * (-wave) * dt) / (UNIT as int))
    }
}

/// A coin never rises or falls faster than three units per second, and a
/// wave that stands at zero, or a tick of no duration, leaves it level.
pub proof fn lemma_bob_bounded(wave: int, dt: u32)
    requires
        is_sine(wave),
    ensures
        -(BOB_SPEED * dt) <= bob(wave, dt) <= BOB_SPEED * dt,
        wave >= 0 ==> bob(wave, dt) >= 0,
        wave <= 0 ==> bob(wave, dt) <= 0,
        wave == 0 || dt == 0 ==> bob(wave, dt) == 0,
        wave == UNIT ==> bob(wave, dt) == BOB_SPEED * dt,
        wave == -UNIT ==> bob(wave, dt) == -(BOB_SPEED * dt),
{
    let size: int = if wave >= 0 { wave } else { -wave };
    let speed: int = BOB_SPEED as int;
    let unit: int = UNIT as int;
    let time: int = dt as int;
    assert(0 <= speed * size * time <= speed * time * unit) by (nonlinear_arith)
        requires
            0 <= size <= unit,
            0 <= time,
            speed == 3,
    ;
    assert(0 <= (speed * size * time) / unit <= speed * time) by (nonlinear_arith)
        requires
            0 <= speed * size * time <= speed * time * unit,
            unit > 0,
    ;
    if size == unit {
        assert((speed * size * time) / unit == speed * time) by (nonlinear_arith)
            requires
                size == unit,
                unit > 0,
        ;
    }
    if size == 0 || time == 0 {
        assert(speed * size * time == 0) by (nonlinear_arith)
            requires
                size == 0 || time == 0,
        ;
    }
}

/// The rise is the exact product of speed, wave and duration with the
/// fraction of a millionth cut off: it is never further from zero than the
/// product, and less than one millionth short of it.
pub proof fn lemma_bob_rounds_towards_zero(wave: int, dt: u32)
    ensures
        wave >= 0 ==> bob(wave, dt) * UNIT <= BOB_SPEED * wave * dt < (bob(wave, dt) + 1) * UNIT,
        wave <= 0 ==> (bob(wave, dt) - 1) * UNIT < BOB_SPEED * wave * dt <= bob(wave, dt) * UNIT,
{
    let size: int = if wave >= 0 { wave } else { -wave };
    let product: int = BOB_SPEED * size * dt;
    let unit: int = UNIT as int;
    assert(BOB_SPEED * wave * dt == if wave >= 0 { product } else { -product })
        by (nonlinear_arith)
        requires
            size == if wave >= 0 { wave } else { -wave },
            product == BOB_SPEED * size * dt,
    ;
    let whole: int = product / unit;
    assert(whole * unit <= product < (whole + 1) * unit);
    if wave == 0 {
        assert(product == 0) by (nonlinear_arith)
            requires
                product == BOB_SPEED * size * dt,
                size == 0,
        ;
    } else if wave < 0 {
        assert(BOB_SPEED * (-wave) * dt == product);
        assert(bob(wave, dt) == -whole);
    }
}

/// Whether a coin can take the turn and the rise of one tick.
pub open spec fn can_advance(coin: Coin, dt: u32, wave: int) -> bool {
    &&& coin.rotation_angle + spin(dt) <= i64::MAX
    &&& i64::MIN <= coin.position.y + bob(wave, dt) <= i64::MAX
}

/// The coin after one tick of animation.
pub open spec fn advanced(coin: Coin, dt: u32, wave: int) -> Coin {
    Coin {
        id: coin.id,
        position: Position {
            x: coin.position.x,
            y: (coin.position.y + bob(wave, dt)) as i64,
            z: coin.position.z,
        },
        rotation_angle: (coin.rotation_angle + spin(dt)) as i64,
        spawn_time: coin.spawn_time,
    }
}

fn rise(wave: Sine, dt: u32) -> (delta: i64)
    ensures
        is_sine(wave@),
        delta == bob(wave@, dt),
        -(BOB_SPEED * dt) <= delta <= BOB_SPEED * dt,
{
    let level: i64 = wave.millionths();
    proof {
        lemma_bob_bounded(level as int, dt);
        let size: int = if level >= 0 { level as int } else { -(level as int) };
        let speed: int = BOB_SPEED as int;
        let unit: int = UNIT as int;
        let time: int = dt as int;
        assert(0 <= speed * size * time <= speed * time * unit) by (nonlinear_arith)
            requires
                0 <= size <= unit,
                0 <= time,
                speed == 3,
        ;
        assert(BOB_SPEED * level == if level >= 0 { speed * size } else { -(speed * size) });
        assert(BOB_SPEED * level * time == if level >= 0 {
            speed * size * time
        } else {
            -(speed * size * time)
        }) by (nonlinear_arith)
            requires
                BOB_SPEED * level == if level >= 0 { speed * size } else { -(speed * size) },
        ;
    }
    let scaled: i64 = BOB_SPEED * level * (dt as i64);
    scaled / UNIT
}

/// Tells whether a coin can take the turn and the rise of one tick.
pub fn check_advance(coin: &Coin, dt: u32, wave: Sine) -> (fits: bool)
    ensures
        fits == can_advance(*coin, dt, wave@),
{
    let turn: i64 = SPIN_RATE * (dt as i64);
    let delta: i64 = rise(wave, dt);
    let angle_fits = coin.rotation_angle <= i64::MAX - turn;
    let height_fits = if delta >= 0 {
        coin.position.y <= i64::MAX - delta
    } else {
        coin.position.y >= i64::MIN - delta
    };
    angle_fits && height_fits
}

/// Animates one coin for a tick of `dt` microseconds. The coin turns by two
/// radians per second, and rises by three units per second times `wave`,
/// the sine of the bob's phase. Nothing else about the coin changes, and no
/// coin affects another. Only a tick that would carry the angle or the
/// height out of range is refused, and then the coin stays as it is.
pub fn advance(coin: &mut Coin, dt: u32, wave: Sine) -> (outcome: Result<(), SimError>)
    ensures
        can_advance(*old(coin), dt, wave@) ==> {
            &&& outcome is Ok
            &&& *final(coin) == advanced(*old(coin), dt, wave@)
            &&& final(coin).rotation_angle == old(coin).rotation_angle + SPIN_RATE * dt
            &&& final(coin).position.y == old(coin).position.y + bob(wave@, dt)
            &&& -(BOB_SPEED * dt) <= final(coin).position.y - old(coin).position.y <= BOB_SPEED
                * dt
        },
        !can_advance(*old(coin), dt, wave@) ==> {
            &&& outcome == Err::<(), SimError>(SimError::OutOfRange)
            &&& *final(coin) == *old(coin)
        },
{
    if !check_advance(coin, dt, wave) {
        return Err(SimError::OutOfRange);
    }
    let turn: i64 = SPIN_RATE * (dt as i64);
    let delta: i64 = rise(wave, dt);
    coin.rotation_angle = coin.rotation_angle + turn;
    coin.position.y = coin.position.y + delta;
    Ok(())
}

} // verus!
