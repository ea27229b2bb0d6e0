//! Steering: the held direction keys move the player cube.

use vstd::prelude::*;
use crate::entities::{InputState, PlayerCube};
use crate::error::SimError;
use crate::units::Position;

verus! {

/// The speed of the player cube in units per second, which is also
/// millionths of a unit per microsecond.
pub const SPEED: i64 = 10;

/// The distance covered along one axis in `dt` microseconds.
pub open spec fn step_length(dt: u32) -> int {
    SPEED * dt
}

/// The signed distance travelled along one axis: one step for the key that
/// points up the axis, less one step for the key that points down it.
pub open spec fn axis_travel(down: bool, up: bool, dt: u32) -> int {
    (if up { step_length(dt) } else { 0 }) - (if down { step_length(dt) } else { 0 })
}

/// Whether a coordinate can take the steps of one tick. The step down the
/// axis is taken first, so it must fit by itself, and so must the outcome.
pub open spec fn axis_fits(start: i64, down: bool, up: bool, dt: u32) -> bool {
    &&& down ==> i64::MIN <= start - step_length(dt)
    &&& i64::MIN <= start + axis_travel(down, up, dt) <= i64::MAX
}

/// Whether the cube can take the steps of one tick on both axes.
pub open spec fn can_update(player: PlayerCube, input: InputState, dt: u32) -> bool {
    &&& axis_fits(player.position.x, input.left, input.right, dt)
    &&& axis_fits(player.position.z, input.forward, input.backward, dt)
}

/// The cube after one tick of steering.
pub open spec fn moved(player: PlayerCube, input: InputState, dt: u32) -> PlayerCube {
    PlayerCube {
        position: Position {
            x: (player.position.x + axis_travel(input.left, input.right, dt)) as i64,
            y: player.position.y,
            z: (player.position.z + axis_travel(input.forward, input.backward, dt)) as i64,
        },
        half_extent_x: player.half_extent_x,
        half_extent_z: player.half_extent_z,
    }
}

/// The distance travelled along an axis is the sum of one signed step for
/// each held key of that axis. Held together, the two keys of an axis cancel:
/// the cube ends the tick where it began on that axis.
pub proof fn lemma_opposite_keys_cancel(player: PlayerCube, input: InputState, dt: u32)
    ensures
        axis_travel(input.left, input.right, dt) == (if input.right {
            SPEED * dt
        } else {
            0
        }) + (if input.left {
            -(SPEED * dt)
        } else {
            0
        }),
        axis_travel(input.forward, input.backward, dt) == (if input.backward {
            SPEED * dt
        } else {
            0
        }) + (if input.forward {
            -(SPEED * dt)
        } else {
            0
        }),
        input.left && input.right ==> moved(player, input, dt).position.x == player.position.x,
        input.forward && input.backward ==> moved(player, input, dt).position.z
            == player.position.z,
        input.left == input.right && input.forward == input.backward ==> moved(player, input, dt)
            == player,
{
}

fn step_fits(start: i64, down: bool, up: bool, dt: u32) -> (fits: bool)
    ensures
        fits == axis_fits(start, down, up, dt),
{
    let step: i64 = SPEED * (dt as i64);
    if down {
        start >= i64::MIN + step
    } else if up {
        start <= i64::MAX - step
    } else {
        true
    }
}

/// Tells whether the cube can take the steps of one tick.
pub fn check_update(player: &PlayerCube, input: InputState, dt: u32) -> (fits: bool)
    ensures
        fits == can_update(*player, input, dt),
{
    step_fits(player.position.x, input.left, input.right, dt) && step_fits(
        player.position.z,
        input.forward,
        input.backward,
        dt,
    )
}

/// Moves the player cube for a tick of `dt` microseconds. Each held key
/// shifts the cube by one step: left and right along `x`, forward and
/// backward along `z`, the step down the axis first. Nothing keeps the cube
/// on the ground plane; only a step that would leave the range of a
/// coordinate is refused, and then the cube stays where it is.
pub fn update(player: &mut PlayerCube, input: InputState, dt: u32) -> (outcome: Result<
    (),
    SimError,
>)
    ensures
        can_update(*old(player), input, dt) ==> {
            &&& outcome is Ok
            &&& *final(player) == moved(*old(player), input, dt)
            &&& final(player).position.x == old(player).position.x + axis_travel(
                input.left,
                input.right,
                dt,
            )
            &&& final(player).position.z == old(player).position.z + axis_travel(
                input.forward,
                input.backward,
                dt,
            )
        },
        !can_update(*old(player), input, dt) ==> {
            &&& outcome == Err::<(), SimError>(SimError::OutOfRange)
            &&& *final(player) == *old(player)
        },
{
    if !check_update(player, input, dt) {
        return Err(SimError::OutOfRange);
    }
    let step: i64 = SPEED * (dt as i64);
    if input.left {
        player.position.x = player.position.x - step;
    }
    if input.right {
        player.position.x = player.position.x + step;
    }
    if input.forward {
        player.position.z = player.position.z - step;
    }
    if input.backward {
        player.position.z = player.position.z + step;
    }
    Ok(())
}

} // verus!
