use coin_arcade::coin_animator::Sine;
use coin_arcade::entities::{Coin, InputState, PlayerCube, Score};
use coin_arcade::error::SimError;
use coin_arcade::pickup_detector::resolve;
use coin_arcade::player_controller::update;
use coin_arcade::units::{Cell, Position};
use coin_arcade::world::World;

fn millionths(units: f64) -> i64 {
    (units * 1_000_000.0).round() as i64
}

fn cube_at(x: f64, z: f64) -> PlayerCube {
    PlayerCube {
        position: Position { x: millionths(x), y: millionths(2.5), z: millionths(z) },
        half_extent_x: millionths(2.5),
        half_extent_z: millionths(2.5),
    }
}

fn coin_at(id: u64, x: f64, y: f64, z: f64) -> Coin {
    Coin {
        id,
        position: Position { x: millionths(x), y: millionths(y), z: millionths(z) },
        rotation_angle: 0,
        spawn_time: 0,
    }
}

fn keys(left: bool, right: bool, forward: bool, backward: bool) -> InputState {
    InputState { left, right, forward, backward }
}

#[test]
fn player_at_origin_misses_coin_in_next_cell() {
    let player = cube_at(0.0, 0.0);
    let coin = coin_at(7, 0.4, 2.0, 0.3);
    assert_eq!(player.position.cell(), Cell { x: 0, z: 0 });
    assert_eq!(coin.position.cell(), Cell { x: 1, z: 1 });
    let mut coins = vec![coin];
    let mut score = Score { value: 0 };
    let taken = resolve(Some(&player), &mut coins, &mut score);
    assert_eq!(taken, Ok(vec![]));
    assert_eq!(coins, vec![coin]);
    assert_eq!(score.value, 0);
}

#[test]
fn player_in_coin_cell_collects_it() {
    let player = cube_at(0.6, 0.6);
    let coin = coin_at(7, 0.4, 2.0, 0.3);
    assert_eq!(player.position.cell(), Cell { x: 1, z: 1 });
    let mut coins = vec![coin];
    let mut score = Score { value: 0 };
    let taken = resolve(Some(&player), &mut coins, &mut score);
    assert_eq!(taken, Ok(vec![coin]));
    assert!(coins.is_empty());
    assert_eq!(score.value, 1);
}

#[test]
fn sweeping_the_grid_collects_every_coin() {
    let mut world = World::new();
    assert_eq!(world.live_coin_count(), 100);
    assert_eq!(world.score().value, 0);
    let step: u32 = 200_000;
    let wave = Sine::new(1_000_000).unwrap();
    let mut drive = |world: &mut World, input: InputState, times: usize| {
        for _ in 0..times {
            let before = world.live_coin_count();
            let taken = world.tick(input, step, wave).unwrap();
            assert_eq!(world.live_coin_count() + taken.len(), before);
            assert_eq!(
                world.score().value as usize,
                world.initial_coin_count() as usize - world.live_coin_count()
            );
        }
    };
    drive(&mut world, keys(false, false, true, false), 5);
    assert_eq!(world.player().position.cell(), Cell { x: 12, z: -10 });
    assert_eq!(world.live_coin_count(), 100);
    drive(&mut world, keys(true, false, false, false), 2);
    assert_eq!(world.player().position.cell(), Cell { x: 8, z: -10 });
    assert_eq!(world.live_coin_count(), 99);
    for row in 0..10 {
        let along = if row % 2 == 0 {
            keys(true, false, false, false)
        } else {
            keys(false, true, false, false)
        };
        drive(&mut world, along, 9);
        assert_eq!(world.live_coin_count(), 100 - 10 * (row + 1));
        if row < 9 {
            drive(&mut world, keys(false, false, false, true), 1);
        }
    }
    assert_eq!(world.live_coin_count(), 0);
    assert_eq!(world.score().value, 100);
    assert!(world.coins().is_empty());
    drive(&mut world, keys(false, true, false, false), 3);
    assert_eq!(world.score().value, 100);
}

#[test]
fn left_and_right_together_leave_x_unchanged() {
    let mut player = cube_at(12.0, 0.0);
    let before = player;
    let outcome = update(&mut player, keys(true, true, false, false), 100_000);
    assert_eq!(outcome, Ok(()));
    assert_eq!(player.position.x, before.position.x);
    assert_eq!(player, before);
    let shown = player.position.x as f64 / 1_000_000.0;
    assert!((shown - 12.0).abs() <= 1e-6);
}

#[test]
fn pickup_without_a_player_fails() {
    let coin = coin_at(1, 0.0, 2.0, 0.0);
    let mut coins = vec![coin];
    let mut score = Score { value: 4 };
    let outcome = resolve(None, &mut coins, &mut score);
    assert_eq!(outcome, Err(SimError::MissingPlayer));
    assert_eq!(coins, vec![coin]);
    assert_eq!(score.value, 4);
}
