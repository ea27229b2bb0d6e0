use coin_arcade::entities::{Coin, PlayerCube, Score};
use coin_arcade::error::SimError;
use coin_arcade::pickup_detector::resolve;
use coin_arcade::units::{cell_coordinate, Cell, Position, UNIT};

fn cube(x: i64, z: i64) -> PlayerCube {
    PlayerCube {
        position: Position { x, y: 2_500_000, z },
        half_extent_x: 2_500_000,
        half_extent_z: 2_500_000,
    }
}

fn coin(id: u64, x: i64, z: i64) -> Coin {
    Coin { id, position: Position { x, y: 2_000_000, z }, rotation_angle: 0, spawn_time: 0 }
}

#[test]
fn coordinates_round_up_to_whole_units() {
    assert_eq!(UNIT, 1_000_000);
    assert_eq!(cell_coordinate(0), 0);
    assert_eq!(cell_coordinate(1), 1);
    assert_eq!(cell_coordinate(400_000), 1);
    assert_eq!(cell_coordinate(999_999), 1);
    assert_eq!(cell_coordinate(1_000_000), 1);
    assert_eq!(cell_coordinate(1_000_001), 2);
    assert_eq!(cell_coordinate(-1), 0);
    assert_eq!(cell_coordinate(-999_999), 0);
    assert_eq!(cell_coordinate(-1_000_000), -1);
    assert_eq!(cell_coordinate(-1_000_001), -1);
    assert_eq!(cell_coordinate(-1_400_000), -1);
    assert_eq!(cell_coordinate(12_000_000), 12);
    assert_eq!(cell_coordinate(i64::MAX), 9_223_372_036_855);
    assert_eq!(cell_coordinate(i64::MIN), -9_223_372_036_854);
}

#[test]
fn cell_ignores_the_height() {
    let low = Position { x: 2_500_000, y: -40_000_000, z: -2_500_000 };
    let high = Position { x: 2_500_000, y: 40_000_000, z: -2_500_000 };
    assert_eq!(low.cell(), Cell { x: 3, z: -2 });
    assert_eq!(high.cell(), Cell { x: 3, z: -2 });
}

#[test]
fn cell_agrees_with_the_ceiling_of_the_real_coordinate() {
    let samples = [-10.0f64, -9.5, -0.000001, 0.0, 0.000001, 0.3, 0.4, 0.6, 1.0, 7.999999, 8.0];
    for x in samples {
        let fixed = (x * 1_000_000.0).round() as i64;
        assert_eq!(cell_coordinate(fixed), x.ceil() as i64);
    }
}

#[test]
fn both_axes_must_match() {
    let player = cube(600_000, 600_000);
    let mut coins = vec![coin(1, 400_000, 1_300_000), coin(2, 1_400_000, 300_000)];
    let before = coins.clone();
    let mut score = Score { value: 0 };
    assert_eq!(resolve(Some(&player), &mut coins, &mut score), Ok(vec![]));
    assert_eq!(coins, before);
    assert_eq!(score.value, 0);
}

#[test]
fn every_coin_in_the_cell_is_collected_at_once() {
    let player = cube(2_000_000, -4_000_000);
    let a = coin(10, 1_000_001, -4_999_999);
    let b = coin(11, 0, 0);
    let c = coin(12, 2_000_000, -4_000_000);
    let d = coin(13, 2_000_001, -4_000_000);
    let e = coin(14, 1_500_000, -4_500_000);
    let mut coins = vec![a, b, c, d, e];
    let mut score = Score { value: 5 };
    assert_eq!(resolve(Some(&player), &mut coins, &mut score), Ok(vec![a, c, e]));
    assert_eq!(coins, vec![b, d]);
    assert_eq!(score.value, 8);
}

#[test]
fn second_pickup_collects_nothing_more() {
    let player = cube(2_000_000, -4_000_000);
    let mut coins = vec![
        coin(1, 2_000_000, -4_000_000),
        coin(2, 4_000_000, -4_000_000),
        coin(3, 1_000_001, -4_999_999),
        coin(4, -2_000_000, 8_000_000),
    ];
    let mut score = Score { value: 0 };
    let first = resolve(Some(&player), &mut coins, &mut score).unwrap();
    assert_eq!(first.len(), 2);
    let after_first = coins.clone();
    assert_eq!(score.value, 2);
    assert_eq!(resolve(Some(&player), &mut coins, &mut score), Ok(vec![]));
    assert_eq!(coins, after_first);
    assert_eq!(score.value, 2);
}

#[test]
fn pickup_never_adds_a_coin() {
    let all: Vec<Coin> = (0..30)
        .map(|k| coin(k, (k as i64 % 5) * 700_000, (k as i64 % 3) * 900_000))
        .collect();
    let mut coins = all.clone();
    let mut score = Score { value: 0 };
    for (x, z) in [(0, 0), (600_000, 0), (1_200_000, 1_700_000), (2_700_000, 900_000)] {
        let before = coins.clone();
        let taken = resolve(Some(&cube(x, z)), &mut coins, &mut score).unwrap();
        assert_eq!(coins.len() + taken.len(), before.len());
        assert!(coins.iter().all(|c| before.contains(c)));
        assert!(taken.iter().all(|c| c.position.cell() == cube(x, z).position.cell()));
        assert!(coins.iter().all(|c| c.position.cell() != cube(x, z).position.cell()));
        assert_eq!(score.value as usize, all.len() - coins.len());
    }
}

#[test]
fn pickup_from_an_empty_world_is_fine() {
    let mut coins: Vec<Coin> = Vec::new();
    let mut score = Score { value: 9 };
    assert_eq!(resolve(Some(&cube(0, 0)), &mut coins, &mut score), Ok(vec![]));
    assert!(coins.is_empty());
    assert_eq!(score.value, 9);
}

#[test]
fn pickup_that_the_score_cannot_count_is_refused() {
    let player = cube(0, 0);
    let mut coins = vec![coin(1, 0, 0), coin(2, 5_000_000, 0), coin(3, -1, -1)];
    let before = coins.clone();
    let mut score = Score { value: u32::MAX - 1 };
    assert_eq!(resolve(Some(&player), &mut coins, &mut score), Err(SimError::OutOfRange));
    assert_eq!(coins, before);
    assert_eq!(score.value, u32::MAX - 1);
    let elsewhere = cube(5_000_000, 0);
    assert_eq!(resolve(Some(&elsewhere), &mut coins, &mut score), Ok(vec![before[1]]));
    assert_eq!(score.value, u32::MAX);
    assert_eq!(coins, vec![before[0], before[2]]);
}

#[test]
fn missing_player_comes_before_any_other_failure() {
    let mut coins = vec![coin(1, 0, 0)];
    let mut score = Score { value: u32::MAX };
    assert_eq!(resolve(None, &mut coins, &mut score), Err(SimError::MissingPlayer));
    assert_eq!(coins, vec![coin(1, 0, 0)]);
    assert_eq!(score.value, u32::MAX);
}
