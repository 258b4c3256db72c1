use asteroids::mobs::{exp_pull_system, ExperienceShard};
use asteroids::physics::{Vec2, Velocity};
use asteroids::player::setup_player;

fn shard(x: i32, y: i32, value: u64) -> ExperienceShard {
    ExperienceShard { value, position: Vec2::new(x, y), velocity: Velocity::linear(Vec2::new(7, 7)) }
}

#[test]
fn shards_are_absorbed_pulled_or_left() {
    let mut player = setup_player(1);
    let mut shards = vec![shard(10, 0, 10), shard(50, 0, 10), shard(100, 0, 10), shard(0, -39, 5)];
    let ups = exp_pull_system(&mut player, &mut shards);
    assert!(ups.is_empty());
    assert_eq!(player.exp_current, 15);
    assert_eq!(shards.len(), 2);
    assert_eq!(shards[0].position, Vec2::new(50, 0));
    assert_eq!(shards[0].velocity.linvel, Vec2::new(-250, 0));
    assert_eq!(shards[1].velocity.linvel, Vec2::new(7, 7));
}

#[test]
fn a_shard_is_credited_once() {
    let mut player = setup_player(1);
    let mut shards = vec![shard(3, 4, 10)];
    exp_pull_system(&mut player, &mut shards);
    assert_eq!(player.exp_current, 10);
    assert!(shards.is_empty());
    exp_pull_system(&mut player, &mut shards);
    assert_eq!(player.exp_current, 10);
}

#[test]
fn crossing_the_threshold_gains_one_level() {
    let mut player = setup_player(1);
    player.exp_current = 1000;
    let mut shards = vec![shard(0, 0, 10)];
    let ups = exp_pull_system(&mut player, &mut shards);
    assert_eq!(ups.len(), 1);
    assert_eq!(player.level, 2);
    assert_eq!(player.exp_max, 1200);
    assert_eq!(player.exp_current, 1010);
}

#[test]
fn reaching_the_threshold_exactly_is_not_enough() {
    let mut player = setup_player(1);
    player.exp_current = 990;
    let mut shards = vec![shard(0, 0, 10)];
    let ups = exp_pull_system(&mut player, &mut shards);
    assert!(ups.is_empty());
    assert_eq!(player.level, 1);
    assert_eq!(player.exp_max, 1000);
}

#[test]
fn one_large_shard_gains_a_single_level() {
    let mut player = setup_player(1);
    assert!(player.absorb(5000));
    assert_eq!(player.level, 2);
    assert_eq!(player.exp_max, 1200);
    assert!(player.absorb(1));
    assert_eq!(player.level, 3);
    assert_eq!(player.exp_max, 1440);
}
