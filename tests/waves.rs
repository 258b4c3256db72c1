use asteroids::constants::{LEFT_WALL, RIGHT_WALL};
use asteroids::mobs::{spawn_enemy, spawn_wave, wave_due, CurrentWave, Enemy, SpawnDraw};
use asteroids::physics::Vec2;
use asteroids::player::WindowSize;

fn check_spawns(enemies: &[Enemy], first_id: u64) {
    for (k, e) in enemies.iter().enumerate() {
        assert_eq!(e.id, first_id + k as u64);
        assert_eq!(e.health, 100);
        assert_eq!(e.collision_damage, 10);
        let x = e.position.x;
        assert!((-1152..-960).contains(&x) || (960..1152).contains(&x));
        assert!((-1000..1000).contains(&e.position.y));
    }
}

#[test]
fn waves_fire_in_order_once_each() {
    let win = WindowSize::from_window(1920, 1080);
    let mut wave = CurrentWave::new();
    let mut enemies: Vec<Enemy> = Vec::new();
    let mut next_id: u64 = 500;
    let p = Vec2::new(0, 0);
    assert_eq!(spawn_wave(&mut wave, 10000, p, &win, &mut enemies, &mut next_id), 0);
    assert_eq!(wave.0, 1);
    assert_eq!(spawn_wave(&mut wave, 10001, p, &win, &mut enemies, &mut next_id), 40);
    assert_eq!(wave.0, 2);
    assert_eq!(spawn_wave(&mut wave, 10002, p, &win, &mut enemies, &mut next_id), 0);
    assert_eq!(spawn_wave(&mut wave, 60001, p, &win, &mut enemies, &mut next_id), 60);
    assert_eq!(spawn_wave(&mut wave, 90000, p, &win, &mut enemies, &mut next_id), 0);
    assert_eq!(spawn_wave(&mut wave, 90001, p, &win, &mut enemies, &mut next_id), 80);
    assert_eq!(wave.0, 4);
    assert_eq!(spawn_wave(&mut wave, 999999, p, &win, &mut enemies, &mut next_id), 0);
    assert_eq!(wave.0, 4);
    assert_eq!(enemies.len(), 180);
    assert_eq!(next_id, 680);
    check_spawns(&enemies, 500);
    assert_eq!(enemies[0].size, 150);
    assert_eq!(enemies[40].size, 250);
    assert_eq!(enemies[100].radius, 40);
}

#[test]
fn late_start_fires_only_the_pending_wave() {
    let win = WindowSize::from_window(1920, 1080);
    let mut wave = CurrentWave::new();
    let mut enemies: Vec<Enemy> = Vec::new();
    let mut next_id: u64 = 0;
    let n = spawn_wave(&mut wave, 120000, Vec2::new(5, 5), &win, &mut enemies, &mut next_id);
    assert_eq!(n, 40);
    assert_eq!(wave.0, 2);
}

#[test]
fn spawn_push_points_at_player() {
    let win = WindowSize::from_window(1920, 1080);
    let mut wave = CurrentWave(1);
    let mut enemies: Vec<Enemy> = Vec::new();
    let mut next_id: u64 = 0;
    spawn_wave(&mut wave, 20000, Vec2::new(5000, 0), &win, &mut enemies, &mut next_id);
    for e in &enemies {
        assert!(e.impulse.x >= 80 && e.impulse.x <= 120);
    }
}

#[test]
fn wave_thresholds() {
    assert!(wave_due(1, 10000).is_none());
    assert_eq!(wave_due(1, 10001).unwrap().count, 40);
    assert!(wave_due(2, 59999).is_none());
    assert_eq!(wave_due(2, 60001).unwrap().count, 60);
    assert!(wave_due(3, 90000).is_none());
    assert_eq!(wave_due(3, 90001).unwrap().count, 80);
    assert!(wave_due(4, 1000000).is_none());
}

#[test]
fn default_window_matches_walls() {
    let win = WindowSize::from_window(1920, 1080);
    assert_eq!(win.left_wall, LEFT_WALL);
    assert_eq!(win.right_wall, RIGHT_WALL);
    assert_eq!(win.top_wall, 540);
    assert_eq!(win.bottom_wall, -540);
}

#[test]
fn enemy_from_a_given_draw() {
    let pf = wave_due(1, 20000).unwrap();
    let e = spawn_enemy(pf, 42, Vec2::new(100, -60), SpawnDraw { rx: -900, ry: 40, x: -1000 });
    assert_eq!(e.id, 42);
    assert_eq!(e.position, Vec2::new(-1000, 40));
    assert_eq!(e.impulse, Vec2::new(20, -2));
    assert_eq!(e.health, 100);
    assert_eq!(e.collision_damage, 10);
    assert_eq!(e.size, 150);
    assert_eq!(e.radius, 30);
}
