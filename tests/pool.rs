use asteroids::guns::{
    setup_projectiles, shot_impulse, upgrade_weapon, PoolError, ProjectilePool, ShootingCooldown, BALL_SIZE,
    OFFSCREEN_X, PROJECTILE_LIMIT, STARTUP_Y,
};
use asteroids::physics::{Vec2, Velocity};

fn counts_add_up(pool: &ProjectilePool) {
    assert_eq!(pool.visible_count() + pool.hidden_count(), pool.capacity());
}

#[test]
fn startup_pool_is_all_hidden() {
    let pool = setup_projectiles(100);
    assert_eq!(pool.capacity(), PROJECTILE_LIMIT);
    assert_eq!(pool.capacity(), 40);
    assert_eq!(pool.visible_count(), 0);
    assert_eq!(pool.hidden_count(), 40);
    let p = pool.slot(3);
    assert_eq!(p.id, 103);
    assert_eq!(p.damage, 10);
    assert!(!p.visible);
    assert_eq!(p.position, Vec2::new(OFFSCREEN_X, STARTUP_Y));
    assert_eq!(p.position, Vec2::new(10000, 10000));
}

#[test]
fn acquire_takes_lowest_hidden_until_exhausted() {
    let mut pool = setup_projectiles(0);
    assert_eq!(pool.acquire(), Ok(0));
    assert_eq!(pool.acquire(), Ok(1));
    pool.release(0);
    assert_eq!(pool.acquire(), Ok(0));
    for _ in 2..40 {
        assert!(pool.acquire().is_ok());
        counts_add_up(&pool);
    }
    assert_eq!(pool.visible_count(), 40);
    assert_eq!(pool.acquire(), Err(PoolError::PoolExhausted));
    assert_eq!(pool.visible_count(), 40);
    counts_add_up(&pool);
}

#[test]
fn release_parks_slot_at_rest() {
    let mut pool = setup_projectiles(0);
    assert_eq!(pool.acquire(), Ok(0));
    pool.set_velocity(0, Velocity::linear(Vec2::new(300, 40)));
    pool.release(0);
    let p = pool.slot(0);
    assert!(!p.visible);
    assert_eq!(p.velocity, Velocity::zero());
    assert_eq!(p.position, Vec2::new(10000, 100000));
}

#[test]
fn slow_projectiles_are_recycled() {
    let mut pool = setup_projectiles(0);
    pool.acquire().unwrap();
    pool.acquire().unwrap();
    pool.acquire().unwrap();
    pool.set_velocity(0, Velocity::linear(Vec2::new(24, -24)));
    pool.set_velocity(1, Velocity::linear(Vec2::new(25, 0)));
    pool.set_velocity(2, Velocity::linear(Vec2::new(0, -300)));
    pool.despawn_projectile();
    assert!(!pool.slot(0).visible);
    assert!(pool.slot(1).visible);
    assert!(pool.slot(2).visible);
    assert_eq!(pool.visible_count(), 2);
    counts_add_up(&pool);
}

#[test]
fn shooting_respects_cooldown_cursor_and_trigger() {
    let mut pool = setup_projectiles(0);
    let mut cd = ShootingCooldown::new(1000);
    let player = Vec2::new(10, 20);
    let cursor = Some(Vec2::new(110, 20));
    assert_eq!(pool.shoot_projectile(player, cursor, true, 1100, &mut cd), None);
    assert_eq!(pool.shoot_projectile(player, cursor, false, 1300, &mut cd), None);
    assert_eq!(pool.shoot_projectile(player, None, true, 1300, &mut cd), None);
    assert_eq!(pool.visible_count(), 0);
    assert_eq!(pool.shoot_projectile(player, cursor, true, 1200, &mut cd), Some(0));
    assert_eq!(cd.last_shot_ms, 1200);
    let p = pool.slot(0);
    assert!(p.visible);
    assert_eq!(p.position, player);
    assert_eq!(p.size, BALL_SIZE);
    assert_eq!(p.impulse.impulse, Vec2::new(10000, 0));
    assert_eq!(pool.shoot_projectile(player, cursor, true, 1300, &mut cd), None);
    assert_eq!(pool.shoot_projectile(player, cursor, true, 1400, &mut cd), Some(1));
}

#[test]
fn shooting_with_full_pool_does_nothing() {
    let mut pool = setup_projectiles(0);
    for _ in 0..40 {
        pool.acquire().unwrap();
    }
    let mut cd = ShootingCooldown::new(0);
    let r = pool.shoot_projectile(Vec2::new(0, 0), Some(Vec2::new(1, 1)), true, 5000, &mut cd);
    assert_eq!(r, None);
    assert_eq!(cd.last_shot_ms, 0);
}

#[test]
fn blade_upgrade_and_level_modifier() {
    let mut pool = setup_projectiles(0);
    pool.apply_blade_event(upgrade_weapon(true).unwrap());
    let p = pool.slot(5);
    assert_eq!(p.damage, 11);
    assert_eq!(p.size, 36);
    assert_eq!(p.impulse.torque_impulse, 1);
    assert_eq!(upgrade_weapon(false), None);
    let mut pool = setup_projectiles(0);
    pool.handle_projectile_mod();
    assert_eq!(pool.slot(0).damage, 12);
    pool.handle_projectile_mod();
    assert_eq!(pool.slot(39).damage, 14);
}

#[test]
fn shot_push_has_fixed_strength() {
    assert_eq!(shot_impulse(Vec2::new(3, 4)), Vec2::new(6000, 8000));
    assert_eq!(shot_impulse(Vec2::new(-3, -4)), Vec2::new(-6000, -8000));
    assert_eq!(shot_impulse(Vec2::new(1, 1)), Vec2::new(7071, 7071));
    assert_eq!(shot_impulse(Vec2::new(0, -250)), Vec2::new(0, -10000));
    assert_eq!(shot_impulse(Vec2::new(0, 0)), Vec2::new(0, 0));
}

#[test]
fn shot_from_player_towards_cursor() {
    let mut pool = setup_projectiles(0);
    let mut cd = ShootingCooldown::new(0);
    let r = pool.shoot_projectile(Vec2::new(10, 10), Some(Vec2::new(13, 14)), true, 500, &mut cd);
    assert_eq!(r, Some(0));
    assert_eq!(pool.slot(0).impulse.impulse, Vec2::new(6000, 8000));
}
