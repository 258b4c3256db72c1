use asteroids::mobs::Enemy;
use asteroids::physics::{CollisionEvent, Vec2};
use asteroids::player::{
    handle_player_collision, setup_player, ship_warp, single_player, MoveKeys, SingletonError, Thrust,
    WindowSize,
};

fn enemy(id: u64, damage: u32) -> Enemy {
    Enemy {
        id,
        health: 100,
        collision_damage: damage,
        position: Vec2::new(0, 0),
        impulse: Vec2::new(0, 0),
        size: 150,
        radius: 30,
    }
}

#[test]
fn heavy_collision_defeats_player_once() {
    let mut player = setup_player(1);
    assert_eq!(player.position, Vec2::new(0, 0));
    assert_eq!(player.health_max, 500);
    assert_eq!(player.health_current, 500);
    let mut enemies = vec![enemy(2, 600), enemy(3, 10)];
    let defeated = handle_player_collision(&mut player, &mut enemies, &vec![CollisionEvent::Started(2, 1)]);
    assert!(defeated);
    assert_eq!(player.health_current, -100);
    assert!(!player.visible);
    assert_eq!(enemies.len(), 1);
    let again = handle_player_collision(&mut player, &mut enemies, &vec![CollisionEvent::Started(1, 3)]);
    assert!(!again);
    assert_eq!(player.health_current, -110);
    assert!(enemies.is_empty());
}

#[test]
fn light_collisions_only_hurt() {
    let mut player = setup_player(1);
    let mut enemies = vec![enemy(2, 10), enemy(3, 20)];
    let evs = vec![CollisionEvent::Started(1, 2), CollisionEvent::Started(3, 4), CollisionEvent::Started(3, 1)];
    assert!(!handle_player_collision(&mut player, &mut enemies, &evs));
    assert_eq!(player.health_current, 470);
    assert!(player.visible);
    assert!(enemies.is_empty());
}

#[test]
fn health_display_clamps_at_zero() {
    let mut player = setup_player(1);
    player.health_current = 250;
    assert_eq!(player.displayed_health(), 250);
    assert_eq!(player.health_percent(), Some(50));
    player.health_current = -100;
    assert_eq!(player.displayed_health(), 0);
    assert_eq!(player.health_percent(), Some(0));
    player.health_max = 0;
    assert_eq!(player.health_percent(), None);
}

#[test]
fn thrust_follows_keys() {
    let player = setup_player(1);
    let c = Some(Vec2::new(100, 0));
    let none = MoveKeys { forward: false, strafe_left: false, strafe_right: false };
    assert_eq!(player.modify_player_translation(c, none), None);
    let fwd = MoveKeys { forward: true, ..none };
    assert_eq!(player.modify_player_translation(c, fwd), Some(Thrust { direction: Vec2::new(100, 0), magnitude: 150 }));
    let left = MoveKeys { strafe_left: true, ..fwd };
    assert_eq!(player.modify_player_translation(c, left), Some(Thrust { direction: Vec2::new(0, 100), magnitude: 30 }));
    let right = MoveKeys { strafe_right: true, ..left };
    assert_eq!(player.modify_player_translation(c, right), Some(Thrust { direction: Vec2::new(0, -100), magnitude: 30 }));
    assert_eq!(player.modify_player_translation(None, right), None);
}

#[test]
fn bodies_wrap_around_the_window() {
    let win = WindowSize::from_window(1920, 1080);
    let cam = Vec2::new(0, 0);
    assert_eq!(ship_warp(Vec2::new(7, 600), 50, 50, cam, &win), Vec2::new(7, -540));
    assert_eq!(ship_warp(Vec2::new(7, 585), 50, 50, cam, &win), Vec2::new(7, 585));
    assert_eq!(ship_warp(Vec2::new(7, -600), 50, 50, cam, &win), Vec2::new(7, 540));
    assert_eq!(ship_warp(Vec2::new(1100, 3), 50, 50, cam, &win), Vec2::new(-960, 3));
    assert_eq!(ship_warp(Vec2::new(-1100, 3), 50, 50, Vec2::new(100, 0), &win), Vec2::new(1060, 3));
}

#[test]
fn resize_updates_play_field() {
    let mut win = WindowSize::from_window(1920, 1080);
    win.update_winsize(800, 601);
    assert_eq!(win, WindowSize { left_wall: -400, right_wall: 400, top_wall: 300, bottom_wall: -300 });
}

#[test]
fn player_lookup_needs_exactly_one() {
    assert_eq!(single_player(&vec![]), Err(SingletonError::MissingSingleton));
    let p = setup_player(4);
    assert_eq!(single_player(&vec![p]), Ok(p));
    assert_eq!(single_player(&vec![p, p]), Err(SingletonError::MultipleEntities));
}

#[test]
fn defeat_needs_a_matched_collision() {
    let mut player = setup_player(1);
    player.health_current = -5;
    let mut enemies = vec![enemy(2, 10)];
    let none = handle_player_collision(&mut player, &mut enemies, &vec![CollisionEvent::Started(1, 9)]);
    assert!(!none);
    assert!(player.visible);
    assert_eq!(enemies.len(), 1);
    let hit = handle_player_collision(&mut player, &mut enemies, &vec![CollisionEvent::Started(2, 1)]);
    assert!(hit);
    assert!(!player.visible);
    assert_eq!(player.health_current, -15);
}
