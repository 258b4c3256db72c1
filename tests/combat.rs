use asteroids::guns::setup_projectiles;
use asteroids::mobs::{kill_on_contact, Enemy, ExperienceShard, SHARD_VALUE};
use asteroids::physics::{CollisionEvent, Vec2, Velocity};

fn enemy(id: u64, health: i64) -> Enemy {
    Enemy {
        id,
        health,
        collision_damage: 10,
        position: Vec2::new(300, -40),
        impulse: Vec2::new(0, 0),
        size: 150,
        radius: 30,
    }
}

#[test]
fn hit_damages_bounces_and_drops_a_shard() {
    let mut pool = setup_projectiles(100);
    pool.set_velocity(2, Velocity::linear(Vec2::new(50, 400)));
    let mut enemies = vec![enemy(1, 100), enemy(2, 100)];
    let mut shards: Vec<ExperienceShard> = Vec::new();
    kill_on_contact(&mut pool, &mut enemies, &mut shards, &vec![CollisionEvent::Started(2, 102)]);
    assert_eq!(enemies[0].health, 100);
    assert_eq!(enemies[1].health, 90);
    assert_eq!(pool.slot(2).velocity.linvel, Vec2::new(50, -400));
    assert_eq!(shards.len(), 1);
    assert_eq!(shards[0].value, SHARD_VALUE);
    assert_eq!(shards[0].position, Vec2::new(300, -40));
    let v = shards[0].velocity.linvel;
    assert!(-100 <= v.x && v.x < 100 && -100 <= v.y && v.y < 100);
}

#[test]
fn repeated_hits_remove_enemy_only_below_zero() {
    let mut pool = setup_projectiles(100);
    let mut enemies = vec![enemy(1, 100)];
    let mut shards: Vec<ExperienceShard> = Vec::new();
    let ten: Vec<CollisionEvent> = (0..10).map(|k| CollisionEvent::Started(100 + k, 1)).collect();
    kill_on_contact(&mut pool, &mut enemies, &mut shards, &ten);
    assert_eq!(enemies.len(), 1);
    assert_eq!(enemies[0].health, 0);
    assert_eq!(shards.len(), 10);
    kill_on_contact(&mut pool, &mut enemies, &mut shards, &vec![CollisionEvent::Started(1, 100)]);
    assert!(enemies.is_empty());
    assert_eq!(shards.len(), 11);
}

#[test]
fn two_projectiles_on_one_enemy_in_one_tick() {
    let mut pool = setup_projectiles(100);
    let mut enemies = vec![enemy(7, 15)];
    let mut shards: Vec<ExperienceShard> = Vec::new();
    let evs = vec![CollisionEvent::Started(100, 7), CollisionEvent::Started(7, 101)];
    kill_on_contact(&mut pool, &mut enemies, &mut shards, &evs);
    assert!(enemies.is_empty());
    assert_eq!(shards.len(), 2);
}

#[test]
fn unmatched_events_are_ignored() {
    let mut pool = setup_projectiles(100);
    let mut enemies = vec![enemy(7, 50)];
    let mut shards: Vec<ExperienceShard> = Vec::new();
    let evs = vec![
        CollisionEvent::Started(100, 8),
        CollisionEvent::Started(9, 7),
        CollisionEvent::Stopped(100, 7),
        CollisionEvent::Started(100, 101),
    ];
    kill_on_contact(&mut pool, &mut enemies, &mut shards, &evs);
    assert_eq!(enemies[0].health, 50);
    assert!(shards.is_empty());
}
