use asteroids::game_ui::{
    apply_levelup_menu_button_system, apply_pause_menu_button_system, change_mode, pause_system,
    save_velocity_system, Body, GameRuntime, GameState, Interaction, LevelUpButtons, ModeEvent,
    PauseButtons, VelocityStorage,
};
use asteroids::physics::{ExternalImpulse, Vec2, Velocity};
use asteroids::state;

fn body(id: u64, x: i32, y: i32) -> Body {
    Body {
        id,
        velocity: Velocity { linvel: Vec2::new(x, y), angvel: 2 },
        impulse: ExternalImpulse { impulse: Vec2::new(1, 1), torque_impulse: 3 },
    }
}

#[test]
fn pause_round_trip_restores_velocities() {
    let mut bodies = vec![body(1, 3, 4), body(2, -5, 6)];
    let mut store = VelocityStorage::new();
    save_velocity_system(&mut bodies, GameState::Paused, true, &mut store);
    for b in &bodies {
        assert_eq!(b.velocity, Velocity::zero());
        assert_eq!(b.impulse, ExternalImpulse::zero());
    }
    assert_eq!(store.get(1), Some(Velocity { linvel: Vec2::new(3, 4), angvel: 2 }));
    bodies.push(body(9, 8, 8));
    save_velocity_system(&mut bodies, GameState::Playing, true, &mut store);
    assert_eq!(bodies[0].velocity.linvel, Vec2::new(3, 4));
    assert_eq!(bodies[1].velocity.linvel, Vec2::new(-5, 6));
    assert_eq!(bodies[2].velocity, Velocity::zero());
}

#[test]
fn no_change_or_start_menu_leaves_bodies() {
    let mut bodies = vec![body(1, 3, 4)];
    let mut store = VelocityStorage::new();
    save_velocity_system(&mut bodies, GameState::Paused, false, &mut store);
    save_velocity_system(&mut bodies, GameState::StartMenu, true, &mut store);
    assert_eq!(bodies[0], body(1, 3, 4));
    assert_eq!(store.get(1), None);
    save_velocity_system(&mut bodies, GameState::LevelingUp, true, &mut store);
    assert_eq!(bodies[0].velocity, Velocity::zero());
    assert_eq!(store.get(1).unwrap().linvel, Vec2::new(3, 4));
}

#[test]
fn pause_key_toggles_mode_and_clock() {
    let mut rt = GameRuntime::new();
    rt.tick(16);
    assert_eq!(rt.elapsed_ms, 16);
    assert_eq!(pause_system(GameState::Playing, false, &mut rt), GameState::Playing);
    let s = pause_system(GameState::Playing, true, &mut rt);
    assert_eq!(s, GameState::Paused);
    rt.tick(1000);
    assert_eq!(rt.elapsed_ms, 16);
    let s = pause_system(s, true, &mut rt);
    assert_eq!(s, GameState::Playing);
    rt.tick(4);
    assert_eq!(rt.elapsed_ms, 20);
    assert_eq!(pause_system(GameState::LevelingUp, true, &mut rt), GameState::Paused);
}

#[test]
fn mode_transitions() {
    assert_eq!(GameState::default(), GameState::Playing);
    assert_eq!(GameState::Playing.next(ModeEvent::LevelUp), GameState::LevelingUp);
    assert_eq!(GameState::Paused.next(ModeEvent::LevelUp), GameState::Paused);
    assert_eq!(GameState::LevelingUp.next(ModeEvent::UpgradeChosen), GameState::Playing);
    assert_eq!(GameState::Paused.next(ModeEvent::Resume), GameState::Playing);
    assert_eq!(GameState::StartMenu.next(ModeEvent::Resume), GameState::StartMenu);
}

#[test]
fn pause_menu_buttons() {
    let idle = vec![(Interaction::Hovered, PauseButtons::Resume), (Interaction::Idle, PauseButtons::Exit)];
    let out = apply_pause_menu_button_system(GameState::Paused, &idle);
    assert_eq!(out.state, GameState::Paused);
    assert!(!out.exit);
    let resume = vec![(Interaction::Idle, PauseButtons::Exit), (Interaction::Pressed, PauseButtons::Resume)];
    assert_eq!(apply_pause_menu_button_system(GameState::Paused, &resume).state, GameState::Playing);
    let exit = vec![(Interaction::Pressed, PauseButtons::Exit)];
    assert!(apply_pause_menu_button_system(GameState::Paused, &exit).exit);
}

#[test]
fn levelup_menu_returns_to_play() {
    let none = vec![(Interaction::Hovered, LevelUpButtons::OptionOne)];
    assert_eq!(apply_levelup_menu_button_system(GameState::LevelingUp, &none), GameState::LevelingUp);
    let pick = vec![(Interaction::Idle, LevelUpButtons::OptionOne), (Interaction::Pressed, LevelUpButtons::OptionThree)];
    assert_eq!(apply_levelup_menu_button_system(GameState::LevelingUp, &pick), GameState::Playing);
}

#[test]
fn checkpoint_and_restore() {
    let mut g = state::GameState::default();
    assert!(!g.restore_checkpoint());
    assert_eq!(g.level, 1);
    g.tutorial = true;
    g.checkpoint();
    assert!(g.checkpoint_notification);
    g.tutorial = false;
    g.level = 7;
    assert!(g.restore_checkpoint());
    assert!(g.tutorial);
    assert_eq!(g.level, 7);
    assert!(!g.checkpoint_notification);
    assert!(g.checkpoint.is_some());
    let c = g.clone();
    assert_eq!(c.level, 7);
}

#[test]
fn levelling_up_stops_the_clock() {
    let mut rt = GameRuntime::new();
    rt.tick(100);
    let s = change_mode(GameState::Playing, ModeEvent::LevelUp, &mut rt);
    assert_eq!(s, GameState::LevelingUp);
    assert!(rt.paused);
    rt.tick(500);
    assert_eq!(rt.elapsed_ms, 100);
    let s = change_mode(s, ModeEvent::UpgradeChosen, &mut rt);
    assert_eq!(s, GameState::Playing);
    assert!(!rt.paused);
    rt.tick(5);
    assert_eq!(rt.elapsed_ms, 105);
}
