//! The player ship: damage from collisions, experience and levels, thrust
//! and wrap-around at the window edges.
use crate::mobs::{find_enemy, first_touching, lemma_first_touching_range, Enemy};
use crate::physics::{
    clamp_i32, clamp_i64, saturate_i32, saturating_sub_i64, touches, CollisionEvent, Vec2,
};
use vstd::prelude::*;

verus! {

/// Thrust of the player's engine.
pub const BASE_MOVESPEED: u32 = 150;

/// Sideways thrust, in percent of the forward thrust.
pub const STRAFE_PERCENT: u32 = 20;

/// Raised once for each level gained.
#[derive(Clone, Copy, Debug, PartialEq, Eq, Structural)]
pub struct LevelUpEvent;

/// Marks a body that wraps around the window edges.
#[derive(Clone, Copy, Debug, PartialEq, Eq, Structural)]
pub struct Warpable;

/// Marks the exhaust particle effect of the ship.
#[derive(Clone, Copy, Debug, PartialEq, Eq, Structural)]
pub struct ExhaustEffect;

/// The visible play field, relative to the camera.
#[derive(Clone, Copy, Debug, PartialEq, Eq, Structural)]
pub struct WindowSize {
    pub left_wall: i32,
    pub right_wall: i32,
    pub top_wall: i32,
    pub bottom_wall: i32,
}

impl WindowSize {
    /// The play field of a window `width` by `height`, centred on the camera.
    pub fn from_window(width: u32, height: u32) -> (r: WindowSize)
        ensures
            r.left_wall == -(width / 2),
            r.right_wall == width / 2,
            r.bottom_wall == -(height / 2),
            r.top_wall == height / 2,
    {
        let hw: i32 = (width / 2) as i32;
        let hh: i32 = (height / 2) as i32;
        WindowSize { left_wall: -hw, right_wall: hw, bottom_wall: -hh, top_wall: hh }
    }

    /// A window resize replaces the play field.
    pub fn update_winsize(&mut self, width: u32, height: u32)
        ensures
            *final(self) == (WindowSize {
                left_wall: -(width / 2) as i32,
                right_wall: (width / 2) as i32,
                bottom_wall: -(height / 2) as i32,
                top_wall: (height / 2) as i32,
            }),
    {
        *self = WindowSize::from_window(width, height);
    }
}

/// The player's ship.
#[derive(Clone, Copy, Debug, PartialEq, Eq, Structural)]
pub struct Player {
    pub id: u64,
    /// Hit points; may fall below zero, which defeats the player.
    pub health_current: i64,
    pub health_max: i64,
    pub exp_current: u64,
    /// Experience above which the next level is reached.
    pub exp_max: u64,
    pub level: u16,
    pub move_speed: u32,
    pub position: Vec2,
    /// False once the player is defeated.
    pub visible: bool,
}

/// `v` clamped to the range of `u64`.
pub open spec fn sat_u64(v: int) -> u64 {
    if v > u64::MAX {
        u64::MAX
    } else {
        v as u64
    }
}

/// The next level's experience threshold: a fifth more, rounded down.
pub open spec fn grown_exp_max(m: u64) -> u64 {
    sat_u64(m * 6 / 5)
}

/// The player after absorbing `value` experience: past the threshold, one
/// level is gained and the threshold grows.
pub open spec fn absorbed(p: Player, value: u64) -> Player {
    let exp = sat_u64(p.exp_current + value);
    if exp > p.exp_max {
        Player {
            exp_current: exp,
            level: if p.level < u16::MAX {
                (p.level + 1) as u16
            } else {
                u16::MAX
            },
            exp_max: grown_exp_max(p.exp_max),
            ..p
        }
    } else {
        Player { exp_current: exp, ..p }
    }
}

/// Whether absorbing `value` experience crosses the threshold.
pub open spec fn levels_up(p: Player, value: u64) -> bool {
    sat_u64(p.exp_current + value) > p.exp_max
}

/// The player as created when play starts.
pub open spec fn new_player(id: u64) -> Player {
    Player {
        id,
        health_current: 500,
        health_max: 500,
        exp_current: 0,
        exp_max: 1000,
        level: 1,
        move_speed: BASE_MOVESPEED,
        position: Vec2 { x: 0, y: 0 },
        visible: true,
    }
}

/// The ship at the centre with full health, no experience and level one.
pub fn setup_player(id: u64) -> (r: Player)
    ensures
        r == new_player(id),
{
    Player {
        id,
        health_current: 500,
        health_max: 500,
        exp_current: 0,
        exp_max: 1000,
        level: 1,
        move_speed: BASE_MOVESPEED,
        position: Vec2::new(0, 0),
        visible: true,
    }
}

/// Failure of a lookup that expects exactly one entity.
#[derive(Clone, Copy, Debug, PartialEq, Eq, Structural)]
pub enum SingletonError {
    /// There is none; the system skips its tick.
    MissingSingleton,
    /// There are several.
    MultipleEntities,
}

/// The one player among `players`.
pub fn single_player(players: &Vec<Player>) -> (r: Result<Player, SingletonError>)
    ensures
        r == if players@.len() == 0 {
            Err::<Player, SingletonError>(SingletonError::MissingSingleton)
        } else if players@.len() > 1 {
            Err(SingletonError::MultipleEntities)
        } else {
            Ok(players@[0])
        },
{
    if players.len() == 0 {
        Err(SingletonError::MissingSingleton)
    } else if players.len() > 1 {
        Err(SingletonError::MultipleEntities)
    } else {
        Ok(players[0])
    }
}

/// One collision between the player and an enemy: the player loses the
/// enemy's collision damage and the enemy is destroyed; a hit that leaves
/// the player below zero health hides (defeats) it.
pub open spec fn collide(p: Player, es: Seq<Enemy>, ev: CollisionEvent) -> (Player, Seq<Enemy>) {
    let j = first_touching(es, ev);
    if touches(ev, p.id) && j >= 0 {
        let h = clamp_i64(p.health_current - es[j].collision_damage) as i64;
        (Player { health_current: h, visible: p.visible && h >= 0, ..p }, es.remove(j))
    } else {
        (p, es)
    }
}

/// The collisions of `evs`, in order.
pub open spec fn collide_all(p: Player, es: Seq<Enemy>, evs: Seq<CollisionEvent>) -> (
    Player,
    Seq<Enemy>,
)
    decreases evs.len(),
{
    if evs.len() == 0 {
        (p, es)
    } else {
        let prev = collide_all(p, es, evs.drop_last());
        collide(prev.0, prev.1, evs.last())
    }
}

impl Player {
    /// Adds `value` experience; past the threshold gains one level and
    /// grows the threshold. Returns whether a level was gained.
    pub fn absorb(&mut self, value: u64) -> (r: bool)
        ensures
            *final(self) == absorbed(*old(self), value),
            r == levels_up(*old(self), value),
    {
        self.exp_current = self.exp_current.saturating_add(value);
        if self.exp_current > self.exp_max {
            if self.level < u16::MAX {
                self.level = self.level + 1;
            }
            let m: u128 = self.exp_max as u128 * 6 / 5;
            self.exp_max = if m > u64::MAX as u128 {
                u64::MAX
            } else {
                m as u64
            };
            true
        } else {
            false
        }
    }

    /// Health as shown: never below zero.
    pub fn displayed_health(&self) -> (r: i64)
        ensures
            r == if self.health_current < 0 {
                0
            } else {
                self.health_current
            },
    {
        if self.health_current < 0 {
            0
        } else {
            self.health_current
        }
    }

    /// Width of the health bar in percent of its full width; none without a
    /// positive maximum.
    pub fn health_percent(&self) -> (r: Option<i64>)
        ensures
            r == if self.health_max <= 0 {
                None::<i64>
            } else {
                Some(
                    clamp_i64(
                        (if self.health_current < 0 {
                            0
                        } else {
                            self.health_current as int
                        }) * 100 / self.health_max as int,
                    ) as i64,
                )
            },
    {
        if self.health_max <= 0 {
            return None;
        }
        let shown: i128 = self.displayed_health() as i128;
        proof {
            assert(shown * 100 <= i64::MAX as int * 100) by (nonlinear_arith)
                requires
                    0 <= shown <= i64::MAX as int,
            ;
            assert(shown * 100 / self.health_max as int <= shown * 100) by (nonlinear_arith)
                requires
                    0 <= shown,
                    self.health_max > 0,
            ;
            assert(0 <= shown * 100 / self.health_max as int) by (nonlinear_arith)
                requires
                    0 <= shown,
                    self.health_max > 0,
            ;
        }
        let pct: i128 = shown * 100 / self.health_max as i128;
        if pct > i64::MAX as i128 {
            Some(i64::MAX)
        } else {
            Some(pct as i64)
        }
    }
}

/// Applies the collisions of `events` between the player and `enemies`:
/// each costs the player the enemy's collision damage and destroys that
/// enemy; a collision that leaves the player below zero health hides it.
/// Returns true when this call defeats the player, that is when it was
/// shown before and is hidden after; a hidden player stays hidden, so the
/// defeat comes once.
pub fn handle_player_collision(
    player: &mut Player,
    enemies: &mut Vec<Enemy>,
    events: &Vec<CollisionEvent>,
) -> (r: bool)
    ensures
        ({
            let after = collide_all(*old(player), old(enemies)@, events@);
            &&& *final(player) == after.0
            &&& final(enemies)@ == after.1
            &&& r == (old(player).visible && !after.0.visible)
        }),
{
    let was_visible = player.visible;
    let mut k: usize = 0;
    while k < events.len()
        invariant
            k <= events@.len(),
            was_visible == old(player).visible,
            (*player, enemies@) == collide_all(*old(player), old(enemies)@, events@.subrange(0, k as int)),
        decreases events@.len() - k,
    {
        let ev = events[k];
        assert(events@.subrange(0, k + 1).drop_last() =~= events@.subrange(0, k as int));
        assert(events@.subrange(0, k + 1).last() == ev);
        if crate::physics::event_touches(&ev, player.id) {
            match find_enemy(enemies, &ev) {
                Some(j) => {
                    proof {
                        lemma_first_touching_range(enemies@, ev);
                    }
                    player.health_current = saturating_sub_i64(
                        player.health_current,
                        enemies[j].collision_damage as i64,
                    );
                    if player.health_current < 0 {
                        player.visible = false;
                    }
                    enemies.remove(j);
                },
                None => {},
            }
        }
        k = k + 1;
    }
    assert(events@.subrange(0, k as int) =~= events@);
    was_visible && !player.visible
}

/// A hidden player is never shown again by collisions, so over any run of
/// calls the defeat is reported at most once.
pub proof fn lemma_defeat_once(p: Player, es: Seq<Enemy>, evs: Seq<CollisionEvent>)
    requires
        !p.visible,
    ensures
        !collide_all(p, es, evs).0.visible,
    decreases evs.len(),
{
    if evs.len() > 0 {
        lemma_defeat_once(p, es, evs.drop_last());
    }
}

/// Which movement keys are held.
#[derive(Clone, Copy, Debug, PartialEq, Eq, Structural)]
pub struct MoveKeys {
    pub forward: bool,
    pub strafe_left: bool,
    pub strafe_right: bool,
}

/// A push on the ship along `direction`, whose length the physics adapter
/// scales to `magnitude`.
#[derive(Clone, Copy, Debug, PartialEq, Eq, Structural)]
pub struct Thrust {
    pub direction: Vec2,
    pub magnitude: u32,
}

/// The thrust chosen by the held keys, relative to the direction `d` from
/// the ship to the cursor; of several keys the last in the order forward,
/// left, right wins. Left is `d` turned a quarter counter-clockwise, right a
/// quarter clockwise, both at a fifth of the speed.
pub open spec fn thrust_spec(speed: u32, d: Vec2, keys: MoveKeys) -> Option<Thrust> {
    let strafe = speed * STRAFE_PERCENT / 100;
    if keys.strafe_right {
        Some(Thrust { direction: Vec2 { x: d.y, y: clamp_i32(-d.x) as i32 }, magnitude: strafe as u32 })
    } else if keys.strafe_left {
        Some(Thrust { direction: Vec2 { x: clamp_i32(-d.y) as i32, y: d.x }, magnitude: strafe as u32 })
    } else if keys.forward {
        Some(Thrust { direction: d, magnitude: speed })
    } else {
        None
    }
}

impl Player {
    /// The push on the ship for the held keys; none without a cursor.
    pub fn modify_player_translation(&self, cursor: Option<Vec2>, keys: MoveKeys) -> (r: Option<
        Thrust,
    >)
        ensures
            r == match cursor {
                Some(c) => thrust_spec(self.move_speed, crate::guns::aim_spec(self.position, c), keys),
                None => None,
            },
    {
        match cursor {
            None => None,
            Some(c) => {
                let d = crate::guns::aim(self.position, c);
                let strafe: u32 = ((self.move_speed as u64 * STRAFE_PERCENT as u64) / 100) as u32;
                if keys.strafe_right {
                    Some(Thrust { direction: Vec2::new(d.y, saturate_i32(-(d.x as i64))), magnitude: strafe })
                } else if keys.strafe_left {
                    Some(Thrust { direction: Vec2::new(saturate_i32(-(d.y as i64)), d.x), magnitude: strafe })
                } else if keys.forward {
                    Some(Thrust { direction: d, magnitude: self.move_speed })
                } else {
                    None
                }
            },
        }
    }
}

/// Where a body of `w` by `h` at `pos` reappears once it has left the play
/// field around `cam` by more than nine tenths of its size: at the opposite
/// edge. Top and bottom are checked before right and left.
pub open spec fn warped(pos: Vec2, w: u32, h: u32, cam: Vec2, win: WindowSize) -> Vec2 {
    let xp = w * 9 / 10;
    let yp = h * 9 / 10;
    if pos.y > cam.y + win.top_wall + yp {
        Vec2 { y: clamp_i32(cam.y + win.bottom_wall) as i32, ..pos }
    } else if pos.y < cam.y + win.bottom_wall - yp {
        Vec2 { y: clamp_i32(cam.y + win.top_wall) as i32, ..pos }
    } else if pos.x > cam.x + win.right_wall + xp {
        Vec2 { x: clamp_i32(cam.x + win.left_wall) as i32, ..pos }
    } else if pos.x < cam.x + win.left_wall - xp {
        Vec2 { x: clamp_i32(cam.x + win.right_wall) as i32, ..pos }
    } else {
        pos
    }
}

/// Wraps a body that has left the play field to the opposite edge.
pub fn ship_warp(pos: Vec2, w: u32, h: u32, cam: Vec2, win: &WindowSize) -> (r: Vec2)
    ensures
        r == warped(pos, w, h, cam, *win),
{
    let xp: i64 = (w as i64 * 9) / 10;
    let yp: i64 = (h as i64 * 9) / 10;
    let px: i64 = pos.x as i64;
    let py: i64 = pos.y as i64;
    let cx: i64 = cam.x as i64;
    let cy: i64 = cam.y as i64;
    if py > cy + win.top_wall as i64 + yp {
        Vec2 { x: pos.x, y: saturate_i32(cy + win.bottom_wall as i64) }
    } else if py < cy + win.bottom_wall as i64 - yp {
        Vec2 { x: pos.x, y: saturate_i32(cy + win.top_wall as i64) }
    } else if px > cx + win.right_wall as i64 + xp {
        Vec2 { x: saturate_i32(cx + win.left_wall as i64), y: pos.y }
    } else if px < cx + win.left_wall as i64 - xp {
        Vec2 { x: saturate_i32(cx + win.right_wall as i64), y: pos.y }
    } else {
        pos
    }
}

/// Above the threshold one absorption of a positive value gains exactly
/// one level (held at the largest level) and grows the threshold by a fifth,
/// rounded down (1000 becomes 1200; held at the largest `u64`).
pub proof fn lemma_level_up(p: Player, value: u64)
    requires
        p.exp_current >= p.exp_max,
        value > 0,
        p.exp_max < u64::MAX,
    ensures
        levels_up(p, value),
        absorbed(p, value).level == if p.level < u16::MAX {
            p.level + 1
        } else {
            u16::MAX as int
        },
        absorbed(p, value).exp_max == grown_exp_max(p.exp_max),
        p.level < u16::MAX ==> absorbed(p, value).level == p.level + 1,
        p.exp_max * 6 / 5 <= u64::MAX ==> absorbed(p, value).exp_max == p.exp_max * 6 / 5,
{
}

} // verus!
