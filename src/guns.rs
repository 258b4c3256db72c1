//! The projectile pool: a fixed set of projectile slots that are recycled
//! between hidden (available) and visible (in flight).
use crate::physics::{
    clamp_i32, div_toward_zero, div_toward_zero_i64, event_touches, isqrt, isqrt_spec,
    saturate_i32, touches, CollisionEvent, ExternalImpulse, Vec2, Velocity,
};
use vstd::prelude::*;

verus! {

/// Delay between two shots, in milliseconds.
pub const COOLDOWN_DURATION_MS: u64 = 200;

/// Number of slots in the projectile pool.
pub const PROJECTILE_LIMIT: usize = 40;

/// Edge length of a projectile in flight, in world units.
pub const BALL_SIZE: u32 = 30;

/// x coordinate where an inert projectile is parked, far outside the play
/// field.
pub const OFFSCREEN_X: i32 = 10000;

/// y coordinate where a released projectile is parked.
pub const OFFSCREEN_Y: i32 = 100000;

/// y coordinate where the pool's projectiles wait before their first shot.
pub const STARTUP_Y: i32 = 10000;

/// Strength of the push given to a fired projectile along its aim.
pub const PROJECTILE_IMPULSE: i64 = 10000;

/// Fixed-point scale at which the length of an aim is taken.
pub const AIM_SCALE: i64 = 10000;

/// A projectile slower than this on both axes has expired.
pub const EXPIRE_SPEED: i32 = 25;

/// Request to turn every projectile into a blade.
#[derive(Clone, Copy, Debug, PartialEq, Eq, Structural)]
pub struct BladeEvent;

/// Blade upgrade carried by each projectile.
#[derive(Clone, Copy, Debug, PartialEq, Eq, Structural)]
pub struct Blade {
    pub slash_dmg: u32,
    pub bleed: u32,
    pub length: u32,
    pub swing_speed: i32,
}

/// Several projectiles per shot.
#[derive(Clone, Copy, Debug, PartialEq, Eq, Structural)]
pub struct Multishot {
    pub count: i32,
    pub spread: i32,
    pub processed: bool,
}

/// Several rounds per shot, with a damage ratio in percent.
#[derive(Clone, Copy, Debug, PartialEq, Eq, Structural)]
pub struct Burst {
    pub rounds: i32,
    pub damage_modifier: u32,
}

/// Damage over time left along a trail.
#[derive(Clone, Copy, Debug, PartialEq, Eq, Structural)]
pub struct Burn {
    pub dot: u32,
    pub trail_length: u32,
}

/// Stun and shield damage.
#[derive(Clone, Copy, Debug, PartialEq, Eq, Structural)]
pub struct Emp {
    pub stun_length: u32,
    pub shield_damage: u32,
}

/// One projectile slot and the state of its body.
#[derive(Clone, Copy, Debug, PartialEq, Eq, Structural)]
pub struct Projectile {
    pub id: u64,
    /// Damage dealt on a hit, in hit points.
    pub damage: u32,
    /// Growth of `damage` on each level-up, in percent.
    pub damage_modifier: u32,
    pub cooldown_ms: u64,
    pub range: u32,
    /// Edge length in world units.
    pub size: u32,
    /// In flight when true; pooled and available when false.
    pub visible: bool,
    pub position: Vec2,
    pub velocity: Velocity,
    pub impulse: ExternalImpulse,
    pub blade: Blade,
}

/// Error of the projectile pool.
#[derive(Clone, Copy, Debug, PartialEq, Eq, Structural)]
pub enum PoolError {
    /// Every slot is in flight.
    PoolExhausted,
}

/// Where a released projectile is parked.
pub open spec fn offscreen() -> Vec2 {
    Vec2 { x: OFFSCREEN_X, y: OFFSCREEN_Y }
}

/// Where the pool's projectiles wait before their first shot.
pub open spec fn startup_spot() -> Vec2 {
    Vec2 { x: OFFSCREEN_X, y: STARTUP_Y }
}

/// Number of visible slots.
pub open spec fn visible_count(s: Seq<Projectile>) -> nat
    decreases s.len(),
{
    if s.len() == 0 {
        0
    } else {
        visible_count(s.drop_last()) + if s.last().visible {
            1nat
        } else {
            0nat
        }
    }
}

/// Number of hidden slots.
pub open spec fn hidden_count(s: Seq<Projectile>) -> nat
    decreases s.len(),
{
    if s.len() == 0 {
        0
    } else {
        hidden_count(s.drop_last()) + if s.last().visible {
            0nat
        } else {
            1nat
        }
    }
}

/// Whether `i` is the lowest-index hidden slot.
pub open spec fn first_hidden(s: Seq<Projectile>, i: int) -> bool {
    0 <= i < s.len() && !s[i].visible && forall|j: int| 0 <= j < i ==> s[j].visible
}

/// A slot as it stands when it is returned to the pool.
pub open spec fn released(p: Projectile) -> Projectile {
    Projectile { visible: false, velocity: Velocity::zero_spec(), position: offscreen(), ..p }
}

/// Whether a slot in flight has slowed below the expiry speed on both axes.
pub open spec fn expired(p: Projectile) -> bool {
    p.visible && -EXPIRE_SPEED < p.velocity.linvel.x < EXPIRE_SPEED && -EXPIRE_SPEED
        < p.velocity.linvel.y < EXPIRE_SPEED
}

/// A slot after the per-tick expiry check.
pub open spec fn recycled(p: Projectile) -> Projectile {
    if expired(p) {
        released(p)
    } else {
        p
    }
}

/// A slot as it leaves the player towards the cursor: in flight, at the
/// player, pushed with strength `PROJECTILE_IMPULSE` along the aim.
pub open spec fn fired(p: Projectile, from: Vec2, cursor: Vec2) -> Projectile {
    Projectile {
        visible: true,
        velocity: Velocity::zero_spec(),
        position: from,
        size: BALL_SIZE,
        impulse: ExternalImpulse { impulse: shot_impulse_spec(aim_spec(from, cursor)), ..p.impulse },
        ..p
    }
}

/// The push of strength `PROJECTILE_IMPULSE` along `d`: each component is
/// `d * PROJECTILE_IMPULSE / |d|`, with the length `|d|` taken to a
/// precision of `1 / AIM_SCALE` and the quotient rounded towards zero. A
/// zero aim gives no push.
pub open spec fn shot_impulse_spec(d: Vec2) -> Vec2 {
    let len = isqrt_spec((d.x * d.x + d.y * d.y) * (AIM_SCALE * AIM_SCALE));
    if len == 0 {
        Vec2::zero_spec()
    } else {
        Vec2 {
            x: clamp_i32(div_toward_zero(d.x * (PROJECTILE_IMPULSE * AIM_SCALE), len)) as i32,
            y: clamp_i32(div_toward_zero(d.y * (PROJECTILE_IMPULSE * AIM_SCALE), len)) as i32,
        }
    }
}

pub fn shot_impulse(d: Vec2) -> (r: Vec2)
    ensures
        r == shot_impulse_spec(d),
{
    let dx: i128 = d.x as i128;
    let dy: i128 = d.y as i128;
    proof {
        let b: int = 0x8000_0000;
        assert(0 <= dx * dx <= b * b) by (nonlinear_arith)
            requires
                -b <= dx <= b,
        ;
        assert(0 <= dy * dy <= b * b) by (nonlinear_arith)
            requires
                -b <= dy <= b,
        ;
    }
    let sq: i128 = dx * dx + dy * dy;
    proof {
        assert(0 <= sq * 100_000_000 <= 0x8000_0000_0000_0000 * 100_000_000) by (nonlinear_arith)
            requires
                0 <= sq <= 0x8000_0000_0000_0000,
        ;
    }
    let n: i128 = sq * (AIM_SCALE as i128 * AIM_SCALE as i128);
    let len = isqrt(n as u128);
    if len == 0 {
        return Vec2::zero();
    }
    proof {
        let l = len as int;
        if l >= 0x8000_0000_0000 {
            assert(l * l >= 0x8000_0000_0000 * 0x8000_0000_0000) by (nonlinear_arith)
                requires
                    l >= 0x8000_0000_0000,
            ;
        }
    }
    let k: i64 = PROJECTILE_IMPULSE * AIM_SCALE;
    let x = div_toward_zero_i64(d.x as i64 * k, len as i64);
    let y = div_toward_zero_i64(d.y as i64 * k, len as i64);
    Vec2::new(saturate_i32(x), saturate_i32(y))
}

/// The unscaled vector from `from` to `to`, saturating.
pub open spec fn aim_spec(from: Vec2, to: Vec2) -> Vec2 {
    Vec2 { x: clamp_i32(to.x - from.x) as i32, y: clamp_i32(to.y - from.y) as i32 }
}

pub fn aim(from: Vec2, to: Vec2) -> (r: Vec2)
    ensures
        r == aim_spec(from, to),
{
    Vec2 {
        x: saturate_i32(to.x as i64 - from.x as i64),
        y: saturate_i32(to.y as i64 - from.y as i64),
    }
}

/// `v` clamped to the range of `u32`.
pub open spec fn sat_u32(v: int) -> u32 {
    if v > u32::MAX {
        u32::MAX
    } else {
        v as u32
    }
}

/// A slot after a blade upgrade: more damage, a wider body and more spin.
pub open spec fn bladed(p: Projectile) -> Projectile {
    Projectile {
        damage: sat_u32(p.damage + p.blade.slash_dmg),
        size: sat_u32(p.size * 6 / 5),
        impulse: ExternalImpulse {
            torque_impulse: clamp_i32(p.impulse.torque_impulse + p.blade.swing_speed) as i32,
            ..p.impulse
        },
        ..p
    }
}

/// A slot after a level-up: damage scaled by the damage modifier.
pub open spec fn modded(p: Projectile) -> Projectile {
    Projectile { damage: sat_u32(p.damage * p.damage_modifier / 100), ..p }
}

proof fn lemma_counts_update(s: Seq<Projectile>, i: int, p: Projectile)
    requires
        0 <= i < s.len(),
    ensures
        visible_count(s.update(i, p)) + (if s[i].visible { 1int } else { 0int }) == visible_count(s)
            + (if p.visible { 1int } else { 0int }),
        hidden_count(s.update(i, p)) + (if s[i].visible { 0int } else { 1int }) == hidden_count(s)
            + (if p.visible { 0int } else { 1int }),
    decreases s.len(),
{
    let t = s.update(i, p);
    if i == s.len() - 1 {
        assert(t.drop_last() =~= s.drop_last());
    } else {
        lemma_counts_update(s.drop_last(), i, p);
        assert(t.drop_last() =~= s.drop_last().update(i, p));
    }
}

/// Every slot is either visible or hidden: the two counts add up to the
/// pool's capacity.
pub proof fn lemma_partition(s: Seq<Projectile>)
    ensures
        visible_count(s) + hidden_count(s) == s.len(),
    decreases s.len(),
{
    if s.len() > 0 {
        lemma_partition(s.drop_last());
    }
}

/// Index of the first slot that takes part in a started collision `ev`, or
/// -1.
pub open spec fn first_slot(s: Seq<Projectile>, ev: CollisionEvent) -> int
    decreases s.len(),
{
    if s.len() == 0 {
        -1
    } else {
        let k = first_slot(s.drop_last(), ev);
        if k >= 0 {
            k
        } else if touches(ev, s.last().id) {
            s.len() - 1
        } else {
            -1
        }
    }
}

pub proof fn lemma_first_slot_range(s: Seq<Projectile>, ev: CollisionEvent)
    ensures
        -1 <= first_slot(s, ev) < s.len(),
        first_slot(s, ev) >= 0 ==> touches(ev, s[first_slot(s, ev)].id),
    decreases s.len(),
{
    if s.len() > 0 {
        lemma_first_slot_range(s.drop_last(), ev);
    }
}

proof fn lemma_first_slot_prefix(s: Seq<Projectile>, n: int, ev: CollisionEvent)
    requires
        0 <= n <= s.len(),
    ensures
        first_slot(s.subrange(0, n), ev) >= 0 ==> first_slot(s, ev) == first_slot(
            s.subrange(0, n),
            ev,
        ),
    decreases s.len(),
{
    if n < s.len() {
        lemma_first_slot_prefix(s.drop_last(), n, ev);
        assert(s.drop_last().subrange(0, n) =~= s.subrange(0, n));
    } else {
        assert(s.subrange(0, n) =~= s);
    }
}

/// Two pools whose slots carry the same ids in the same order.
pub open spec fn same_ids(a: Seq<Projectile>, b: Seq<Projectile>) -> bool {
    a.len() == b.len() && forall|i: int| 0 <= i < a.len() ==> a[i].id == b[i].id
}

pub proof fn lemma_first_slot_same_ids(a: Seq<Projectile>, b: Seq<Projectile>, ev: CollisionEvent)
    requires
        same_ids(a, b),
    ensures
        first_slot(a, ev) == first_slot(b, ev),
    decreases a.len(),
{
    if a.len() > 0 {
        lemma_first_slot_same_ids(a.drop_last(), b.drop_last(), ev);
    }
}

/// A projectile bounced off an enemy: its velocity is mirrored across the
/// horizontal axis.
pub open spec fn ricocheted(p: Projectile) -> Projectile {
    Projectile {
        velocity: Velocity { linvel: p.velocity.linvel.reflect_spec(), ..p.velocity },
        ..p
    }
}

/// When a shot may be fired.
#[derive(Clone, Copy, Debug, PartialEq, Eq, Structural)]
pub struct ShootingCooldown {
    pub last_shot_ms: u64,
    pub cooldown_ms: u64,
}

impl ShootingCooldown {
    /// A cooldown whose first shot is allowed once `COOLDOWN_DURATION_MS`
    /// have passed after `now_ms`.
    pub fn new(now_ms: u64) -> (r: ShootingCooldown)
        ensures
            r.last_shot_ms == now_ms,
            r.cooldown_ms == COOLDOWN_DURATION_MS,
    {
        ShootingCooldown { last_shot_ms: now_ms, cooldown_ms: COOLDOWN_DURATION_MS }
    }

    /// Whether at `now_ms` the cooldown has run out.
    pub open spec fn ready_spec(self, now_ms: u64) -> bool {
        now_ms >= self.last_shot_ms && now_ms - self.last_shot_ms >= self.cooldown_ms
    }

    pub fn ready(&self, now_ms: u64) -> (r: bool)
        ensures
            r == self.ready_spec(now_ms),
    {
        now_ms >= self.last_shot_ms && now_ms - self.last_shot_ms >= self.cooldown_ms
    }
}

/// The fixed set of projectile slots.
pub struct ProjectilePool {
    slots: Vec<Projectile>,
}

impl View for ProjectilePool {
    type V = Seq<Projectile>;

    closed spec fn view(&self) -> Seq<Projectile> {
        self.slots@
    }
}

/// A pooled projectile as it is made at startup.
pub open spec fn fresh_projectile(id: u64) -> Projectile {
    Projectile {
        id,
        damage: 10,
        damage_modifier: 120,
        cooldown_ms: 500,
        range: 20,
        size: BALL_SIZE,
        visible: false,
        position: startup_spot(),
        velocity: Velocity::zero_spec(),
        impulse: ExternalImpulse::zero_spec(),
        blade: Blade { slash_dmg: 1, bleed: 1, length: 2, swing_speed: 1 },
    }
}

/// The startup pool: `PROJECTILE_LIMIT` hidden slots with ids from `first_id`.
pub fn setup_projectiles(first_id: u64) -> (r: ProjectilePool)
    requires
        first_id + PROJECTILE_LIMIT <= u64::MAX,
    ensures
        r@.len() == PROJECTILE_LIMIT,
        forall|i: int| 0 <= i < r@.len() ==> r@[i] == fresh_projectile((first_id + i) as u64),
{
    ProjectilePool::with_capacity(PROJECTILE_LIMIT, first_id)
}

impl ProjectilePool {
    /// A pool of `capacity` hidden slots whose ids count up from `first_id`.
    pub fn with_capacity(capacity: usize, first_id: u64) -> (r: ProjectilePool)
        requires
            first_id + capacity <= u64::MAX,
        ensures
            r@.len() == capacity,
            forall|i: int| 0 <= i < r@.len() ==> r@[i] == fresh_projectile((first_id + i) as u64),
    {
        let mut slots: Vec<Projectile> = Vec::new();
        let mut i: usize = 0;
        while i < capacity
            invariant
                i <= capacity,
                first_id + capacity <= u64::MAX,
                slots@.len() == i,
                forall|j: int| 0 <= j < i ==> slots@[j] == fresh_projectile((first_id + j) as u64),
            decreases capacity - i,
        {
            let p = Projectile {
                id: first_id + i as u64,
                damage: 10,
                damage_modifier: 120,
                cooldown_ms: 500,
                range: 20,
                size: BALL_SIZE,
                visible: false,
                position: Vec2::new(OFFSCREEN_X, STARTUP_Y),
                velocity: Velocity::zero(),
                impulse: ExternalImpulse::zero(),
                blade: Blade { slash_dmg: 1, bleed: 1, length: 2, swing_speed: 1 },
            };
            slots.push(p);
            i = i + 1;
        }
        ProjectilePool { slots }
    }

    pub fn capacity(&self) -> (r: usize)
        ensures
            r == self@.len(),
    {
        self.slots.len()
    }

    pub fn slot(&self, i: usize) -> (r: Projectile)
        requires
            i < self@.len(),
        ensures
            r == self@[i as int],
    {
        self.slots[i]
    }

    pub fn visible_count(&self) -> (r: usize)
        ensures
            r == visible_count(self@),
    {
        let mut n: usize = 0;
        let mut i: usize = 0;
        while i < self.slots.len()
            invariant
                i <= self@.len(),
                n == visible_count(self@.subrange(0, i as int)),
                n <= i,
            decreases self@.len() - i,
        {
            assert(self@.subrange(0, i + 1).drop_last() =~= self@.subrange(0, i as int));
            if self.slots[i].visible {
                n = n + 1;
            }
            i = i + 1;
        }
        assert(self@.subrange(0, i as int) =~= self@);
        n
    }

    pub fn hidden_count(&self) -> (r: usize)
        ensures
            r == hidden_count(self@),
    {
        let v = self.visible_count();
        proof {
            lemma_partition(self@);
        }
        self.slots.len() - v
    }

    /// Finds the first slot that takes part in `ev`.
    pub fn find(&self, ev: &CollisionEvent) -> (r: Option<usize>)
        ensures
            match r {
                Some(i) => i == first_slot(self@, *ev),
                None => first_slot(self@, *ev) == -1,
            },
    {
        let mut i: usize = 0;
        while i < self.slots.len()
            invariant
                i <= self@.len(),
                first_slot(self@.subrange(0, i as int), *ev) == -1,
            decreases self@.len() - i,
        {
            assert(self@.subrange(0, i + 1).drop_last() =~= self@.subrange(0, i as int));
            proof {
                lemma_first_slot_prefix(self@, i as int + 1, *ev);
            }
            if event_touches(ev, self.slots[i].id) {
                return Some(i);
            }
            i = i + 1;
        }
        assert(self@.subrange(0, i as int) =~= self@);
        None
    }

    /// Bounces slot `i` off an enemy.
    pub fn ricochet(&mut self, i: usize)
        requires
            i < old(self)@.len(),
        ensures
            final(self)@ == old(self)@.update(i as int, ricocheted(old(self)@[i as int])),
    {
        let mut p = self.slots[i];
        p.velocity.linvel = p.velocity.linvel.reflect();
        self.slots.set(i, p);
    }

    /// The physics adapter reports a new velocity for slot `i`.
    pub fn set_velocity(&mut self, i: usize, v: Velocity)
        requires
            i < old(self)@.len(),
        ensures
            final(self)@ == old(self)@.update(i as int, Projectile { velocity: v, ..old(self)@[i as int] }),
    {
        let mut p = self.slots[i];
        p.velocity = v;
        self.slots.set(i, p);
    }

    /// Takes the lowest-index hidden slot and marks it in flight; fails with
    /// `PoolExhausted`, changing nothing, when every slot is visible.
    pub fn acquire(&mut self) -> (r: Result<usize, PoolError>)
        ensures
            final(self)@.len() == old(self)@.len(),
            match r {
                Ok(i) => first_hidden(old(self)@, i as int) && final(self)@ == old(self)@.update(
                    i as int,
                    Projectile { visible: true, ..old(self)@[i as int] },
                ) && visible_count(final(self)@) == visible_count(old(self)@) + 1
                    && hidden_count(final(self)@) + 1 == hidden_count(old(self)@),
                Err(e) => e == PoolError::PoolExhausted && final(self)@ == old(self)@ && forall|
                    j: int,
                | 0 <= j < old(self)@.len() ==> old(self)@[j].visible,
            },
    {
        let mut i: usize = 0;
        while i < self.slots.len()
            invariant
                i <= self@.len(),
                self@ == old(self)@,
                forall|j: int| 0 <= j < i ==> self@[j].visible,
            decreases self@.len() - i,
        {
            if !self.slots[i].visible {
                let mut p = self.slots[i];
                p.visible = true;
                proof {
                    lemma_counts_update(self@, i as int, p);
                }
                self.slots.set(i, p);
                return Ok(i);
            }
            i = i + 1;
        }
        Err(PoolError::PoolExhausted)
    }

    /// Returns slot `i` to the pool: hidden, at rest, parked off-screen.
    pub fn release(&mut self, i: usize)
        requires
            i < old(self)@.len(),
        ensures
            final(self)@ == old(self)@.update(i as int, released(old(self)@[i as int])),
    {
        let mut p = self.slots[i];
        p.visible = false;
        p.velocity = Velocity::zero();
        p.position = Vec2::new(OFFSCREEN_X, OFFSCREEN_Y);
        self.slots.set(i, p);
    }

    /// Fires the lowest hidden slot from `player` towards `cursor` when the
    /// trigger is held, the cursor is known, the cooldown has run out and a
    /// slot is free; the shot restarts the cooldown at `now_ms`. Otherwise
    /// nothing changes.
    pub fn shoot_projectile(
        &mut self,
        player: Vec2,
        cursor: Option<Vec2>,
        firing: bool,
        now_ms: u64,
        cooldown: &mut ShootingCooldown,
    ) -> (r: Option<usize>)
        ensures
            match r {
                Some(i) => {
                    &&& firing && cursor.is_some() && old(cooldown).ready_spec(now_ms)
                    &&& first_hidden(old(self)@, i as int)
                    &&& final(self)@ == old(self)@.update(
                        i as int,
                        fired(old(self)@[i as int], player, cursor.unwrap()),
                    )
                    &&& *final(cooldown) == ShootingCooldown { last_shot_ms: now_ms, ..*old(cooldown) }
                },
                None => {
                    &&& final(self)@ == old(self)@
                    &&& *final(cooldown) == *old(cooldown)
                    &&& (firing && cursor.is_some() && old(cooldown).ready_spec(now_ms)) ==> forall|
                        j: int,
                    | 0 <= j < old(self)@.len() ==> old(self)@[j].visible
                },
            },
    {
        if !firing || !cooldown.ready(now_ms) {
            return None;
        }
        match cursor {
            None => None,
            Some(target) => {
                match self.acquire() {
                    Err(_) => None,
                    Ok(i) => {
                        let mut p = self.slots[i];
                        p.velocity = Velocity::zero();
                        p.position = player;
                        p.size = BALL_SIZE;
                        p.impulse.impulse = shot_impulse(aim(player, target));
                        self.slots.set(i, p);
                        cooldown.last_shot_ms = now_ms;
                        Some(i)
                    },
                }
            },
        }
    }

    /// Returns to the pool every slot in flight that has slowed below
    /// `EXPIRE_SPEED` on both axes.
    pub fn despawn_projectile(&mut self)
        ensures
            final(self)@.len() == old(self)@.len(),
            forall|i: int| 0 <= i < old(self)@.len() ==> final(self)@[i] == recycled(old(self)@[i]),
    {
        let n = self.slots.len();
        let mut i: usize = 0;
        while i < n
            invariant
                n == old(self)@.len(),
                i <= n,
                self@.len() == n,
                forall|j: int| 0 <= j < i ==> self@[j] == recycled(old(self)@[j]),
                forall|j: int| i <= j < n ==> self@[j] == old(self)@[j],
            decreases n - i,
        {
            let p = self.slots[i];
            let v = p.velocity.linvel;
            if p.visible && -EXPIRE_SPEED < v.x && v.x < EXPIRE_SPEED && -EXPIRE_SPEED < v.y && v.y
                < EXPIRE_SPEED {
                self.release(i);
            }
            i = i + 1;
        }
    }

    /// Blade upgrade of every slot: damage grows by the blade's slash
    /// damage, the body widens by a fifth and spins faster.
    pub fn apply_blade_event(&mut self, event: BladeEvent)
        ensures
            final(self)@.len() == old(self)@.len(),
            forall|i: int| 0 <= i < old(self)@.len() ==> final(self)@[i] == bladed(old(self)@[i]),
    {
        let n = self.slots.len();
        let mut i: usize = 0;
        while i < n
            invariant
                n == old(self)@.len(),
                i <= n,
                self@.len() == n,
                forall|j: int| 0 <= j < i ==> self@[j] == bladed(old(self)@[j]),
                forall|j: int| i <= j < n ==> self@[j] == old(self)@[j],
            decreases n - i,
        {
            let mut p = self.slots[i];
            let dmg: u64 = p.damage as u64 + p.blade.slash_dmg as u64;
            p.damage = if dmg > u32::MAX as u64 {
                u32::MAX
            } else {
                dmg as u32
            };
            let grown: u64 = p.size as u64 * 6 / 5;
            p.size = if grown > u32::MAX as u64 {
                u32::MAX
            } else {
                grown as u32
            };
            p.impulse.torque_impulse = saturate_i32(
                p.impulse.torque_impulse as i64 + p.blade.swing_speed as i64,
            );
            self.slots.set(i, p);
            i = i + 1;
        }
    }

    /// On a level-up every slot's damage is scaled by its damage modifier.
    pub fn handle_projectile_mod(&mut self)
        ensures
            final(self)@.len() == old(self)@.len(),
            forall|i: int| 0 <= i < old(self)@.len() ==> final(self)@[i] == modded(old(self)@[i]),
    {
        let n = self.slots.len();
        let mut i: usize = 0;
        while i < n
            invariant
                n == old(self)@.len(),
                i <= n,
                self@.len() == n,
                forall|j: int| 0 <= j < i ==> self@[j] == modded(old(self)@[j]),
                forall|j: int| i <= j < n ==> self@[j] == old(self)@[j],
            decreases n - i,
        {
            let mut p = self.slots[i];
            proof {
                assert(p.damage as u64 * p.damage_modifier as u64 <= u32::MAX as u64 * u32::MAX as u64)
                    by (nonlinear_arith)
                    requires
                        p.damage <= u32::MAX,
                        p.damage_modifier <= u32::MAX,
                ;
            }
            let scaled: u64 = p.damage as u64 * p.damage_modifier as u64 / 100;
            p.damage = if scaled > u32::MAX as u64 {
                u32::MAX
            } else {
                scaled as u32
            };
            self.slots.set(i, p);
            i = i + 1;
        }
    }
}

/// The blade upgrade is requested when its key has just been pressed.
pub fn upgrade_weapon(just_pressed: bool) -> (r: Option<BladeEvent>)
    ensures
        r.is_some() == just_pressed,
{
    if just_pressed {
        Some(BladeEvent)
    } else {
        None
    }
}

} // verus!
