//! Enemies, experience shards, the combat resolver, experience pickup and
//! the wave director.
use crate::guns::{
    first_slot, lemma_first_slot_range, lemma_first_slot_same_ids, ricocheted, same_ids,
    ProjectilePool, Projectile,
};
use crate::constants::BASE_EXP_PULL;
use crate::physics::{
    clamp_i32, clamp_i64, div_toward_zero, event_touches, saturate_i32, saturating_sub_i64, touches, CollisionEvent,
    Vec2, Velocity,
};
use crate::player::{absorbed, levels_up, LevelUpEvent, Player};
use crate::player::WindowSize;
use crate::random::{random_bool, random_in_range};
use vstd::prelude::*;

verus! {

/// Experience carried by a shard.
pub const SHARD_VALUE: u64 = 10;

/// A new shard flies off at up to this speed on each axis.
pub const SHARD_SPREAD: i32 = 100;

/// An enemy body.
#[derive(Clone, Copy, Debug, PartialEq, Eq, Structural)]
pub struct Enemy {
    pub id: u64,
    /// Hit points; the enemy is destroyed once they fall below zero.
    pub health: i64,
    /// Damage dealt to the player on contact.
    pub collision_damage: u32,
    pub position: Vec2,
    /// One-time push given when spawned.
    pub impulse: Vec2,
    /// Edge length of the sprite.
    pub size: u32,
    /// Radius of the collider.
    pub radius: u32,
}

/// An experience pickup dropped by a hit enemy.
#[derive(Clone, Copy, Debug, PartialEq, Eq, Structural)]
pub struct ExperienceShard {
    pub value: u64,
    pub position: Vec2,
    pub velocity: Velocity,
}

/// Index of the first enemy that takes part in a started collision `ev`,
/// or -1.
pub open spec fn first_touching(s: Seq<Enemy>, ev: CollisionEvent) -> int
    decreases s.len(),
{
    if s.len() == 0 {
        -1
    } else {
        let k = first_touching(s.drop_last(), ev);
        if k >= 0 {
            k
        } else if touches(ev, s.last().id) {
            s.len() - 1
        } else {
            -1
        }
    }
}

pub(crate) proof fn lemma_first_touching_range(s: Seq<Enemy>, ev: CollisionEvent)
    ensures
        -1 <= first_touching(s, ev) < s.len(),
        first_touching(s, ev) >= 0 ==> touches(ev, s[first_touching(s, ev)].id),
    decreases s.len(),
{
    if s.len() > 0 {
        lemma_first_touching_range(s.drop_last(), ev);
    }
}

/// Finds the first enemy of `enemies` that takes part in `ev`.
pub fn find_enemy(enemies: &Vec<Enemy>, ev: &CollisionEvent) -> (r: Option<usize>)
    ensures
        match r {
            Some(j) => j == first_touching(enemies@, *ev),
            None => first_touching(enemies@, *ev) == -1,
        },
{
    let mut i: usize = 0;
    while i < enemies.len()
        invariant
            i <= enemies@.len(),
            first_touching(enemies@.subrange(0, i as int), *ev) == -1,
        decreases enemies@.len() - i,
    {
        assert(enemies@.subrange(0, i + 1).drop_last() =~= enemies@.subrange(0, i as int));
        if event_touches(ev, enemies[i].id) {
            proof {
                lemma_first_touching_prefix(enemies@, i as int + 1, *ev);
            }
            return Some(i);
        }
        proof {
            lemma_first_touching_prefix(enemies@, i as int + 1, *ev);
        }
        i = i + 1;
    }
    assert(enemies@.subrange(0, i as int) =~= enemies@);
    None
}

/// A hit found in a prefix is the hit of the whole sequence; none in the
/// whole prefix leaves the answer to the rest.
proof fn lemma_first_touching_prefix(s: Seq<Enemy>, n: int, ev: CollisionEvent)
    requires
        0 <= n <= s.len(),
    ensures
        first_touching(s.subrange(0, n), ev) >= 0 ==> first_touching(s, ev) == first_touching(
            s.subrange(0, n),
            ev,
        ),
    decreases s.len(),
{
    if n < s.len() {
        lemma_first_touching_prefix(s.drop_last(), n, ev);
        assert(s.drop_last().subrange(0, n) =~= s.subrange(0, n));
    } else {
        assert(s.subrange(0, n) =~= s);
    }
}

/// An enemy after a hit of `damage`.
pub open spec fn damaged(e: Enemy, damage: u32) -> Enemy {
    Enemy { health: clamp_i64(e.health - damage) as i64, ..e }
}

/// `damaged` applied `n` times.
pub open spec fn damaged_n(e: Enemy, damage: u32, n: nat) -> Enemy
    decreases n,
{
    if n == 0 {
        e
    } else {
        damaged(damaged_n(e, damage, (n - 1) as nat), damage)
    }
}

/// Whether the enemy is destroyed.
pub open spec fn defeated(e: Enemy) -> bool {
    e.health < 0
}

/// The enemies that survive, in order.
pub open spec fn survivors(s: Seq<Enemy>) -> Seq<Enemy>
    decreases s.len(),
{
    if s.len() == 0 {
        seq![]
    } else if defeated(s.last()) {
        survivors(s.drop_last())
    } else {
        survivors(s.drop_last()).push(s.last())
    }
}

/// One started collision between a projectile and an enemy: the projectile
/// bounces and the enemy loses the projectile's damage. Other events change
/// nothing.
pub open spec fn hit(ps: Seq<Projectile>, es: Seq<Enemy>, ev: CollisionEvent) -> (
    Seq<Projectile>,
    Seq<Enemy>,
) {
    let i = first_slot(ps, ev);
    let j = first_touching(es, ev);
    if i >= 0 && j >= 0 {
        (ps.update(i, ricocheted(ps[i])), es.update(j, damaged(es[j], ps[i].damage)))
    } else {
        (ps, es)
    }
}

/// Whether `ev` pairs a projectile with an enemy.
pub open spec fn is_hit(ps: Seq<Projectile>, es: Seq<Enemy>, ev: CollisionEvent) -> bool {
    first_slot(ps, ev) >= 0 && first_touching(es, ev) >= 0
}

/// The hits of `evs` in order, before defeated enemies are removed.
pub open spec fn hit_all(ps: Seq<Projectile>, es: Seq<Enemy>, evs: Seq<CollisionEvent>) -> (
    Seq<Projectile>,
    Seq<Enemy>,
)
    decreases evs.len(),
{
    if evs.len() == 0 {
        (ps, es)
    } else {
        let prev = hit_all(ps, es, evs.drop_last());
        hit(prev.0, prev.1, evs.last())
    }
}

/// Where the hits of `evs` drop their shards: the position of the enemy
/// hit by each event that pairs a projectile with an enemy, in order.
pub open spec fn drops(ps: Seq<Projectile>, es: Seq<Enemy>, evs: Seq<CollisionEvent>) -> Seq<Vec2>
    decreases evs.len(),
{
    if evs.len() == 0 {
        seq![]
    } else {
        let prev = drops(ps, es, evs.drop_last());
        if is_hit(ps, es, evs.last()) {
            prev.push(es[first_touching(es, evs.last())].position)
        } else {
            prev
        }
    }
}

pub open spec fn same_enemy_ids(a: Seq<Enemy>, b: Seq<Enemy>) -> bool {
    a.len() == b.len() && forall|i: int| 0 <= i < a.len() ==> a[i].id == b[i].id && a[i].position
        == b[i].position
}

proof fn lemma_first_touching_same_ids(a: Seq<Enemy>, b: Seq<Enemy>, ev: CollisionEvent)
    requires
        same_enemy_ids(a, b),
    ensures
        first_touching(a, ev) == first_touching(b, ev),
    decreases a.len(),
{
    if a.len() > 0 {
        lemma_first_touching_same_ids(a.drop_last(), b.drop_last(), ev);
    }
}

/// Hits change neither ids nor positions.
proof fn lemma_hit_all_ids(ps: Seq<Projectile>, es: Seq<Enemy>, evs: Seq<CollisionEvent>)
    ensures
        same_ids(hit_all(ps, es, evs).0, ps),
        same_enemy_ids(hit_all(ps, es, evs).1, es),
    decreases evs.len(),
{
    if evs.len() > 0 {
        lemma_hit_all_ids(ps, es, evs.drop_last());
        let prev = hit_all(ps, es, evs.drop_last());
        lemma_first_slot_range(prev.0, evs.last());
        lemma_first_touching_range(prev.1, evs.last());
    }
}

/// Distance under which the player absorbs a shard.
pub const EXP_ABSORB_RANGE: i32 = 40;

/// Speed of a pulled shard per unit of distance to the player.
pub const EXP_PULL_FACTOR: i32 = 5;

/// Whether a shard is close enough to the player at `p` to be pulled.
pub open spec fn pulls(p: Vec2, s: ExperienceShard) -> bool {
    p.within(s.position, BASE_EXP_PULL as int)
}

/// Whether a shard is close enough to the player at `p` to be absorbed.
pub open spec fn absorbs(p: Vec2, s: ExperienceShard) -> bool {
    p.within(s.position, EXP_ABSORB_RANGE as int)
}

/// A shard after the pull: within range its velocity points at the player,
/// proportional to the distance; the new velocity replaces the old one.
pub open spec fn pulled(p: Vec2, s: ExperienceShard) -> ExperienceShard {
    if pulls(p, s) {
        ExperienceShard {
            velocity: Velocity {
                linvel: Vec2 {
                    x: clamp_i32((p.x - s.position.x) * EXP_PULL_FACTOR) as i32,
                    y: clamp_i32((p.y - s.position.y) * EXP_PULL_FACTOR) as i32,
                },
                ..s.velocity
            },
            ..s
        }
    } else {
        s
    }
}

/// One tick of experience pickup over `ss` in order: the player after
/// absorbing every shard in range, the shards left (pulled), and the number
/// of levels gained.
pub open spec fn pickup(pl: Player, ss: Seq<ExperienceShard>) -> (Player, Seq<ExperienceShard>, nat)
    decreases ss.len(),
{
    if ss.len() == 0 {
        (pl, seq![], 0)
    } else {
        let prev = pickup(pl, ss.drop_last());
        let s = ss.last();
        if absorbs(pl.position, s) {
            (
                absorbed(prev.0, s.value),
                prev.1,
                prev.2 + if levels_up(prev.0, s.value) {
                    1nat
                } else {
                    0nat
                },
            )
        } else {
            (prev.0, prev.1.push(pulled(pl.position, s)), prev.2)
        }
    }
}

/// Total value of the shards of `ss` within absorbing range of `p`.
pub open spec fn absorbable_total(p: Vec2, ss: Seq<ExperienceShard>) -> int
    decreases ss.len(),
{
    if ss.len() == 0 {
        0
    } else {
        absorbable_total(p, ss.drop_last()) + if absorbs(p, ss.last()) {
            ss.last().value as int
        } else {
            0
        }
    }
}

/// Pulls the shards near the player towards it and absorbs those within
/// reach: each adds its value to the player's experience once and is
/// removed; crossing the threshold gains a level and raises one
/// `LevelUpEvent`.
pub fn exp_pull_system(player: &mut Player, shards: &mut Vec<ExperienceShard>) -> (r: Vec<
    LevelUpEvent,
>)
    ensures
        ({
            let after = pickup(*old(player), old(shards)@);
            &&& *final(player) == after.0
            &&& final(shards)@ == after.1
            &&& r@.len() == after.2
        }),
{
    let ghost pl0 = *player;
    let mut events: Vec<LevelUpEvent> = Vec::new();
    let mut kept: Vec<ExperienceShard> = Vec::new();
    let mut i: usize = 0;
    while i < shards.len()
        invariant
            i <= shards@.len(),
            shards@ == old(shards)@,
            player.position == pl0.position,
            pl0 == *old(player),
            (*player, kept@, events@.len()) == pickup(pl0, shards@.subrange(0, i as int)),
        decreases shards@.len() - i,
    {
        assert(shards@.subrange(0, i + 1).drop_last() =~= shards@.subrange(0, i as int));
        let mut s = shards[i];
        let near = player.position.is_within(&s.position, BASE_EXP_PULL);
        if near {
            s.velocity.linvel = Vec2::new(
                saturate_i32((player.position.x as i64 - s.position.x as i64) * 5),
                saturate_i32((player.position.y as i64 - s.position.y as i64) * 5),
            );
        }
        if player.position.is_within(&s.position, EXP_ABSORB_RANGE) {
            if player.absorb(s.value) {
                events.push(LevelUpEvent);
            }
        } else {
            kept.push(s);
        }
        i = i + 1;
    }
    assert(shards@.subrange(0, i as int) =~= shards@);
    *shards = kept;
    events
}

proof fn lemma_pickup_keeps_position(pl: Player, ss: Seq<ExperienceShard>)
    ensures
        pickup(pl, ss).0.position == pl.position,
        forall|k: int|
            0 <= k < pickup(pl, ss).1.len() ==> !absorbs(pl.position, #[trigger] pickup(pl, ss).1[k]),
        pickup(pl, ss).1.len() <= ss.len(),
    decreases ss.len(),
{
    if ss.len() > 0 {
        lemma_pickup_keeps_position(pl, ss.drop_last());
        let prev = pickup(pl, ss.drop_last());
        let s = ss.last();
        if !absorbs(pl.position, s) {
            assert forall|k: int|
                0 <= k < prev.1.push(pulled(pl.position, s)).len() implies !absorbs(
                pl.position,
                #[trigger] prev.1.push(pulled(pl.position, s))[k],
            ) by {
                if k < prev.1.len() {
                    assert(prev.1.push(pulled(pl.position, s))[k] == prev.1[k]);
                }
            }
        }
    }
}

proof fn lemma_pickup_none(pl: Player, ss: Seq<ExperienceShard>)
    requires
        forall|k: int| 0 <= k < ss.len() ==> !absorbs(pl.position, #[trigger] ss[k]),
    ensures
        pickup(pl, ss).0 == pl,
    decreases ss.len(),
{
    if ss.len() > 0 {
        lemma_pickup_none(pl, ss.drop_last());
        assert(!absorbs(pl.position, ss[ss.len() - 1]));
    }
}

proof fn lemma_pickup_total(pl: Player, ss: Seq<ExperienceShard>)
    ensures
        pickup(pl, ss).0.exp_current == crate::player::sat_u64(
            pl.exp_current + absorbable_total(pl.position, ss),
        ),
    decreases ss.len(),
{
    if ss.len() > 0 {
        lemma_total_nonneg(pl.position, ss.drop_last());
        lemma_pickup_total(pl, ss.drop_last());
        lemma_pickup_keeps_position(pl, ss.drop_last());
    }
}

proof fn lemma_total_nonneg(p: Vec2, ss: Seq<ExperienceShard>)
    ensures
        absorbable_total(p, ss) >= 0,
    decreases ss.len(),
{
    if ss.len() > 0 {
        lemma_total_nonneg(p, ss.drop_last());
    }
}

/// Each shard within reach is credited once: the player's experience grows
/// by exactly the total value of those shards (held at the largest `u64`),
/// none of them is left, and a second tick with nothing moved credits
/// nothing more.
pub proof fn lemma_absorb_once(pl: Player, ss: Seq<ExperienceShard>)
    ensures
        forall|k: int|
            0 <= k < pickup(pl, ss).1.len() ==> !absorbs(pl.position, #[trigger] pickup(pl, ss).1[k]),
        pickup(pickup(pl, ss).0, pickup(pl, ss).1).0 == pickup(pl, ss).0,
        pickup(pl, ss).0.exp_current == crate::player::sat_u64(
            pl.exp_current + absorbable_total(pl.position, ss),
        ),
        pl.exp_current + absorbable_total(pl.position, ss) <= u64::MAX ==> pickup(
            pl,
            ss,
        ).0.exp_current == pl.exp_current + absorbable_total(pl.position, ss),
{
    lemma_pickup_keeps_position(pl, ss);
    let a = pickup(pl, ss);
    lemma_pickup_none(a.0, a.1);
    lemma_pickup_total(pl, ss);
    lemma_total_nonneg(pl.position, ss);
}

/// A tick with one shard within reach of a player at or above the threshold
/// raises exactly one level-up and gains exactly one level.
pub proof fn lemma_level_up_tick(pl: Player, s: ExperienceShard)
    requires
        pl.exp_current >= pl.exp_max,
        s.value > 0,
        pl.exp_max < u64::MAX,
        absorbs(pl.position, s),
    ensures
        pickup(pl, seq![s]).2 == 1,
        pickup(pl, seq![s]).1.len() == 0,
        pickup(pl, seq![s]).0 == absorbed(pl, s.value),
        pl.level < u16::MAX ==> pickup(pl, seq![s]).0.level == pl.level + 1,
        pickup(pl, seq![s]).0.exp_max == crate::player::grown_exp_max(pl.exp_max),
{
    crate::player::lemma_level_up(pl, s.value);
    let one = seq![s];
    assert(one.drop_last() =~= Seq::<ExperienceShard>::empty());
    assert(one.last() == s);
    let prev = pickup(pl, one.drop_last());
    assert(prev.0 == pl && prev.2 == 0);
    assert(prev.1.len() == 0);
}

/// A shard with the usual value and an outward velocity within the spread.
pub open spec fn valid_drop(sh: ExperienceShard) -> bool {
    &&& sh.value == SHARD_VALUE
    &&& -SHARD_SPREAD <= sh.velocity.linvel.x < SHARD_SPREAD
    &&& -SHARD_SPREAD <= sh.velocity.linvel.y < SHARD_SPREAD
    &&& sh.velocity.angvel == 0
}

/// Resolves the started collisions of `events` between projectiles and
/// enemies. Each bounces the projectile, costs the enemy the projectile's
/// damage and drops one shard where the enemy stands; the same enemy may be
/// hit by several events. Afterwards every enemy whose health fell below
/// zero is removed.
pub fn kill_on_contact(
    pool: &mut ProjectilePool,
    enemies: &mut Vec<Enemy>,
    shards: &mut Vec<ExperienceShard>,
    events: &Vec<CollisionEvent>,
)
    ensures
        ({
            let after = hit_all(old(pool)@, old(enemies)@, events@);
            let at = drops(old(pool)@, old(enemies)@, events@);
            &&& final(pool)@ == after.0
            &&& final(enemies)@ == survivors(after.1)
            &&& final(shards)@.len() == old(shards)@.len() + at.len()
            &&& final(shards)@.subrange(0, old(shards)@.len() as int) == old(shards)@
            &&& forall|k: int|
                0 <= k < at.len() ==> valid_drop(#[trigger] final(shards)@[old(shards)@.len() + k])
                    && final(shards)@[old(shards)@.len() + k].position == at[k]
        }),
{
    let ghost ps0 = pool@;
    let ghost es0 = enemies@;
    let mut k: usize = 0;
    while k < events.len()
        invariant
            k <= events@.len(),
            (pool@, enemies@) == hit_all(ps0, es0, events@.subrange(0, k as int)),
            shards@.len() == old(shards)@.len() + drops(ps0, es0, events@.subrange(0, k as int)).len(),
            shards@.subrange(0, old(shards)@.len() as int) == old(shards)@,
            forall|m: int|
                0 <= m < drops(ps0, es0, events@.subrange(0, k as int)).len() ==> valid_drop(
                    #[trigger] shards@[old(shards)@.len() + m],
                ) && shards@[old(shards)@.len() + m].position == drops(
                    ps0,
                    es0,
                    events@.subrange(0, k as int),
                )[m],
        decreases events@.len() - k,
    {
        let ev = events[k];
        let ghost pre = events@.subrange(0, k as int);
        assert(events@.subrange(0, k + 1).drop_last() =~= pre);
        assert(events@.subrange(0, k + 1).last() == ev);
        proof {
            lemma_hit_all_ids(ps0, es0, pre);
            lemma_first_slot_same_ids(pool@, ps0, ev);
            lemma_first_touching_same_ids(enemies@, es0, ev);
            lemma_first_slot_range(pool@, ev);
            lemma_first_touching_range(enemies@, ev);
        }
        let bullet = pool.find(&ev);
        let target = find_enemy(enemies, &ev);
        match (bullet, target) {
            (Some(i), Some(j)) => {
                let vx = random_in_range(-SHARD_SPREAD, SHARD_SPREAD);
                let vy = random_in_range(-SHARD_SPREAD, SHARD_SPREAD);
                let damage = pool.slot(i).damage;
                pool.ricochet(i);
                let mut e = enemies[j];
                let shard = ExperienceShard {
                    value: SHARD_VALUE,
                    position: e.position,
                    velocity: Velocity::linear(Vec2::new(vx, vy)),
                };
                e.health = saturating_sub_i64(e.health, damage as i64);
                enemies.set(j, e);
                let ghost before = shards@;
                shards.push(shard);
                proof {
                    let next = events@.subrange(0, k + 1);
                    assert(es0[j as int].position == shard.position);
                    assert(drops(ps0, es0, next) == drops(ps0, es0, pre).push(shard.position));
                    assert(shards@.subrange(0, old(shards)@.len() as int) =~= before.subrange(
                        0,
                        old(shards)@.len() as int,
                    ));
                    assert forall|m: int| 0 <= m < drops(ps0, es0, next).len() implies valid_drop(
                        #[trigger] shards@[old(shards)@.len() + m],
                    ) && shards@[old(shards)@.len() + m].position == drops(ps0, es0, next)[m] by {
                        if m < drops(ps0, es0, pre).len() {
                            assert(shards@[old(shards)@.len() + m] == before[old(shards)@.len()
                                + m]);
                        }
                    }
                }
            },
            _ => {},
        }
        k = k + 1;
    }
    assert(events@.subrange(0, k as int) =~= events@);
    let ghost hit_enemies = enemies@;
    let mut kept: Vec<Enemy> = Vec::new();
    let mut i: usize = 0;
    while i < enemies.len()
        invariant
            i <= enemies@.len(),
            enemies@ == hit_enemies,
            kept@ == survivors(hit_enemies.subrange(0, i as int)),
        decreases enemies@.len() - i,
    {
        assert(hit_enemies.subrange(0, i + 1).drop_last() =~= hit_enemies.subrange(0, i as int));
        let e = enemies[i];
        if e.health >= 0 {
            kept.push(e);
        }
        i = i + 1;
    }
    assert(hit_enemies.subrange(0, i as int) =~= hit_enemies);
    *enemies = kept;
}

/// After `n` hits of `damage` an enemy has `n * damage` fewer hit points
/// (held at the least `i64` once that is reached), and it is destroyed
/// exactly when `health - n * damage` is below zero.
pub proof fn lemma_repeated_hits(e: Enemy, damage: u32, n: nat)
    ensures
        damaged_n(e, damage, n).health == clamp_i64(e.health - n * damage),
        e.health - n * damage >= i64::MIN ==> damaged_n(e, damage, n).health == e.health - n
            * damage,
        defeated(damaged_n(e, damage, n)) <==> e.health - n * damage < 0,
    decreases n,
{
    if n > 0 {
        assert(n * damage == (n - 1) * damage + damage) by (nonlinear_arith);
        assert(0 <= (n - 1) * damage) by (nonlinear_arith)
            requires
                n >= 1,
                damage >= 0,
        ;
        lemma_repeated_hits(e, damage, (n - 1) as nat);
        let prev = damaged_n(e, damage, (n - 1) as nat);
        assert(damaged_n(e, damage, n) == damaged(prev, damage));
    } else {
        assert(n * damage == 0) by (nonlinear_arith)
            requires
                n == 0,
        ;
    }
}

/// A started collision between a projectile and an enemy of any pool and
/// enemy list costs that enemy exactly the projectile's damage (held at the
/// least `i64`), and the clean-up keeps it exactly when the result is not
/// below zero.
pub proof fn lemma_single_hit(ps: Seq<Projectile>, es: Seq<Enemy>, ev: CollisionEvent)
    requires
        is_hit(ps, es, ev),
    ensures
        ({
            let i = first_slot(ps, ev);
            let j = first_touching(es, ev);
            let hit_enemy = hit(ps, es, ev).1[j];
            &&& hit_enemy == damaged(es[j], ps[i].damage)
            &&& hit_enemy.health == clamp_i64(es[j].health - ps[i].damage)
            &&& (survivors(hit(ps, es, ev).1).contains(hit_enemy) <==> hit_enemy.health >= 0)
        }),
{
    lemma_first_slot_range(ps, ev);
    lemma_first_touching_range(es, ev);
    let j = first_touching(es, ev);
    let after = hit(ps, es, ev).1;
    assert(after.contains(after[j]));
    lemma_survivors(after, after[j]);
}

/// An enemy is kept by the clean-up exactly when it is not defeated.
pub proof fn lemma_survivors(s: Seq<Enemy>, e: Enemy)
    ensures
        survivors(s).contains(e) <==> (s.contains(e) && !defeated(e)),
    decreases s.len(),
{
    if s.len() > 0 {
        lemma_survivors(s.drop_last(), e);
        let p = s.drop_last();
        assert(s =~= p.push(s.last()));
        if s.contains(e) {
            let j = choose|j: int| 0 <= j < s.len() && s[j] == e;
            if j < s.len() - 1 {
                assert(p[j] == e);
            }
        }
        if p.contains(e) {
            let j = choose|j: int| 0 <= j < p.len() && p[j] == e;
            assert(s[j] == e);
        }
        if !defeated(s.last()) {
            let q = survivors(p);
            if q.contains(e) {
                let j = choose|j: int| 0 <= j < q.len() && q[j] == e;
                assert(q.push(s.last())[j] == e);
            }
            if q.push(s.last()).contains(e) && e != s.last() {
                let j = choose|j: int| 0 <= j < q.len() + 1 && q.push(s.last())[j] == e;
                assert(q[j] == e);
            }
            assert(q.push(s.last())[q.len() as int] == s.last());
        }
    }
}

/// Which scripted wave comes next; starts at 1 and only grows.
#[derive(Clone, Copy, Debug, PartialEq, Eq, Structural)]
pub struct CurrentWave(pub i32);

impl CurrentWave {
    pub fn new() -> (r: CurrentWave)
        ensures
            r.0 == 1,
    {
        CurrentWave(1)
    }
}

/// What a wave releases.
#[derive(Clone, Copy, Debug, PartialEq, Eq, Structural)]
pub struct WaveProfile {
    pub count: u32,
    pub size: u32,
    pub radius: u32,
    pub health: i64,
    pub collision_damage: u32,
}

/// Elapsed unpaused play time after which wave 1 fires, in milliseconds.
pub const FIRST_WAVE_MS: u64 = 10000;

/// Elapsed unpaused play time after which wave 2 fires, in milliseconds.
pub const SECOND_WAVE_MS: u64 = 60000;

/// Elapsed unpaused play time after which wave 3 fires, in milliseconds.
pub const THIRD_WAVE_MS: u64 = 90000;

/// Half the side of the square from which spawn points are drawn.
pub const SPAWN_SPREAD: i32 = 1000;

/// The spawn push is the distance to the player divided by this.
pub const NUDGE_DIVISOR: i64 = 50;

/// The wave that fires now, if any: each wave waits for the one before it
/// and for its own time threshold.
pub open spec fn due_profile(wave: i32, elapsed_ms: u64) -> Option<WaveProfile> {
    if wave == 1 && elapsed_ms > FIRST_WAVE_MS {
        Some(WaveProfile { count: 40, size: 150, radius: 30, health: 100, collision_damage: 10 })
    } else if wave == 2 && elapsed_ms > SECOND_WAVE_MS {
        Some(WaveProfile { count: 60, size: 250, radius: 50, health: 100, collision_damage: 10 })
    } else if wave == 3 && elapsed_ms > THIRD_WAVE_MS {
        Some(WaveProfile { count: 80, size: 200, radius: 40, health: 100, collision_damage: 10 })
    } else {
        None
    }
}

pub fn wave_due(wave: i32, elapsed_ms: u64) -> (r: Option<WaveProfile>)
    ensures
        r == due_profile(wave, elapsed_ms),
{
    if wave == 1 && elapsed_ms > FIRST_WAVE_MS {
        Some(WaveProfile { count: 40, size: 150, radius: 30, health: 100, collision_damage: 10 })
    } else if wave == 2 && elapsed_ms > SECOND_WAVE_MS {
        Some(WaveProfile { count: 60, size: 250, radius: 50, health: 100, collision_damage: 10 })
    } else if wave == 3 && elapsed_ms > THIRD_WAVE_MS {
        Some(WaveProfile { count: 80, size: 200, radius: 40, health: 100, collision_damage: 10 })
    } else {
        None
    }
}

/// The wave counter after a tick at `elapsed_ms`.
pub open spec fn next_wave(wave: i32, elapsed_ms: u64) -> i32 {
    if due_profile(wave, elapsed_ms).is_some() {
        (wave + 1) as i32
    } else {
        wave
    }
}

/// The wave counter after ticks at the times of `ts`, in order.
pub open spec fn wave_run(w0: i32, ts: Seq<u64>) -> i32
    decreases ts.len(),
{
    if ts.len() == 0 {
        w0
    } else {
        next_wave(wave_run(w0, ts.drop_last()), ts.last())
    }
}

/// `v` moved a fifth further from zero (rounded towards zero), saturating.
pub open spec fn widened(v: int) -> int {
    clamp_i32(
        if v >= 0 {
            v + v / 5
        } else {
            v - (-v) / 5
        },
    )
}

/// Whether `x` was drawn from `lo..hi`; an empty band yields its start.
pub open spec fn in_band(x: int, lo: int, hi: int) -> bool {
    if lo < hi {
        lo <= x < hi
    } else {
        x == lo
    }
}


/// The random draws behind one spawned enemy: an aim point `(rx, ry)` and
/// an x coordinate in one of the two bands just outside the window.
#[derive(Clone, Copy, Debug, PartialEq, Eq, Structural)]
pub struct SpawnDraw {
    pub rx: i32,
    pub ry: i32,
    pub x: i32,
}

/// Whether a draw lies where the spawner draws from.
pub open spec fn valid_draw(d: SpawnDraw, win: WindowSize) -> bool {
    &&& -SPAWN_SPREAD <= d.rx < SPAWN_SPREAD
    &&& -SPAWN_SPREAD <= d.ry < SPAWN_SPREAD
    &&& (in_band(d.x as int, widened(win.left_wall as int), win.left_wall as int) || in_band(
        d.x as int,
        win.right_wall as int,
        widened(win.right_wall as int),
    ))
}

/// The push that sends a new enemy from `(rx, ry)` towards the player.
pub open spec fn nudge(player: Vec2, rx: i32, ry: i32) -> Vec2 {
    Vec2 {
        x: div_toward_zero(player.x - rx, NUDGE_DIVISOR as int) as i32,
        y: div_toward_zero(player.y - ry, NUDGE_DIVISOR as int) as i32,
    }
}

/// The enemy that a wave of profile `pf` spawns from draw `d`.
pub open spec fn spawned_enemy(pf: WaveProfile, id: u64, player: Vec2, d: SpawnDraw) -> Enemy {
    Enemy {
        id,
        health: pf.health,
        collision_damage: pf.collision_damage,
        position: Vec2 { x: d.x, y: d.ry },
        impulse: nudge(player, d.rx, d.ry),
        size: pf.size,
        radius: pf.radius,
    }
}

/// Whether `e` is what a wave of profile `pf` spawns under id `id` from
/// some draw of the spawner.
pub open spec fn spawned_from(pf: WaveProfile, id: u64, player: Vec2, win: WindowSize, e: Enemy) -> bool {
    exists|d: SpawnDraw| valid_draw(d, win) && e == spawned_enemy(pf, id, player, d)
}

fn widen(v: i32) -> (r: i32)
    ensures
        r == widened(v as int),
{
    let w: i64 = v as i64;
    if w >= 0 {
        saturate_i32(w + w / 5)
    } else {
        saturate_i32(w - (-w) / 5)
    }
}

fn draw_in_band(lo: i32, hi: i32) -> (r: i32)
    ensures
        in_band(r as int, lo as int, hi as int),
{
    if lo < hi {
        random_in_range(lo, hi)
    } else {
        lo
    }
}

fn nudge_axis(a: i64) -> (r: i32)
    requires
        -0x1_0000_0000 <= a <= 0x1_0000_0000,
    ensures
        r == div_toward_zero(a as int, NUDGE_DIVISOR as int),
{
    if a >= 0 {
        (a / NUDGE_DIVISOR) as i32
    } else {
        (-((-a) / NUDGE_DIVISOR)) as i32
    }
}

/// The enemy that a wave of profile `pf` spawns under id `id` from draw `d`.
pub fn spawn_enemy(pf: WaveProfile, id: u64, player: Vec2, d: SpawnDraw) -> (e: Enemy)
    ensures
        e == spawned_enemy(pf, id, player, d),
{
    let impulse = Vec2::new(
        nudge_axis(player.x as i64 - d.rx as i64),
        nudge_axis(player.y as i64 - d.ry as i64),
    );
    Enemy {
        id,
        health: pf.health,
        collision_damage: pf.collision_damage,
        position: Vec2::new(d.x, d.ry),
        impulse,
        size: pf.size,
        radius: pf.radius,
    }
}

/// Releases the wave that is due, if any: `count` enemies of its profile,
/// each at a random height in one of the two bands just outside the left
/// or right window edge, pushed towards the player; the counter then moves
/// to the next wave. Ids are handed out from `next_id`. Returns how many
/// enemies were spawned.
pub fn spawn_wave(
    wave: &mut CurrentWave,
    elapsed_ms: u64,
    player: Vec2,
    win: &WindowSize,
    enemies: &mut Vec<Enemy>,
    next_id: &mut u64,
) -> (r: usize)
    requires
        *old(next_id) + 80 <= u64::MAX,
    ensures
        final(wave).0 == next_wave(old(wave).0, elapsed_ms),
        match due_profile(old(wave).0, elapsed_ms) {
            Some(pf) => {
                &&& r == pf.count
                &&& *final(next_id) == *old(next_id) + pf.count
                &&& final(enemies)@.len() == old(enemies)@.len() + pf.count
                &&& final(enemies)@.subrange(0, old(enemies)@.len() as int) == old(enemies)@
                &&& forall|k: int|
                    0 <= k < pf.count ==> spawned_from(
                        pf,
                        (*old(next_id) + k) as u64,
                        player,
                        *win,
                        #[trigger] final(enemies)@[old(enemies)@.len() + k],
                    )
            },
            None => r == 0 && *final(next_id) == *old(next_id) && final(enemies)@ == old(enemies)@,
        },
{
    match wave_due(wave.0, elapsed_ms) {
        None => 0,
        Some(pf) => {
            let n0 = enemies.len();
            let ghost id0 = *next_id;
            let left_lo = widen(win.left_wall);
            let right_hi = widen(win.right_wall);
            let mut k: u32 = 0;
            while k < pf.count
                invariant
                    due_profile(old(wave).0, elapsed_ms) == Some(pf),
                    pf.count <= 80,
                    k <= pf.count,
                    id0 == *old(next_id),
                    id0 + 80 <= u64::MAX,
                    *next_id == id0 + k,
                    n0 == old(enemies)@.len(),
                    enemies@.len() == n0 + k,
                    enemies@.subrange(0, n0 as int) == old(enemies)@,
                    left_lo == widened(win.left_wall as int),
                    right_hi == widened(win.right_wall as int),
                    forall|m: int|
                        0 <= m < k ==> spawned_from(
                            pf,
                            (id0 + m) as u64,
                            player,
                            *win,
                            #[trigger] enemies@[n0 + m],
                        ),
                decreases pf.count - k,
            {
                let rx = random_in_range(-SPAWN_SPREAD, SPAWN_SPREAD);
                let ry = random_in_range(-SPAWN_SPREAD, SPAWN_SPREAD);
                let x = if random_bool() {
                    draw_in_band(left_lo, win.left_wall)
                } else {
                    draw_in_band(win.right_wall, right_hi)
                };
                let d = SpawnDraw { rx, ry, x };
                let e = spawn_enemy(pf, *next_id, player, d);
                let ghost before = enemies@;
                enemies.push(e);
                proof {
                    assert(valid_draw(d, *win));
                    assert(e == spawned_enemy(pf, (id0 + k) as u64, player, d));
                    assert(enemies@.subrange(0, n0 as int) =~= before.subrange(0, n0 as int));
                    assert forall|m: int|
                        0 <= m < k + 1 implies spawned_from(
                        pf,
                        (id0 + m) as u64,
                        player,
                        *win,
                        #[trigger] enemies@[n0 + m],
                    ) by {
                        if m < k {
                            assert(enemies@[n0 + m] == before[n0 + m]);
                        } else {
                            assert(enemies@[n0 + m] == e);
                        }
                    }
                }
                *next_id = *next_id + 1;
                k = k + 1;
            }
            wave.0 = wave.0 + 1;
            pf.count as usize
        },
    }
}

/// The wave counter never decreases over a run.
pub proof fn lemma_wave_monotonic(w0: i32, ts: Seq<u64>, i: int, j: int)
    requires
        0 <= i <= j <= ts.len(),
    ensures
        wave_run(w0, ts.subrange(0, i)) <= wave_run(w0, ts.subrange(0, j)),
    decreases j - i,
{
    if i < j {
        lemma_wave_monotonic(w0, ts, i, j - 1);
        assert(ts.subrange(0, j).drop_last() =~= ts.subrange(0, j - 1));
    }
}

/// Each tick moves the wave counter by at most one, so no wave is skipped.
pub proof fn lemma_wave_step(w0: i32, ts: Seq<u64>, i: int)
    requires
        0 <= i < ts.len(),
    ensures
        wave_run(w0, ts.subrange(0, i + 1)) == next_wave(wave_run(w0, ts.subrange(0, i)), ts[i]),
        wave_run(w0, ts.subrange(0, i + 1)) <= wave_run(w0, ts.subrange(0, i)) + 1,
{
    assert(ts.subrange(0, i + 1).drop_last() =~= ts.subrange(0, i));
}

/// A wave value fires at most once over a run: two ticks that both release
/// a wave release different ones.
pub proof fn lemma_wave_fires_once(w0: i32, ts: Seq<u64>, i: int, j: int)
    requires
        0 <= i < j < ts.len(),
        due_profile(wave_run(w0, ts.subrange(0, i)), ts[i]).is_some(),
        due_profile(wave_run(w0, ts.subrange(0, j)), ts[j]).is_some(),
    ensures
        wave_run(w0, ts.subrange(0, i)) < wave_run(w0, ts.subrange(0, j)),
{
    lemma_wave_step(w0, ts, i);
    lemma_wave_monotonic(w0, ts, i + 1, j);
}

/// Every wave value that the counter has passed fired at some tick of the
/// run; with `lemma_wave_fires_once`, each fired exactly once.
pub proof fn lemma_wave_fired(w0: i32, ts: Seq<u64>, k: i32)
    requires
        w0 <= k < wave_run(w0, ts),
    ensures
        exists|i: int|
            0 <= i < ts.len() && wave_run(w0, ts.subrange(0, i)) == k && due_profile(
                k,
                ts[i],
            ).is_some(),
    decreases ts.len(),
{
    let n = ts.len() as int;
    if n == 0 {
        assert(false);
    } else {
        let p = ts.drop_last();
        assert(ts.subrange(0, n - 1) =~= p);
        lemma_wave_step(w0, ts, n - 1);
        assert(ts.subrange(0, n) =~= ts);
        if k < wave_run(w0, p) {
            lemma_wave_fired(w0, p, k);
            let i = choose|i: int|
                0 <= i < p.len() && wave_run(w0, p.subrange(0, i)) == k && due_profile(
                    k,
                    p[i],
                ).is_some();
            assert(p.subrange(0, i) =~= ts.subrange(0, i));
            assert(ts[i] == p[i]);
        } else {
            lemma_wave_monotonic(w0, ts, 0, n - 1);
            assert(ts.subrange(0, 0) =~= Seq::<u64>::empty());
            assert(wave_run(w0, ts.subrange(0, n - 1)) == k);
        }
    }
}

proof fn lemma_wave_range(w0: i32, ts: Seq<u64>)
    requires
        1 <= w0 <= 4,
    ensures
        w0 <= wave_run(w0, ts) <= 4,
    decreases ts.len(),
{
    if ts.len() > 0 {
        lemma_wave_range(w0, ts.drop_last());
    }
}

/// Three ticks past the last threshold release every wave still pending,
/// so in such a run waves 1 to 3 each fire (and, by
/// `lemma_wave_fires_once`, only once).
pub proof fn lemma_waves_all_fire(w0: i32, ts: Seq<u64>)
    requires
        1 <= w0 <= 4,
        ts.len() >= 3,
        forall|i: int| ts.len() - 3 <= i < ts.len() ==> ts[i] > THIRD_WAVE_MS,
    ensures
        wave_run(w0, ts) == 4,
{
    let n = ts.len() as int;
    lemma_wave_range(w0, ts.subrange(0, n - 3));
    lemma_wave_step(w0, ts, n - 3);
    lemma_wave_step(w0, ts, n - 2);
    lemma_wave_step(w0, ts, n - 1);
    assert(ts.subrange(0, n) =~= ts);
}

} // verus!
