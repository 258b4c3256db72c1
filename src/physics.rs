//! Plain values exchanged with the physics adapter.
use vstd::prelude::*;

verus! {

/// Smallest value of `i32`, as an integer.
pub open spec fn i32_lo() -> int {
    i32::MIN as int
}

/// Largest value of `i32`, as an integer.
pub open spec fn i32_hi() -> int {
    i32::MAX as int
}

/// `v` clamped into the range of `i32`.
pub open spec fn clamp_i32(v: int) -> int {
    if v < i32_lo() {
        i32_lo()
    } else if v > i32_hi() {
        i32_hi()
    } else {
        v
    }
}

/// `v` clamped into the range of `i64`.
pub open spec fn clamp_i64(v: int) -> int {
    if v < i64::MIN as int {
        i64::MIN as int
    } else if v > i64::MAX as int {
        i64::MAX as int
    } else {
        v
    }
}

/// Narrows a wide intermediate to `i32`, saturating at the bounds.
pub fn saturate_i32(v: i64) -> (r: i32)
    ensures
        r == clamp_i32(v as int),
{
    if v < i32::MIN as i64 {
        i32::MIN
    } else if v > i32::MAX as i64 {
        i32::MAX
    } else {
        v as i32
    }
}

/// `a - b`, saturating at the bounds of `i64`.
pub fn saturating_sub_i64(a: i64, b: i64) -> (r: i64)
    ensures
        r == clamp_i64(a - b),
{
    let d: i128 = a as i128 - b as i128;
    if d < i64::MIN as i128 {
        i64::MIN
    } else if d > i64::MAX as i128 {
        i64::MAX
    } else {
        d as i64
    }
}

/// `a / d` rounded towards zero.
pub open spec fn div_toward_zero(a: int, d: int) -> int {
    if a >= 0 {
        a / d
    } else {
        -((-a) / d)
    }
}

/// `a / d` rounded towards zero, for a positive divisor.
pub fn div_toward_zero_i64(a: i64, d: i64) -> (r: i64)
    requires
        d > 0,
        a > i64::MIN,
    ensures
        r == div_toward_zero(a as int, d as int),
{
    if a >= 0 {
        a / d
    } else {
        -((-a) / d)
    }
}

/// Whether `r` is the integer square root of `n`, rounded down.
pub open spec fn is_isqrt(n: int, r: int) -> bool {
    0 <= r && r * r <= n < (r + 1) * (r + 1)
}

/// The integer square root of `n`, rounded down.
pub open spec fn isqrt_spec(n: int) -> int {
    choose|r: int| is_isqrt(n, r)
}

proof fn lemma_isqrt_unique(n: int, r1: int, r2: int)
    requires
        is_isqrt(n, r1),
        is_isqrt(n, r2),
    ensures
        r1 == r2,
{
    if r1 < r2 {
        assert((r1 + 1) * (r1 + 1) <= r2 * r2) by (nonlinear_arith)
            requires
                0 <= r1 < r2,
        ;
    } else if r2 < r1 {
        assert((r2 + 1) * (r2 + 1) <= r1 * r1) by (nonlinear_arith)
            requires
                0 <= r2 < r1,
        ;
    }
}

/// The square root of `n`, rounded down, by bisection.
pub fn isqrt(n: u128) -> (r: u64)
    requires
        n < 0x4000_0000_0000_0000_0000_0000,
    ensures
        is_isqrt(n as int, r as int),
        r == isqrt_spec(n as int),
{
    let mut lo: u128 = 0;
    let mut hi: u128 = 0x8000_0000_0000;
    assert(hi * hi == 0x4000_0000_0000_0000_0000_0000);
    while hi - lo > 1
        invariant
            lo < hi <= 0x8000_0000_0000,
            lo * lo <= n < hi * hi,
        decreases hi - lo,
    {
        let mid: u128 = lo + (hi - lo) / 2;
        assert(mid * mid <= 0x8000_0000_0000 * 0x8000_0000_0000) by (nonlinear_arith)
            requires
                0 <= mid <= 0x8000_0000_0000,
        ;
        if mid * mid <= n {
            lo = mid;
        } else {
            hi = mid;
        }
    }
    assert(hi == lo + 1);
    proof {
        assert(is_isqrt(n as int, lo as int));
        lemma_isqrt_unique(n as int, lo as int, isqrt_spec(n as int));
    }
    lo as u64
}

/// A 2D vector in world units.
#[derive(Clone, Copy, Debug, PartialEq, Eq, Structural)]
pub struct Vec2 {
    pub x: i32,
    pub y: i32,
}

impl Vec2 {
    pub open spec fn zero_spec() -> Vec2 {
        Vec2 { x: 0, y: 0 }
    }

    pub fn new(x: i32, y: i32) -> (r: Vec2)
        ensures
            r.x == x,
            r.y == y,
    {
        Vec2 { x, y }
    }

    pub fn zero() -> (r: Vec2)
        ensures
            r == Vec2::zero_spec(),
    {
        Vec2 { x: 0, y: 0 }
    }

    /// Squared Euclidean distance between two points.
    pub open spec fn dist_sq(self, o: Vec2) -> int {
        (self.x - o.x) * (self.x - o.x) + (self.y - o.y) * (self.y - o.y)
    }

    /// Whether `o` lies strictly closer than `radius` to `self`.
    pub open spec fn within(self, o: Vec2, radius: int) -> bool {
        self.dist_sq(o) < radius * radius
    }

    pub fn distance_squared(&self, o: &Vec2) -> (r: i128)
        ensures
            r == self.dist_sq(*o),
    {
        let dx: i64 = self.x as i64 - o.x as i64;
        let dy: i64 = self.y as i64 - o.y as i64;
        proof {
            let b: int = 0x1_0000_0000;
            assert(dx * dx <= b * b) by (nonlinear_arith)
                requires
                    -b <= dx <= b,
            ;
            assert(dy * dy <= b * b) by (nonlinear_arith)
                requires
                    -b <= dy <= b,
            ;
            assert(0 <= dx * dx) by (nonlinear_arith);
            assert(0 <= dy * dy) by (nonlinear_arith);
        }
        let sx: i128 = dx as i128 * dx as i128;
        let sy: i128 = dy as i128 * dy as i128;
        sx + sy
    }

    /// Whether `o` lies strictly closer than `radius` to `self`.
    pub fn is_within(&self, o: &Vec2, radius: i32) -> (r: bool)
        ensures
            r == self.within(*o, radius as int),
    {
        proof {
            let b: int = 0x1_0000_0000;
            assert(radius * radius <= b * b) by (nonlinear_arith)
                requires
                    -b <= radius <= b,
            ;
            assert(0 <= radius * radius) by (nonlinear_arith);
        }
        let rr: i128 = radius as i128 * radius as i128;
        self.distance_squared(o) < rr
    }

    /// The vector reflected across the horizontal axis: `v - 2 (v . n) n`
    /// with the normal `n = (0, 1)`, which negates `y` (saturating).
    pub open spec fn reflect_spec(self) -> Vec2 {
        Vec2 { x: self.x, y: clamp_i32(-self.y) as i32 }
    }

    pub fn reflect(&self) -> (r: Vec2)
        ensures
            r == self.reflect_spec(),
    {
        Vec2 { x: self.x, y: saturate_i32(-(self.y as i64)) }
    }
}

/// Linear and angular velocity of a rigid body.
#[derive(Clone, Copy, Debug, PartialEq, Eq, Structural)]
pub struct Velocity {
    pub linvel: Vec2,
    pub angvel: i32,
}

impl Velocity {
    pub open spec fn zero_spec() -> Velocity {
        Velocity { linvel: Vec2::zero_spec(), angvel: 0 }
    }

    pub fn zero() -> (r: Velocity)
        ensures
            r == Velocity::zero_spec(),
    {
        Velocity { linvel: Vec2::zero(), angvel: 0 }
    }

    pub fn linear(linvel: Vec2) -> (r: Velocity)
        ensures
            r == (Velocity { linvel, angvel: 0 }),
    {
        Velocity { linvel, angvel: 0 }
    }
}

/// A pending one-shot push on a rigid body.
#[derive(Clone, Copy, Debug, PartialEq, Eq, Structural)]
pub struct ExternalImpulse {
    pub impulse: Vec2,
    pub torque_impulse: i32,
}

impl ExternalImpulse {
    pub open spec fn zero_spec() -> ExternalImpulse {
        ExternalImpulse { impulse: Vec2::zero_spec(), torque_impulse: 0 }
    }

    pub fn zero() -> (r: ExternalImpulse)
        ensures
            r == ExternalImpulse::zero_spec(),
    {
        ExternalImpulse { impulse: Vec2::zero(), torque_impulse: 0 }
    }
}

/// A collision notification from the physics adapter, as a pair of entity ids.
#[derive(Clone, Copy, Debug, PartialEq, Eq, Structural)]
pub enum CollisionEvent {
    Started(u64, u64),
    Stopped(u64, u64),
}

/// Whether entity `id` is one of the two partners of a started collision.
pub open spec fn touches(ev: CollisionEvent, id: u64) -> bool {
    match ev {
        CollisionEvent::Started(a, b) => a == id || b == id,
        CollisionEvent::Stopped(_, _) => false,
    }
}

pub fn event_touches(ev: &CollisionEvent, id: u64) -> (r: bool)
    ensures
        r == touches(*ev, id),
{
    match ev {
        CollisionEvent::Started(a, b) => *a == id || *b == id,
        CollisionEvent::Stopped(_, _) => false,
    }
}

} // verus!
