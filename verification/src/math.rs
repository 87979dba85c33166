//! Fixed-point positions and exact range predicates.
//!
//! Coordinates are integers counted in thousandths of a world unit, so every
//! range rule of the simulation is decided without rounding.

use vstd::prelude::*;

verus! {

/// Number of position sub-units in one world unit.
pub const UNIT: u32 = 1000;

/// A point of the world, in sub-units.
#[derive(Clone, Copy, Debug, PartialEq, Eq, Structural)]
pub struct Position {
    pub x: i32,
    pub y: i32,
    pub z: i32,
}

/// Absolute difference of two coordinates.
pub open spec fn spec_gap(a: i32, b: i32) -> nat {
    if a >= b {
        (a - b) as nat
    } else {
        (b - a) as nat
    }
}

/// Squared Euclidean distance between two points.
pub open spec fn spec_distance_squared(a: Position, b: Position) -> nat {
    spec_gap(a.x, b.x) * spec_gap(a.x, b.x) + spec_gap(a.y, b.y) * spec_gap(a.y, b.y) + spec_gap(
        a.z,
        b.z,
    ) * spec_gap(a.z, b.z)
}

/// Squared distance of the two points projected on the ground plane.
pub open spec fn spec_planar_distance_squared(a: Position, b: Position) -> nat {
    spec_gap(a.x, b.x) * spec_gap(a.x, b.x) + spec_gap(a.y, b.y) * spec_gap(a.y, b.y)
}

/// `range` whole world units, squared, in squared sub-units.
pub open spec fn spec_range_squared(range: u32) -> nat {
    ((range * UNIT) * (range * UNIT)) as nat
}

/// The distance between `a` and `b` is strictly below `range` world units.
pub open spec fn spec_closer_than(a: Position, b: Position, range: u32) -> bool {
    spec_distance_squared(a, b) < spec_range_squared(range)
}

/// The distance between `a` and `b` is strictly above `range` world units.
pub open spec fn spec_farther_than(a: Position, b: Position, range: u32) -> bool {
    spec_distance_squared(a, b) > spec_range_squared(range)
}

/// The ground-plane distance between `a` and `b` is strictly below `range`
/// world units.
pub open spec fn spec_planar_closer_than(a: Position, b: Position, range: u32) -> bool {
    spec_planar_distance_squared(a, b) < spec_range_squared(range)
}

/// `a + b`, held at the bounds of `i32`.
pub open spec fn spec_saturating_sum(a: i32, b: i32) -> i32 {
    if a + b > i32::MAX {
        i32::MAX
    } else if a + b < i32::MIN {
        i32::MIN
    } else {
        (a + b) as i32
    }
}

/// `a - b`, held at the bounds of `i32`.
pub open spec fn spec_saturating_difference(a: i32, b: i32) -> i32 {
    if a - b > i32::MAX {
        i32::MAX
    } else if a - b < i32::MIN {
        i32::MIN
    } else {
        (a - b) as i32
    }
}

/// `a + b`, held at the bounds of `i32`.
pub fn saturating_sum(a: i32, b: i32) -> (r: i32)
    ensures
        r == spec_saturating_sum(a, b),
{
    let wide: i64 = a as i64 + b as i64;
    if wide > i32::MAX as i64 {
        i32::MAX
    } else if wide < i32::MIN as i64 {
        i32::MIN
    } else {
        wide as i32
    }
}

/// `a - b`, held at the bounds of `i32`.
pub fn saturating_difference(a: i32, b: i32) -> (r: i32)
    ensures
        r == spec_saturating_difference(a, b),
{
    let wide: i64 = a as i64 - b as i64;
    if wide > i32::MAX as i64 {
        i32::MAX
    } else if wide < i32::MIN as i64 {
        i32::MIN
    } else {
        wide as i32
    }
}

/// Squaring keeps the order of natural numbers.
pub proof fn lemma_square_bound(d: nat, bound: nat)
    requires
        d <= bound,
    ensures
        d * d <= bound * bound,
{
    assert(d * d <= bound * bound) by (nonlinear_arith)
        requires
            d <= bound,
    ;
}

/// Absolute difference of two coordinates.
pub fn gap(a: i32, b: i32) -> (d: u64)
    ensures
        d == spec_gap(a, b),
        d <= 0xFFFF_FFFF,
{
    if a >= b {
        (a as i64 - b as i64) as u64
    } else {
        (b as i64 - a as i64) as u64
    }
}

fn square(d: u64) -> (s: u128)
    requires
        d <= 0xFFFF_FFFF,
    ensures
        s == d * d,
        s <= 0xFFFF_FFFF * 0xFFFF_FFFF,
{
    proof {
        lemma_square_bound(d as nat, 0xFFFF_FFFF);
    }
    (d as u128) * (d as u128)
}

/// `range` whole world units, squared, in squared sub-units.
pub fn range_squared(range: u32) -> (s: u128)
    ensures
        s == spec_range_squared(range),
{
    let side: u64 = (range as u64) * 1000;
    proof {
        assert(side == range * UNIT);
        lemma_square_bound(side as nat, 0xFFFF_FFFF * 1000);
    }
    (side as u128) * (side as u128)
}

impl Position {
    /// The point with the coordinates `x`, `y` and `z`.
    pub fn new(x: i32, y: i32, z: i32) -> (p: Position)
        ensures
            p == (Position { x, y, z }),
    {
        Position { x, y, z }
    }

    /// Squared Euclidean distance to `other`.
    pub fn distance_squared(&self, other: &Position) -> (d: u128)
        ensures
            d == spec_distance_squared(*self, *other),
    {
        let dx: u128 = square(gap(self.x, other.x));
        let dy: u128 = square(gap(self.y, other.y));
        let dz: u128 = square(gap(self.z, other.z));
        dx + dy + dz
    }

    /// Squared distance to `other` on the ground plane.
    pub fn planar_distance_squared(&self, other: &Position) -> (d: u128)
        ensures
            d == spec_planar_distance_squared(*self, *other),
    {
        let dx: u128 = square(gap(self.x, other.x));
        let dy: u128 = square(gap(self.y, other.y));
        dx + dy
    }

    /// Whether `other` lies strictly closer than `range` world units.
    pub fn closer_than(&self, other: &Position, range: u32) -> (r: bool)
        ensures
            r == spec_closer_than(*self, *other, range),
    {
        self.distance_squared(other) < range_squared(range)
    }

    /// Whether `other` lies strictly farther than `range` world units.
    pub fn farther_than(&self, other: &Position, range: u32) -> (r: bool)
        ensures
            r == spec_farther_than(*self, *other, range),
    {
        self.distance_squared(other) > range_squared(range)
    }

    /// Whether `other` lies strictly closer than `range` world units on the
    /// ground plane.
    pub fn planar_closer_than(&self, other: &Position, range: u32) -> (r: bool)
        ensures
            r == spec_planar_closer_than(*self, *other, range),
    {
        self.planar_distance_squared(other) < range_squared(range)
    }
}

/// `root` is the integer square root of `n`.
pub open spec fn is_sqrt(n: nat, root: nat) -> bool {
    root * root <= n < (root + 1) * (root + 1)
}

/// The integer square root of `n`: the greatest number whose square is not
/// above `n`.
pub open spec fn spec_isqrt(n: nat) -> nat {
    choose|root: nat| is_sqrt(n, root)
}

/// A number has at most one integer square root.
pub proof fn lemma_sqrt_unique(n: nat, a: nat, b: nat)
    requires
        is_sqrt(n, a),
        is_sqrt(n, b),
    ensures
        a == b,
{
    if a < b {
        lemma_square_bound(a + 1, b);
    } else if b < a {
        lemma_square_bound(b + 1, a);
    }
}

/// The integer square root of `n`.
pub fn isqrt(n: u128) -> (root: u64)
    ensures
        is_sqrt(n as nat, root as nat),
        root == spec_isqrt(n as nat),
{
    let mut low: u128 = 0;
    let mut high: u128 = 0x1_0000_0000_0000_0000;
    proof {
        assert(0x1_0000_0000_0000_0000 * 0x1_0000_0000_0000_0000 > u128::MAX) by (nonlinear_arith);
    }
    while high - low > 1
        invariant
            low < high <= 0x1_0000_0000_0000_0000,
            low * low <= n < high * high,
        decreases high - low,
    {
        let mid: u128 = low + (high - low) / 2;
        proof {
            lemma_square_bound(mid as nat, 0xFFFF_FFFF_FFFF_FFFF);
            assert(0xFFFF_FFFF_FFFF_FFFF * 0xFFFF_FFFF_FFFF_FFFF < u128::MAX) by (nonlinear_arith);
        }
        if mid * mid <= n {
            low = mid;
        } else {
            high = mid;
        }
    }
    proof {
        assert(high == low + 1);
        assert(is_sqrt(n as nat, low as nat));
        lemma_sqrt_unique(n as nat, low as nat, spec_isqrt(n as nat));
    }
    low as u64
}

/// `amount * speed / distance`: the part of `amount` that belongs to a step
/// of length `speed` along a way of length `distance`.
pub open spec fn spec_share(amount: nat, speed: nat, distance: nat) -> nat {
    (amount * speed) / distance
}

/// A share is not above the whole when the step is not longer than the way.
pub proof fn lemma_share_bound(amount: nat, speed: nat, distance: nat)
    requires
        speed <= distance,
        0 < distance,
    ensures
        spec_share(amount, speed, distance) <= amount,
{
    assert((amount * speed) / distance <= amount) by (nonlinear_arith)
        requires
            speed <= distance,
            0 < distance,
    ;
}

/// The coordinate reached from `from` by going `speed` along a way of length
/// `distance` that ends at `to`.
pub open spec fn spec_step_coordinate(from: i32, to: i32, speed: nat, distance: nat) -> int {
    if to >= from {
        from + spec_share(spec_gap(from, to), speed, distance)
    } else {
        from - spec_share(spec_gap(from, to), speed, distance)
    }
}

/// The point reached from `from` by a step of `speed` sub-units towards
/// `to`; `to` itself where it is no farther than that.  Each coordinate is
/// cut off towards `from`.
pub open spec fn spec_step_toward(from: Position, to: Position, speed: u32) -> Position {
    let distance = spec_isqrt(spec_distance_squared(from, to));
    if speed >= distance {
        to
    } else {
        Position {
            x: spec_step_coordinate(from.x, to.x, speed as nat, distance) as i32,
            y: spec_step_coordinate(from.y, to.y, speed as nat, distance) as i32,
            z: spec_step_coordinate(from.z, to.z, speed as nat, distance) as i32,
        }
    }
}

fn step_coordinate(from: i32, to: i32, speed: u32, distance: u64) -> (reached: i32)
    requires
        speed < distance,
    ensures
        reached == spec_step_coordinate(from, to, speed as nat, distance as nat),
{
    let whole: u64 = gap(from, to);
    proof {
        lemma_share_bound(whole as nat, speed as nat, distance as nat);
        assert(whole * speed <= 0xFFFF_FFFF * 0xFFFF_FFFF) by (nonlinear_arith)
            requires
                whole <= 0xFFFF_FFFF,
                speed <= 0xFFFF_FFFF,
        ;
    }
    let share: u64 = (whole * (speed as u64)) / distance;
    if to >= from {
        (from as i64 + share as i64) as i32
    } else {
        (from as i64 - share as i64) as i32
    }
}

impl Position {
    /// The point reached from here by a step of `speed` sub-units towards
    /// `to`.
    pub fn step_toward(&self, to: &Position, speed: u32) -> (reached: Position)
        ensures
            reached == spec_step_toward(*self, *to, speed),
    {
        let distance: u64 = isqrt(self.distance_squared(to));
        if speed as u64 >= distance {
            *to
        } else {
            Position {
                x: step_coordinate(self.x, to.x, speed, distance),
                y: step_coordinate(self.y, to.y, speed, distance),
                z: step_coordinate(self.z, to.z, speed, distance),
            }
        }
    }
}

} // verus!
