//! Direction selection of the desktop compass.
//!
//! Directions: 0 = up, 1 = up-right, 2 = right, 3 = down-right, 4 = down,
//! 5 = down-left, 6 = left, 7 = up-left, -1 = nothing selected.  `(dx, dy)` is
//! the cursor offset from the compass origin in screen coordinates (y grows
//! downwards).  Direction `k` covers the bearings `[45k - 22.5, 45k + 22.5)`
//! degrees, measured clockwise from straight up.
//!
//! The sector boundaries lie at odd multiples of 22.5 degrees, whose slopes are
//! `±(sqrt 2 - 1)` or its inverse.  Every test below is therefore a sign of a
//! number `a + b * sqrt 2` with integers `a` and `b`, which is decided exactly.

use vstd::prelude::*;

verus! {

/// `a + b * sqrt(2) > 0`.
pub open spec fn sqrt2_pos(a: int, b: int) -> bool {
    if a >= 0 && b >= 0 {
        a > 0 || b > 0
    } else if a <= 0 && b <= 0 {
        false
    } else if a > 0 {
        // b < 0
        a * a > 2 * (b * b)
    } else {
        // a < 0, b > 0
        2 * (b * b) > a * a
    }
}

/// Boundary ray `j` points at the bearing `22.5 + 45 j` degrees.  Its direction,
/// scaled by a positive factor, is `(x, y)` with `x = r.0 + r.1 * sqrt 2` and
/// `y = r.2 + r.3 * sqrt 2`, in coordinates with x to the right and y upwards.
pub open spec fn boundary_ray(j: int) -> (int, int, int, int) {
    if j == 0 {
        (-1, 1, 1, 0)
    } else if j == 1 {
        (1, 0, -1, 1)
    } else if j == 2 {
        (1, 0, 1, -1)
    } else if j == 3 {
        (-1, 1, -1, 0)
    } else if j == 4 {
        (1, -1, -1, 0)
    } else if j == 5 {
        (-1, 0, 1, -1)
    } else if j == 6 {
        (-1, 0, -1, 1)
    } else {
        (1, -1, 1, 0)
    }
}

/// The cross product of boundary ray `j` with the point `(u, v)` (u to the right,
/// v upwards), as the pair `(a, b)` of `a + b * sqrt 2`.  It is positive exactly
/// when the point lies clockwise of the ray by less than 180 degrees.
pub open spec fn cross_with_ray(u: int, v: int, j: int) -> (int, int) {
    let r = boundary_ray(j);
    (u * r.2 - v * r.0, u * r.3 - v * r.1)
}

/// The dot product of boundary ray `j` with `(u, v)`, as `(a, b)`.
pub open spec fn dot_with_ray(u: int, v: int, j: int) -> (int, int) {
    let r = boundary_ray(j);
    (u * r.0 + v * r.2, u * r.1 + v * r.3)
}

/// The bearing of `(u, v)` lies in `[phi_j, phi_j + 180)`.
pub open spec fn at_or_past(u: int, v: int, j: int) -> bool {
    let c = cross_with_ray(u, v, j);
    let d = dot_with_ray(u, v, j);
    sqrt2_pos(c.0, c.1) || (c.0 == 0 && c.1 == 0 && sqrt2_pos(d.0, d.1))
}

/// The bearing of `(u, v)` lies in `(phi_j, phi_j + 180]`.
pub open spec fn strictly_past(u: int, v: int, j: int) -> bool {
    let c = cross_with_ray(u, v, j);
    let d = dot_with_ray(u, v, j);
    sqrt2_pos(c.0, c.1) || (c.0 == 0 && c.1 == 0 && sqrt2_pos(-d.0, -d.1))
}

/// The bearing of `(u, v)` lies in sector `k`: `[45k - 22.5, 45k + 22.5)`.
pub open spec fn in_sector(u: int, v: int, k: int) -> bool {
    at_or_past(u, v, (k + 7) % 8) && !at_or_past(u, v, k)
}

/// The bearing of `(u, v)` is at most 22.5 degrees away from the centre of
/// sector `c`: `[45c - 22.5, 45c + 22.5]`.
pub open spec fn within_band(u: int, v: int, c: int) -> bool {
    at_or_past(u, v, (c + 7) % 8) && !strictly_past(u, v, c)
}

/// The first sector at or after `k` that holds the bearing of `(u, v)`, or 8.
pub open spec fn first_sector_from(u: int, v: int, k: int) -> int
    decreases 8 - k,
{
    if k >= 8 {
        8
    } else if in_sector(u, v, k) {
        k
    } else {
        first_sector_from(u, v, k + 1)
    }
}

/// The point whose bearing is measured: the offset with y turned upwards; the
/// origin itself counts as pointing right (as `atan2(0, 0) = 0` does).
pub open spec fn bearing_point(dx: int, dy: int) -> (int, int) {
    if dx == 0 && dy == 0 {
        (1, 0)
    } else {
        (dx, -dy)
    }
}

/// The sector of the offset `(dx, dy)`.
pub open spec fn sector_of(dx: int, dy: int) -> int {
    let p = bearing_point(dx, dy);
    first_sector_from(p.0, p.1, 0)
}

/// The offset lies inside the dead zone: its length is below the dead-zone radius,
/// given as `dead_zone_sq`, the least integer not below the squared radius.
pub open spec fn in_dead_zone(dx: int, dy: int, dead_zone_sq: int) -> bool {
    dx * dx + dy * dy < dead_zone_sq
}

/// The direction chosen for the offset `(dx, dy)` when `current` is selected.
pub open spec fn direction_spec(dx: int, dy: int, current: int, dead_zone_sq: int) -> int {
    let p = bearing_point(dx, dy);
    if in_dead_zone(dx, dy, dead_zone_sq) {
        -1
    } else if 0 <= current <= 7 && within_band(p.0, p.1, current) {
        current
    } else {
        sector_of(dx, dy)
    }
}

} // verus!

verus! {

/// `sqrt 2` is irrational: `a * a == 2 * b * b` only for `a == b == 0`.
pub proof fn lemma_sqrt2_irrational(a: nat, b: nat)
    requires
        a * a == 2 * (b * b),
    ensures
        a == 0 && b == 0,
    decreases a,
{
    if a == 0 {
        assert(b == 0) by (nonlinear_arith)
            requires
                a == 0,
                a * a == 2 * (b * b),
        ;
    } else {
        let q: nat = a / 2;
        let r: nat = a % 2;
        assert(a == 2 * q + r);
        assert(r == 0) by (nonlinear_arith)
            requires
                a == 2 * q + r,
                r < 2,
                a * a == 2 * (b * b),
        {
            if r == 1 {
                assert(a * a == 4 * (q * q + q) + 1);
            }
        }
        assert(b * b == 2 * (q * q)) by (nonlinear_arith)
            requires
                a == 2 * q,
                a * a == 2 * (b * b),
        ;
        assert(b < a) by (nonlinear_arith)
            requires
                a * a == 2 * (b * b),
                a > 0,
        {
            if b >= a {
                assert(b * b >= a * a);
            }
        }
        lemma_sqrt2_irrational(b, q);
    }
}

/// A number `a + b * sqrt 2` other than zero is either positive or negative.
pub proof fn lemma_sqrt2_sign(a: int, b: int)
    requires
        a != 0 || b != 0,
    ensures
        sqrt2_pos(a, b) != sqrt2_pos(-a, -b),
{
    if a * a == 2 * (b * b) {
        let an: nat = if a >= 0 { a as nat } else { (-a) as nat };
        let bn: nat = if b >= 0 { b as nat } else { (-b) as nat };
        assert(an * an == a * a) by (nonlinear_arith)
            requires
                an == a || an == -a,
        ;
        assert(bn * bn == b * b) by (nonlinear_arith)
            requires
                bn == b || bn == -b,
        ;
        lemma_sqrt2_irrational(an, bn);
    }
    assert((-a) * (-a) == a * a) by (nonlinear_arith);
    assert((-b) * (-b) == b * b) by (nonlinear_arith);
}

/// No point other than the origin lies on a boundary line.
proof fn lemma_cross_nonzero(u: int, v: int, j: int)
    requires
        u != 0 || v != 0,
        0 <= j < 8,
    ensures
        cross_with_ray(u, v, j).0 != 0 || cross_with_ray(u, v, j).1 != 0,
{
}

/// Ray `j + 4` points opposite to ray `j`.
proof fn lemma_opposite_rays(u: int, v: int, j: int)
    requires
        0 <= j < 4,
    ensures
        cross_with_ray(u, v, j + 4).0 == -cross_with_ray(u, v, j).0,
        cross_with_ray(u, v, j + 4).1 == -cross_with_ray(u, v, j).1,
{
    let r = boundary_ray(j);
    let q = boundary_ray(j + 4);
    assert(q.0 == -r.0 && q.1 == -r.1 && q.2 == -r.2 && q.3 == -r.3);
    assert(u * q.2 == -(u * r.2) && u * q.3 == -(u * r.3)) by (nonlinear_arith)
        requires
            q.2 == -r.2,
            q.3 == -r.3,
    ;
    assert(v * q.0 == -(v * r.0) && v * q.1 == -(v * r.1)) by (nonlinear_arith)
        requires
            q.0 == -r.0,
            q.1 == -r.1,
    ;
}

/// A point other than the origin is at or past exactly one of two opposite rays.
proof fn lemma_at_or_past_opposite(u: int, v: int, j: int)
    requires
        u != 0 || v != 0,
        0 <= j < 4,
    ensures
        at_or_past(u, v, j + 4) == !at_or_past(u, v, j),
{
    lemma_cross_nonzero(u, v, j);
    lemma_cross_nonzero(u, v, j + 4);
    lemma_opposite_rays(u, v, j);
    let c = cross_with_ray(u, v, j);
    lemma_sqrt2_sign(c.0, c.1);
}

proof fn lemma_first_sector_at_most(u: int, v: int, i: int, k: int)
    requires
        0 <= i <= k < 8,
        in_sector(u, v, k),
    ensures
        first_sector_from(u, v, i) <= k,
    decreases k - i,
{
    if !in_sector(u, v, i) {
        lemma_first_sector_at_most(u, v, i + 1, k);
    }
}

proof fn lemma_first_sector_is_sector(u: int, v: int, i: int)
    requires
        0 <= i <= 8,
    ensures
        first_sector_from(u, v, i) >= i,
        first_sector_from(u, v, i) < 8 ==> in_sector(u, v, first_sector_from(u, v, i)),
        first_sector_from(u, v, i) <= 8,
    decreases 8 - i,
{
    if i < 8 && !in_sector(u, v, i) {
        lemma_first_sector_is_sector(u, v, i + 1);
    }
}

/// Every point other than the origin lies in some sector.
pub proof fn lemma_sector_exists(u: int, v: int)
    requires
        u != 0 || v != 0,
    ensures
        0 <= first_sector_from(u, v, 0) < 8,
        in_sector(u, v, first_sector_from(u, v, 0)),
{
    lemma_at_or_past_opposite(u, v, 0);
    lemma_at_or_past_opposite(u, v, 1);
    lemma_at_or_past_opposite(u, v, 2);
    lemma_at_or_past_opposite(u, v, 3);
    let b0 = at_or_past(u, v, 0);
    let b1 = at_or_past(u, v, 1);
    let b2 = at_or_past(u, v, 2);
    let b3 = at_or_past(u, v, 3);
    let b7 = at_or_past(u, v, 7);
    let k: int = if b7 && !b0 {
        0
    } else if b0 && !b1 {
        1
    } else if b1 && !b2 {
        2
    } else if b2 && !b3 {
        3
    } else if b3 && b0 {
        // b4 = !b0
        4
    } else if !b0 && b1 {
        5
    } else if !b1 && b2 {
        6
    } else {
        7
    };
    assert(in_sector(u, v, k));
    lemma_first_sector_at_most(u, v, 0, k);
    lemma_first_sector_is_sector(u, v, 0);
}

} // verus!

verus! {

/// Bound on the components handled by the exact sign tests.
pub open spec fn coord_bound() -> int {
    0x1_0000_0000_0000
}

fn sqrt2_pos_exec(a: i128, b: i128) -> (r: bool)
    requires
        -coord_bound() <= a <= coord_bound(),
        -coord_bound() <= b <= coord_bound(),
    ensures
        r == sqrt2_pos(a as int, b as int),
{
    if a >= 0 && b >= 0 {
        a > 0 || b > 0
    } else if a <= 0 && b <= 0 {
        false
    } else {
        assert(a * a <= coord_bound() * coord_bound()) by (nonlinear_arith)
            requires
                -coord_bound() <= a <= coord_bound(),
        ;
        assert(b * b <= coord_bound() * coord_bound()) by (nonlinear_arith)
            requires
                -coord_bound() <= b <= coord_bound(),
        ;
        assert(a * a >= 0 && b * b >= 0) by (nonlinear_arith);
        let aa = a * a;
        let bb = 2 * (b * b);
        if a > 0 {
            aa > bb
        } else {
            bb > aa
        }
    }
}

fn boundary_ray_exec(j: u8) -> (r: (i128, i128, i128, i128))
    requires
        j < 8,
    ensures
        r.0 as int == boundary_ray(j as int).0,
        r.1 as int == boundary_ray(j as int).1,
        r.2 as int == boundary_ray(j as int).2,
        r.3 as int == boundary_ray(j as int).3,
{
    if j == 0 {
        (-1, 1, 1, 0)
    } else if j == 1 {
        (1, 0, -1, 1)
    } else if j == 2 {
        (1, 0, 1, -1)
    } else if j == 3 {
        (-1, 1, -1, 0)
    } else if j == 4 {
        (1, -1, -1, 0)
    } else if j == 5 {
        (-1, 0, 1, -1)
    } else if j == 6 {
        (-1, 0, -1, 1)
    } else {
        (1, -1, 1, 0)
    }
}

/// Product of a coordinate with a ray component in `{-1, 0, 1}`.
fn mul_unit(x: i128, c: i128) -> (r: i128)
    requires
        -0x1_0000_0000 <= x <= 0x1_0000_0000,
        -1 <= c <= 1,
    ensures
        r == x * c,
        -0x1_0000_0000 <= r <= 0x1_0000_0000,
{
    if c == 0 {
        assert(x * c == 0) by (nonlinear_arith)
            requires
                c == 0,
        ;
        0
    } else if c == 1 {
        assert(x * c == x) by (nonlinear_arith)
            requires
                c == 1,
        ;
        x
    } else {
        assert(x * c == -x) by (nonlinear_arith)
            requires
                c == -1,
        ;
        -x
    }
}

/// The two sign tests against boundary ray `j`: `at_or_past` and `strictly_past`.
fn ray_tests(u: i128, v: i128, j: u8) -> (r: (bool, bool))
    requires
        -0x1_0000_0000 <= u <= 0x1_0000_0000,
        -0x1_0000_0000 <= v <= 0x1_0000_0000,
        j < 8,
    ensures
        r.0 == at_or_past(u as int, v as int, j as int),
        r.1 == strictly_past(u as int, v as int, j as int),
{
    let ray = boundary_ray_exec(j);
    let c0 = mul_unit(u, ray.2) - mul_unit(v, ray.0);
    let c1 = mul_unit(u, ray.3) - mul_unit(v, ray.1);
    let d0 = mul_unit(u, ray.0) + mul_unit(v, ray.2);
    let d1 = mul_unit(u, ray.1) + mul_unit(v, ray.3);
    let cross_pos = sqrt2_pos_exec(c0, c1);
    let on_line = c0 == 0 && c1 == 0;
    let ahead = sqrt2_pos_exec(d0, d1);
    let behind = sqrt2_pos_exec(-d0, -d1);
    (cross_pos || (on_line && ahead), cross_pos || (on_line && behind))
}

fn in_sector_exec(u: i128, v: i128, k: u8) -> (r: bool)
    requires
        -0x1_0000_0000 <= u <= 0x1_0000_0000,
        -0x1_0000_0000 <= v <= 0x1_0000_0000,
        k < 8,
    ensures
        r == in_sector(u as int, v as int, k as int),
{
    let prev = (k + 7) % 8;
    let a = ray_tests(u, v, prev);
    let b = ray_tests(u, v, k);
    a.0 && !b.0
}

fn within_band_exec(u: i128, v: i128, c: u8) -> (r: bool)
    requires
        -0x1_0000_0000 <= u <= 0x1_0000_0000,
        -0x1_0000_0000 <= v <= 0x1_0000_0000,
        c < 8,
    ensures
        r == within_band(u as int, v as int, c as int),
{
    let prev = (c + 7) % 8;
    let a = ray_tests(u, v, prev);
    let b = ray_tests(u, v, c);
    a.0 && !b.1
}

/// The direction selected for the cursor offset `(dx, dy)` from the compass origin.
///
/// Inside the dead zone (`dx² + dy² < dead_zone_sq`) nothing is selected (-1).
/// Otherwise the currently selected direction `current` is kept while the cursor's
/// bearing stays within 22.5 degrees of its centre; else the sector holding the
/// bearing is selected.  `dead_zone_sq` is the dead-zone radius squared, rounded
/// up to an integer.
pub fn compass_direction(dx: i32, dy: i32, current: i8, dead_zone_sq: u64) -> (r: i8)
    ensures
        r == direction_spec(dx as int, dy as int, current as int, dead_zone_sq as int),
        -1 <= r <= 7,
        (r == -1) == in_dead_zone(dx as int, dy as int, dead_zone_sq as int),
        (r == -1) == (dx * dx + dy * dy < dead_zone_sq),
        dx * dx + dy * dy >= dead_zone_sq ==> 0 <= r <= 7,
{
    let x = dx as i128;
    let y = dy as i128;
    assert(x * x <= 0x4000_0000_0000_0000 && y * y <= 0x4000_0000_0000_0000) by (nonlinear_arith)
        requires
            -0x8000_0000 <= x <= 0x8000_0000,
            -0x8000_0000 <= y <= 0x8000_0000,
    ;
    assert(x * x >= 0 && y * y >= 0) by (nonlinear_arith);
    if x * x + y * y < dead_zone_sq as i128 {
        return -1;
    }
    let (u, v): (i128, i128) = if dx == 0 && dy == 0 {
        (1, 0)
    } else {
        (x, -y)
    };
    proof {
        lemma_sector_exists(u as int, v as int);
    }
    if 0 <= current && current <= 7 && within_band_exec(u, v, current as u8) {
        return current;
    }
    let mut k: u8 = 0;
    while k < 8
        invariant
            k <= 8,
            -0x1_0000_0000 <= u <= 0x1_0000_0000,
            -0x1_0000_0000 <= v <= 0x1_0000_0000,
            first_sector_from(u as int, v as int, 0) == first_sector_from(u as int, v as int, k as int),
            first_sector_from(u as int, v as int, 0) < 8,
            (u as int, v as int) == bearing_point(dx as int, dy as int),
            !in_dead_zone(dx as int, dy as int, dead_zone_sq as int),
            !(0 <= current <= 7 && within_band(u as int, v as int, current as int)),
        decreases 8 - k,
    {
        if in_sector_exec(u, v, k) {
            return k as i8;
        }
        k = k + 1;
    }
    7
}

} // verus!

verus! {

/// Multiplying by `sqrt 2` keeps the sign: `(a + b sqrt 2) sqrt 2 = 2b + a sqrt 2`.
proof fn lemma_sqrt2_times(a: int, b: int)
    ensures
        sqrt2_pos(2 * b, a) == sqrt2_pos(a, b),
{
    assert((2 * b) * (2 * b) == 4 * (b * b)) by (nonlinear_arith);
}

/// With `p > r sqrt 2` and `q < t sqrt 2`: `p - q > (r - t) sqrt 2`, squared.
proof fn lemma_mixed_sum(p: int, q: int, r: int, t: int)
    requires
        p >= 0,
        q >= 0,
        r >= 0,
        t >= 0,
        p * p > 2 * (r * r),
        2 * (t * t) > q * q,
        p > q,
        r > t,
    ensures
        (p - q) * (p - q) > 2 * ((r - t) * (r - t)),
{
    assert((p - q) * (p - q) > 2 * ((r - t) * (r - t))) by (nonlinear_arith)
        requires
            p >= 0,
            q >= 0,
            r >= 0,
            t >= 0,
            p * p > 2 * (r * r),
            2 * (t * t) > q * q,
            p > q,
            r > t,
    ;
}

/// With `p > r sqrt 2` and `q < t sqrt 2`: `q - p < (t - r) sqrt 2`, squared.
proof fn lemma_mixed_sum2(p: int, q: int, r: int, t: int)
    requires
        p >= 0,
        q >= 0,
        r >= 0,
        t >= 0,
        p * p > 2 * (r * r),
        2 * (t * t) > q * q,
        q > p,
        t > r,
    ensures
        2 * ((t - r) * (t - r)) > (q - p) * (q - p),
{
    assert(2 * ((t - r) * (t - r)) > (q - p) * (q - p)) by (nonlinear_arith)
        requires
            p >= 0,
            q >= 0,
            r >= 0,
            t >= 0,
            p * p > 2 * (r * r),
            2 * (t * t) > q * q,
            q > p,
            t > r,
    ;
}

/// A positive part whose rational part is positive and irrational part negative,
/// plus one of the opposite kind.
proof fn lemma_sqrt2_add_mixed(a1: int, b1: int, a2: int, b2: int)
    requires
        a1 > 0,
        b1 < 0,
        a1 * a1 > 2 * (b1 * b1),
        a2 < 0,
        b2 > 0,
        2 * (b2 * b2) > a2 * a2,
    ensures
        sqrt2_pos(a1 + a2, b1 + b2),
{
    let p = a1;
    let r = -b1;
    let q = -a2;
    let t = b2;
    assert(r * r == b1 * b1) by (nonlinear_arith)
        requires
            r == -b1,
    ;
    assert(q * q == a2 * a2) by (nonlinear_arith)
        requires
            q == -a2,
    ;
    let a = a1 + a2;
    let b = b1 + b2;
    if a >= 0 && b >= 0 {
        if a == 0 && b == 0 {
            // p == q and r == t contradict p^2 > 2 r^2 = 2 t^2 > q^2.
            assert(p * p == q * q && r * r == t * t) by (nonlinear_arith)
                requires
                    p == q,
                    r == t,
            ;
        }
    } else if a <= 0 && b <= 0 {
        // p <= q and t <= r contradict p^2 > 2 r^2 >= 2 t^2 > q^2 >= p^2.
        assert(false) by (nonlinear_arith)
            requires
                p >= 0,
                q >= 0,
                r >= 0,
                t >= 0,
                p * p > 2 * (r * r),
                2 * (t * t) > q * q,
                p <= q,
                t <= r,
        ;
    } else if a > 0 {
        lemma_mixed_sum(p, q, r, t);
        assert(a * a == (p - q) * (p - q));
        assert(b * b == (r - t) * (r - t)) by (nonlinear_arith)
            requires
                b == t - r,
        ;
    } else {
        lemma_mixed_sum2(p, q, r, t);
        assert(a * a == (q - p) * (q - p)) by (nonlinear_arith)
            requires
                a == p - q,
        ;
        assert(b * b == (t - r) * (t - r));
    }
}

/// The sum of two positive numbers `a + b sqrt 2` is positive.
pub proof fn lemma_sqrt2_add(a1: int, b1: int, a2: int, b2: int)
    requires
        sqrt2_pos(a1, b1),
        sqrt2_pos(a2, b2),
    ensures
        sqrt2_pos(a1 + a2, b1 + b2),
    decreases (if a1 >= 0 && b1 >= 0 { 0int } else { 1int }),
{
    let a = a1 + a2;
    let b = b1 + b2;
    if a1 >= 0 && b1 >= 0 && a2 >= 0 && b2 >= 0 {
    } else if a1 >= 0 && b1 >= 0 {
        if a2 > 0 {
            // b2 < 0
            if b < 0 {
                assert(a * a > 2 * (b * b)) by (nonlinear_arith)
                    requires
                        a >= a2,
                        a2 > 0,
                        0 > b,
                        b >= b2,
                        a2 * a2 > 2 * (b2 * b2),
                ;
            }
        } else {
            // a2 < 0, b2 > 0
            if a < 0 {
                assert(2 * (b * b) > a * a) by (nonlinear_arith)
                    requires
                        b >= b2,
                        b2 > 0,
                        0 > a,
                        a >= a2,
                        2 * (b2 * b2) > a2 * a2,
                ;
            }
        }
    } else if a2 >= 0 && b2 >= 0 {
        lemma_sqrt2_add(a2, b2, a1, b1);
    } else if a1 > 0 && a2 > 0 {
        // b1 < 0, b2 < 0
        assert(a * a > 2 * (b * b)) by (nonlinear_arith)
            requires
                a1 > 0,
                a2 > 0,
                b1 < 0,
                b2 < 0,
                a1 * a1 > 2 * (b1 * b1),
                a2 * a2 > 2 * (b2 * b2),
                a == a1 + a2,
                b == b1 + b2,
        ;
    } else if a1 < 0 && a2 < 0 {
        // b1 > 0, b2 > 0
        assert(2 * (b * b) > a * a) by (nonlinear_arith)
            requires
                a1 < 0,
                a2 < 0,
                b1 > 0,
                b2 > 0,
                2 * (b1 * b1) > a1 * a1,
                2 * (b2 * b2) > a2 * a2,
                a == a1 + a2,
                b == b1 + b2,
        ;
    } else if a1 > 0 {
        lemma_sqrt2_add_mixed(a1, b1, a2, b2);
    } else {
        lemma_sqrt2_add_mixed(a2, b2, a1, b1);
    }
}

} // verus!

verus! {

/// Neighbouring boundary rays: the cross product with the middle one, times
/// `sqrt 2`, is the sum of those with its two neighbours.
proof fn lemma_ray_identity(u: int, v: int, j: int)
    requires
        0 <= j < 8,
    ensures
        ({
            let x = cross_with_ray(u, v, j);
            let y = cross_with_ray(u, v, (j + 1) % 8);
            let z = cross_with_ray(u, v, (j + 2) % 8);
            x.0 + z.0 == 2 * y.1 && x.1 + z.1 == y.0
        }),
{
    let r0 = boundary_ray(j);
    let r1 = boundary_ray((j + 1) % 8);
    let r2 = boundary_ray((j + 2) % 8);
    assert(r0.2 + r2.2 == 2 * r1.3 && r0.0 + r2.0 == 2 * r1.1 && r0.3 + r2.3 == r1.2 && r0.1 + r2.1
        == r1.0);
    assert(u * r0.2 + u * r2.2 == 2 * (u * r1.3)) by (nonlinear_arith)
        requires
            r0.2 + r2.2 == 2 * r1.3,
    ;
    assert(v * r0.0 + v * r2.0 == 2 * (v * r1.1)) by (nonlinear_arith)
        requires
            r0.0 + r2.0 == 2 * r1.1,
    ;
    assert(u * r0.3 + u * r2.3 == u * r1.2) by (nonlinear_arith)
        requires
            r0.3 + r2.3 == r1.2,
    ;
    assert(v * r0.1 + v * r2.1 == v * r1.0) by (nonlinear_arith)
        requires
            r0.1 + r2.1 == r1.0,
    ;
}

/// For a point other than the origin, a ray between two rays that the point is at
/// or past (or not) is one it is at or past (or not) as well.
proof fn lemma_convex(u: int, v: int, j: int)
    requires
        u != 0 || v != 0,
        0 <= j < 8,
    ensures
        at_or_past(u, v, j) == at_or_past(u, v, (j + 2) % 8) ==> at_or_past(u, v, (j + 1) % 8)
            == at_or_past(u, v, j),
{
    let x = cross_with_ray(u, v, j);
    let y = cross_with_ray(u, v, (j + 1) % 8);
    let z = cross_with_ray(u, v, (j + 2) % 8);
    lemma_ray_identity(u, v, j);
    lemma_cross_nonzero(u, v, j);
    lemma_cross_nonzero(u, v, (j + 1) % 8);
    lemma_cross_nonzero(u, v, (j + 2) % 8);
    lemma_sqrt2_sign(x.0, x.1);
    lemma_sqrt2_sign(y.0, y.1);
    lemma_sqrt2_sign(z.0, z.1);
    lemma_sqrt2_times(y.0, y.1);
    lemma_sqrt2_times(-y.0, -y.1);
    if sqrt2_pos(x.0, x.1) && sqrt2_pos(z.0, z.1) {
        lemma_sqrt2_add(x.0, x.1, z.0, z.1);
    }
    if sqrt2_pos(-x.0, -x.1) && sqrt2_pos(-z.0, -z.1) {
        lemma_sqrt2_add(-x.0, -x.1, -z.0, -z.1);
    }
}

/// Eight signs around a circle where opposite ones differ and the middle one of any
/// three neighbours agrees with the outer two when they agree: there is only one
/// place where they turn from true to false.
proof fn lemma_one_turn(b: spec_fn(int) -> bool, k: int, m: int)
    requires
        b(4) == !b(0),
        b(5) == !b(1),
        b(6) == !b(2),
        b(7) == !b(3),
        b(0) == b(2) ==> b(1) == b(0),
        b(1) == b(3) ==> b(2) == b(1),
        b(2) == b(4) ==> b(3) == b(2),
        b(3) == b(5) ==> b(4) == b(3),
        b(4) == b(6) ==> b(5) == b(4),
        b(5) == b(7) ==> b(6) == b(5),
        b(6) == b(0) ==> b(7) == b(6),
        b(7) == b(1) ==> b(0) == b(7),
        0 <= k < 8,
        0 <= m < 8,
        b((k + 7) % 8) && !b(k),
        b((m + 7) % 8) && !b(m),
    ensures
        k == m,
{
}

/// `at_or_past`, kept folded while reasoning about the order of the rays.
#[verifier::opaque]
spec fn side(u: int, v: int, j: int) -> bool {
    at_or_past(u, v, j)
}

proof fn lemma_side_opposite(u: int, v: int, j: int)
    requires
        u != 0 || v != 0,
        0 <= j < 4,
    ensures
        side(u, v, j + 4) == !side(u, v, j),
{
    reveal(side);
    lemma_at_or_past_opposite(u, v, j);
}

proof fn lemma_side_convex(u: int, v: int, j: int)
    requires
        u != 0 || v != 0,
        0 <= j < 8,
    ensures
        side(u, v, j) == side(u, v, (j + 2) % 8) ==> side(u, v, (j + 1) % 8) == side(u, v, j),
{
    reveal(side);
    lemma_convex(u, v, j);
}

proof fn lemma_side_facts(u: int, v: int)
    requires
        u != 0 || v != 0,
    ensures
        ({
            let b = |j: int| side(u, v, j);
            &&& b(4) == !b(0)
            &&& b(5) == !b(1)
            &&& b(6) == !b(2)
            &&& b(7) == !b(3)
            &&& b(0) == b(2) ==> b(1) == b(0)
            &&& b(1) == b(3) ==> b(2) == b(1)
            &&& b(2) == b(4) ==> b(3) == b(2)
            &&& b(3) == b(5) ==> b(4) == b(3)
            &&& b(4) == b(6) ==> b(5) == b(4)
            &&& b(5) == b(7) ==> b(6) == b(5)
            &&& b(6) == b(0) ==> b(7) == b(6)
            &&& b(7) == b(1) ==> b(0) == b(7)
        }),
{
    lemma_side_opposite(u, v, 0);
    lemma_side_opposite(u, v, 1);
    lemma_side_opposite(u, v, 2);
    lemma_side_opposite(u, v, 3);
    lemma_side_convex(u, v, 0);
    lemma_side_convex(u, v, 1);
    lemma_side_convex(u, v, 2);
    lemma_side_convex(u, v, 3);
    lemma_side_convex(u, v, 4);
    lemma_side_convex(u, v, 5);
    lemma_side_convex(u, v, 6);
    lemma_side_convex(u, v, 7);
}

/// A point other than the origin lies in exactly one sector.
pub proof fn lemma_sector_unique(u: int, v: int, k: int, m: int)
    requires
        u != 0 || v != 0,
        0 <= k < 8,
        0 <= m < 8,
        in_sector(u, v, k),
        in_sector(u, v, m),
    ensures
        k == m,
{
    lemma_side_facts(u, v);
    let b = |j: int| side(u, v, j);
    assert(b((k + 7) % 8) && !b(k) && b((m + 7) % 8) && !b(m)) by {
        reveal(side);
    }
    lemma_one_turn(b, k, m);
}

/// Outside the dead zone the selected direction is the sector of the cursor's
/// bearing, whatever was selected before: keeping the current direction within
/// 22.5 degrees of its centre keeps it exactly while the cursor stays in its sector.
pub proof fn law_direction_follows_sector(dx: int, dy: int, current: int, dead_zone_sq: int)
    requires
        !in_dead_zone(dx, dy, dead_zone_sq),
    ensures
        direction_spec(dx, dy, current, dead_zone_sq) == sector_of(dx, dy),
        0 <= sector_of(dx, dy) < 8,
{
    let p = bearing_point(dx, dy);
    lemma_sector_exists(p.0, p.1);
    if 0 <= current <= 7 && within_band(p.0, p.1, current) {
        lemma_cross_nonzero(p.0, p.1, current);
        assert(in_sector(p.0, p.1, current));
        lemma_sector_unique(p.0, p.1, current, first_sector_from(p.0, p.1, 0));
    }
}


/// Nothing is selected exactly when the cursor is closer to the origin than the
/// dead-zone radius (`dx² + dy² < dead_zone_sq`); farther out one of the eight
/// directions is always selected.
pub proof fn law_dead_zone_is_a_disc(dx: int, dy: int, current: int, dead_zone_sq: int)
    ensures
        (direction_spec(dx, dy, current, dead_zone_sq) == -1) == (dx * dx + dy * dy < dead_zone_sq),
        dx * dx + dy * dy >= dead_zone_sq ==> 0 <= direction_spec(dx, dy, current, dead_zone_sq) <= 7,
{
    if dx * dx + dy * dy >= dead_zone_sq {
        law_direction_follows_sector(dx, dy, current, dead_zone_sq);
    }
}

} // verus!

verus! {

/// `|n|`.
pub open spec fn abs_int(n: int) -> int {
    if n >= 0 {
        n
    } else {
        -n
    }
}

proof fn lemma_at_or_past_nonzero(u: int, v: int, j: int)
    requires
        u != 0 || v != 0,
        0 <= j < 8,
    ensures
        at_or_past(u, v, j) == sqrt2_pos(cross_with_ray(u, v, j).0, cross_with_ray(u, v, j).1),
{
    lemma_cross_nonzero(u, v, j);
}

/// The point lies in sector 0 (straight up) exactly when `v > 0` and
/// `|u| < (sqrt 2 - 1) v`, i.e. `(|u| + v)² < 2 v²`.
proof fn lemma_in_sector_up(u: int, v: int)
    requires
        u != 0 || v != 0,
    ensures
        in_sector(u, v, 0) == (v > 0 && (abs_int(u) + v) * (abs_int(u) + v) < 2 * (v * v)),
{
    lemma_at_or_past_nonzero(u, v, 7);
    lemma_at_or_past_nonzero(u, v, 0);
    assert((-v) * (-v) == v * v) by (nonlinear_arith);
    assert(boundary_ray(7) == (1int, -1int, 1int, 0int));
    assert(boundary_ray(0) == (-1int, 1int, 1int, 0int));
    let c7 = cross_with_ray(u, v, 7);
    assert(c7.0 == u - v && c7.1 == v) by (nonlinear_arith)
        requires
            c7.0 == u * 1 - v * 1,
            c7.1 == u * 0 - v * (-1),
    ;
    let c0 = cross_with_ray(u, v, 0);
    assert(c0.0 == u + v && c0.1 == -v) by (nonlinear_arith)
        requires
            c0.0 == u * 1 - v * (-1),
            c0.1 == u * 0 - v * 1,
    ;
    assert(in_sector(u, v, 0) == (sqrt2_pos(u - v, v) && !sqrt2_pos(u + v, -v)));
    if v < 0 {
        if sqrt2_pos(u - v, v) {
            assert(u > 0) by (nonlinear_arith)
                requires
                    u - v > 0,
                    (u - v) * (u - v) > 2 * (v * v),
                    v < 0,
            ;
            if u + v < 0 {
                assert(2 * (v * v) > (u + v) * (u + v)) by (nonlinear_arith)
                    requires
                        u > 0,
                        u + v < 0,
                        v < 0,
                ;
            }
        }
    } else if v > 0 {
        if u >= 0 {
            if (u + v) * (u + v) == 2 * (v * v) {
                lemma_sqrt2_irrational((u + v) as nat, v as nat);
            }
            if (u + v) * (u + v) < 2 * (v * v) {
                assert(u < v) by (nonlinear_arith)
                    requires
                        u >= 0,
                        v > 0,
                        (u + v) * (u + v) < 2 * (v * v),
                ;
                assert((u - v) * (u - v) < 2 * (v * v)) by (nonlinear_arith)
                    requires
                        0 <= u < v,
                ;
            }
        } else {
            if u + v >= 0 {
                assert((u + v) * (u + v) < 2 * (v * v)) by (nonlinear_arith)
                    requires
                        u < 0,
                        u + v >= 0,
                        v > 0,
                ;
            }
            assert((v - u) * (v - u) == (u - v) * (u - v)) by (nonlinear_arith);
        }
    }
}

/// The point lies in sector 1 (up and to the right) exactly when `u > 0`, `v > 0`,
/// `u > (sqrt 2 - 1) v` and `v > (sqrt 2 - 1) u`, i.e. `(u + v)² > 2 v²` and
/// `(u + v)² > 2 u²`.
proof fn lemma_in_sector_up_right(u: int, v: int)
    requires
        u != 0 || v != 0,
    ensures
        in_sector(u, v, 1) == (u > 0 && v > 0 && (u + v) * (u + v) > 2 * (v * v) && (u + v) * (u + v) > 2 * (
        u * u)),
{
    lemma_at_or_past_nonzero(u, v, 0);
    lemma_at_or_past_nonzero(u, v, 1);
    assert((-v) * (-v) == v * v) by (nonlinear_arith);
    assert((-u - v) * (-u - v) == (u + v) * (u + v)) by (nonlinear_arith);
    assert(boundary_ray(0) == (-1int, 1int, 1int, 0int));
    assert(boundary_ray(1) == (1int, 0int, -1int, 1int));
    let c0 = cross_with_ray(u, v, 0);
    let c1 = cross_with_ray(u, v, 1);
    assert(c0.0 == u + v && c0.1 == -v && c1.0 == -u - v && c1.1 == u) by (nonlinear_arith)
        requires
            c0.0 == u * 1 - v * (-1),
            c0.1 == u * 0 - v * 1,
            c1.0 == u * (-1) - v * 1,
            c1.1 == u * 1 - v * 0,
    ;
    assert(in_sector(u, v, 1) == (sqrt2_pos(u + v, -v) && !sqrt2_pos(-u - v, u)));
    if u > 0 && v > 0 {
        if (u + v) * (u + v) == 2 * (u * u) {
            lemma_sqrt2_irrational((u + v) as nat, u as nat);
        }
    } else if v > 0 {
        // u <= 0: u + v <= v, so u + v < v sqrt 2.
        if u + v > 0 {
            assert((u + v) * (u + v) <= v * v) by (nonlinear_arith)
                requires
                    u <= 0,
                    u + v > 0,
            ;
        }
    } else if sqrt2_pos(u + v, -v) {
        // v <= 0: being past ray 0 puts the point past ray 1 as well.
        if u >= 0 {
            if u + v > 0 {
                assert(2 * (u * u) > (u + v) * (u + v)) by (nonlinear_arith)
                    requires
                        u > 0,
                        v <= 0,
                        u + v > 0,
                ;
            }
        } else {
            assert(u + v < 0);
            assert((-v) * (-v) == v * v) by (nonlinear_arith);
            assert(2 * (v * v) > (u + v) * (u + v));
            assert((u + v) * (u + v) > 2 * (u * u)) by (nonlinear_arith)
                requires
                    u < 0,
                    v < 0,
                    2 * (v * v) > (u + v) * (u + v),
            ;
        }
    }
}

/// Turning the point a quarter turn clockwise, `(u, v)` to `(v, -u)`, moves every
/// boundary ray by two places.
proof fn lemma_at_or_past_rotated(u: int, v: int, j: int)
    requires
        0 <= j < 8,
    ensures
        at_or_past(v, -u, (j + 2) % 8) == at_or_past(u, v, j),
{
    let r = boundary_ray(j);
    let q = boundary_ray((j + 2) % 8);
    // Ray `j + 2` is ray `j` turned a quarter turn clockwise: `(x, y)` to `(y, -x)`.
    assert(q.0 == r.2 && q.1 == r.3 && q.2 == -r.0 && q.3 == -r.1) by {
        if j == 0 {
        } else if j == 1 {
        } else if j == 2 {
        } else if j == 3 {
        } else if j == 4 {
        } else if j == 5 {
        } else if j == 6 {
        } else {
        }
    }
    let c = cross_with_ray(v, -u, (j + 2) % 8);
    let d = dot_with_ray(v, -u, (j + 2) % 8);
    assert(c.0 == v * q.2 - (-u) * q.0 && c.1 == v * q.3 - (-u) * q.1);
    assert(c.0 == cross_with_ray(u, v, j).0 && c.1 == cross_with_ray(u, v, j).1) by (nonlinear_arith)
        requires
            c.0 == v * q.2 - (-u) * q.0,
            c.1 == v * q.3 - (-u) * q.1,
            q.0 == r.2 && q.1 == r.3 && q.2 == -r.0 && q.3 == -r.1,
            cross_with_ray(u, v, j).0 == u * r.2 - v * r.0,
            cross_with_ray(u, v, j).1 == u * r.3 - v * r.1,
    ;
    assert(d.0 == v * q.0 + (-u) * q.2 && d.1 == v * q.1 + (-u) * q.3);
    assert(d.0 == dot_with_ray(u, v, j).0 && d.1 == dot_with_ray(u, v, j).1) by (nonlinear_arith)
        requires
            d.0 == v * q.0 + (-u) * q.2,
            d.1 == v * q.1 + (-u) * q.3,
            q.0 == r.2 && q.1 == r.3 && q.2 == -r.0 && q.3 == -r.1,
            dot_with_ray(u, v, j).0 == u * r.0 + v * r.2,
            dot_with_ray(u, v, j).1 == u * r.1 + v * r.3,
    ;
}

proof fn lemma_sector_rotated(u: int, v: int)
    requires
        u != 0 || v != 0,
    ensures
        first_sector_from(v, -u, 0) == (first_sector_from(u, v, 0) + 2) % 8,
{
    let k = first_sector_from(u, v, 0);
    lemma_sector_exists(u, v);
    lemma_at_or_past_rotated(u, v, (k + 7) % 8);
    lemma_at_or_past_rotated(u, v, k);
    let k2 = (k + 2) % 8;
    assert(((k + 7) % 8 + 2) % 8 == (k2 + 7) % 8);
    assert(in_sector(v, -u, k2));
    lemma_sector_exists(v, -u);
    lemma_sector_unique(v, -u, first_sector_from(v, -u, 0), k2);
}

/// Outside the dead zone the direction does not depend on what was selected before.
pub proof fn law_direction_ignores_previous(dx: int, dy: int, current: int, dead_zone_sq: int)
    requires
        dx * dx + dy * dy >= dead_zone_sq,
    ensures
        direction_spec(dx, dy, current, dead_zone_sq) == direction_spec(dx, dy, -1, dead_zone_sq),
{
    law_direction_follows_sector(dx, dy, current, dead_zone_sq);
    law_direction_follows_sector(dx, dy, -1, dead_zone_sq);
}

/// Straight up (0) is chosen exactly for the offsets above the origin within 22.5
/// degrees of vertical: `dy < 0` and `|dx| < (sqrt 2 - 1)(-dy)`, that is
/// `(|dx| - dy)² < 2 dy²`.
pub proof fn law_up_sector(dx: int, dy: int, current: int, dead_zone_sq: int)
    requires
        dx * dx + dy * dy >= dead_zone_sq,
    ensures
        (direction_spec(dx, dy, current, dead_zone_sq) == 0) == (dy < 0 && (abs_int(dx) - dy) * (
        abs_int(dx) - dy) < 2 * (dy * dy)),
{
    law_direction_follows_sector(dx, dy, current, dead_zone_sq);
    if dx == 0 && dy == 0 {
        lemma_sector_exists(1, 0);
        lemma_in_sector_up(1, 0);
        lemma_in_sector_up_right(1, 0);
    } else {
        lemma_sector_exists(dx, -dy);
        lemma_in_sector_up(dx, -dy);
        let k = first_sector_from(dx, -dy, 0);
        if in_sector(dx, -dy, 0) {
            lemma_sector_unique(dx, -dy, k, 0);
        }
        assert((-dy) * (-dy) == dy * dy) by (nonlinear_arith);
    }
}

/// Up-right (1) is chosen exactly for the offsets right of and above the origin
/// whose bearing lies between 22.5 and 67.5 degrees: `dx > 0`, `dy < 0`,
/// `(dx - dy)² > 2 dy²` and `(dx - dy)² > 2 dx²`.
pub proof fn law_up_right_sector(dx: int, dy: int, current: int, dead_zone_sq: int)
    requires
        dx * dx + dy * dy >= dead_zone_sq,
    ensures
        (direction_spec(dx, dy, current, dead_zone_sq) == 1) == (dx > 0 && dy < 0 && (dx - dy) * (dx - dy)
            > 2 * (dy * dy) && (dx - dy) * (dx - dy) > 2 * (dx * dx)),
{
    law_direction_follows_sector(dx, dy, current, dead_zone_sq);
    if dx == 0 && dy == 0 {
        lemma_sector_exists(1, 0);
        lemma_in_sector_up(1, 0);
        lemma_in_sector_up_right(1, 0);
    } else {
        lemma_sector_exists(dx, -dy);
        lemma_in_sector_up_right(dx, -dy);
        let k = first_sector_from(dx, -dy, 0);
        if in_sector(dx, -dy, 1) {
            lemma_sector_unique(dx, -dy, k, 1);
        }
        assert((-dy) * (-dy) == dy * dy) by (nonlinear_arith);
    }
}

/// Turning the offset a quarter turn clockwise on the screen, `(dx, dy)` to
/// `(-dy, dx)`, turns the chosen direction by two places: up becomes right, right
/// becomes down, and so on.
pub proof fn law_quarter_turn(dx: int, dy: int, current: int, dead_zone_sq: int)
    requires
        dx * dx + dy * dy >= dead_zone_sq,
        dx != 0 || dy != 0,
    ensures
        direction_spec(-dy, dx, current, dead_zone_sq) == (direction_spec(dx, dy, current, dead_zone_sq) + 2)
            % 8,
{
    assert((-dy) * (-dy) == dy * dy) by (nonlinear_arith);
    law_direction_follows_sector(dx, dy, current, dead_zone_sq);
    law_direction_follows_sector(-dy, dx, current, dead_zone_sq);
    assert(bearing_point(-dy, dx) == (-dy, -dx));
    lemma_sector_rotated(dx, -dy);
}

} // verus!
