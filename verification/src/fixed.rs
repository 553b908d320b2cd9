use vstd::prelude::*;

verus! {

/// The fixed-point representation of one.
pub const ONE: i64 = 65536;

/// A vector of three fixed-point components.
#[derive(Clone, Copy, Debug, PartialEq, Eq, Structural)]
pub struct Vec3 {
    pub x: i64,
    pub y: i64,
    pub z: i64,
}

/// The largest `r` with `r * r <= n`.
pub open spec fn floor_sqrt(n: nat) -> nat
    decreases n,
{
    if n == 0 {
        0
    } else {
        let r = floor_sqrt((n - 1) as nat);
        if (r + 1) * (r + 1) <= n {
            r + 1
        } else {
            r
        }
    }
}

/// `floor_sqrt(n)` squared is at most `n`, and the next square is above `n`.
pub proof fn lemma_floor_sqrt_bounds(n: nat)
    ensures
        floor_sqrt(n) * floor_sqrt(n) <= n < (floor_sqrt(n) + 1) * (floor_sqrt(n) + 1),
    decreases n,
{
    let s = floor_sqrt(n);
    if n > 0 {
        lemma_floor_sqrt_bounds((n - 1) as nat);
        let r = floor_sqrt((n - 1) as nat);
        if (r + 1) * (r + 1) <= n {
            assert(s == r + 1);
            assert(n < (r + 1 + 1) * (r + 1 + 1)) by (nonlinear_arith)
                requires
                    n - 1 < (r + 1) * (r + 1),
            ;
        } else {
            assert(s == r);
        }
    } else {
        assert(s == 0);
        assert(0 * 0 <= n < (0 + 1) * (0 + 1)) by (nonlinear_arith)
            requires
                n == 0,
        ;
    }
    assert(s * s <= n < (s + 1) * (s + 1));
}

/// A number whose square is at most `n`, while the square of the next
/// number is above `n`, is the rounded square root of `n`.
pub proof fn lemma_floor_sqrt_unique(n: nat, r: nat)
    requires
        r * r <= n < (r + 1) * (r + 1),
    ensures
        r == floor_sqrt(n),
{
    lemma_floor_sqrt_bounds(n);
    let s = floor_sqrt(n);
    if r < s {
        assert((r + 1) * (r + 1) <= s * s) by (nonlinear_arith)
            requires
                0 <= r,
                r + 1 <= s,
        ;
    }
    if s < r {
        assert((s + 1) * (s + 1) <= r * r) by (nonlinear_arith)
            requires
                0 <= s,
                s + 1 <= r,
        ;
    }
}

/// Integer square root, rounded down.
pub fn isqrt(n: u128) -> (r: u128)
    ensures
        r * r <= n < (r + 1) * (r + 1),
        r == floor_sqrt(n as nat),
        r <= u64::MAX,
{
    let mut lo: u128 = 0;
    let mut hi: u128 = 0x1_0000_0000_0000_0000;
    assert(n < hi * hi) by (nonlinear_arith)
        requires
            hi == 0x1_0000_0000_0000_0000,
            n <= u128::MAX,
    ;
    while hi - lo > 1
        invariant
            lo < hi <= 0x1_0000_0000_0000_0000,
            lo * lo <= n < hi * hi,
        decreases hi - lo,
    {
        let mid: u128 = lo + (hi - lo) / 2;
        assert(mid * mid <= u128::MAX) by (nonlinear_arith)
            requires
                0 <= mid <= 0xffff_ffff_ffff_ffff,
        ;
        if mid * mid <= n {
            lo = mid;
        } else {
            hi = mid;
        }
    }
    proof {
        lemma_floor_sqrt_unique(n as nat, lo as nat);
    }
    lo
}

/// Division that rounds toward zero.
pub open spec fn trunc_div(a: int, b: int) -> int {
    if a >= 0 {
        a / b
    } else {
        -((-a) / b)
    }
}

/// All components of `v` are zero.
pub open spec fn is_zero(v: Vec3) -> bool {
    v.x == 0 && v.y == 0 && v.z == 0
}

/// The squared Euclidean length of `v`.
pub open spec fn norm_sq(v: Vec3) -> int {
    v.x * v.x + v.y * v.y + v.z * v.z
}

/// The Euclidean length of `v`, rounded down.
pub open spec fn norm(v: Vec3) -> int {
    floor_sqrt(norm_sq(v) as nat) as int
}

/// One component of `v` scaled to unit length: `c / |v|` in fixed point,
/// rounded toward zero.
pub open spec fn unit_component(c: int, v: Vec3) -> int {
    trunc_div(c * ONE, norm(v))
}

/// `v` scaled to unit length.
pub open spec fn unit_vector(v: Vec3) -> Vec3 {
    Vec3 {
        x: unit_component(v.x as int, v) as i64,
        y: unit_component(v.y as int, v) as i64,
        z: unit_component(v.z as int, v) as i64,
    }
}

/// Only the zero vector has length zero.
pub proof fn lemma_norm_sq_positive(v: Vec3)
    ensures
        norm_sq(v) >= 0,
        norm_sq(v) == 0 <==> is_zero(v),
{
    assert(norm_sq(v) >= 0 && (norm_sq(v) == 0 <==> is_zero(v))) by (nonlinear_arith)
        requires
            norm_sq(v) == v.x * v.x + v.y * v.y + v.z * v.z,
            is_zero(v) == (v.x == 0 && v.y == 0 && v.z == 0),
    ;
}

/// A component of a nonzero vector is at most the vector's rounded length,
/// so that the scaled component lies between minus one and one and keeps the
/// component's sign.
pub proof fn lemma_unit_component(c: i64, v: Vec3)
    requires
        norm_sq(v) > 0,
        c == v.x || c == v.y || c == v.z,
    ensures
        norm(v) >= 1,
        -norm(v) <= c <= norm(v),
        -ONE <= unit_component(c as int, v) <= ONE,
        c > 0 ==> unit_component(c as int, v) >= 0,
        c < 0 ==> unit_component(c as int, v) <= 0,
        c == 0 ==> unit_component(c as int, v) == 0,
        (c == norm(v) ==> unit_component(c as int, v) == ONE),
        (c == -norm(v) ==> unit_component(c as int, v) == -ONE),
{
    let s = norm_sq(v);
    let len = norm(v);
    let a: int = if c >= 0 { c as int } else { -c };
    lemma_floor_sqrt_bounds(s as nat);
    assert(a * a <= s) by (nonlinear_arith)
        requires
            s == v.x * v.x + v.y * v.y + v.z * v.z,
            c == v.x || c == v.y || c == v.z,
            a == c || a == -c,
    ;
    assert(len >= 1) by (nonlinear_arith)
        requires
            len >= 0,
            s < (len + 1) * (len + 1),
            s > 0,
    ;
    assert(a <= len) by (nonlinear_arith)
        requires
            a * a <= s,
            s < (len + 1) * (len + 1),
            a >= 0,
            len >= 0,
    ;
    lemma_scaled_quotient(a, len);
}

/// The magnitude of `x`.
pub open spec fn magnitude_of(x: int) -> int {
    if x >= 0 {
        x
    } else {
        -x
    }
}

/// The squared length of `v` with each component one larger in magnitude:
/// an upper bound on the squared length of any vector that rounds to `v`
/// toward zero.
pub open spec fn norm_sq_above(v: Vec3) -> int {
    (magnitude_of(v.x as int) + 1) * (magnitude_of(v.x as int) + 1) + (magnitude_of(v.y as int)
        + 1) * (magnitude_of(v.y as int) + 1) + (magnitude_of(v.z as int) + 1) * (magnitude_of(
        v.z as int,
    ) + 1)
}

/// A component of the scaled vector is the exact quotient rounded toward
/// zero: its square times the squared length is at most the component's
/// square times one squared, and one more in magnitude would be too much.
pub proof fn lemma_unit_component_rounding(c: i64, v: Vec3)
    requires
        !is_zero(v),
        c == v.x || c == v.y || c == v.z,
    ensures
        unit_component(c as int, v) * unit_component(c as int, v) * (norm(v) * norm(v)) <= (c
            * c) * (ONE * ONE),
        (c * c) * (ONE * ONE) < (magnitude_of(unit_component(c as int, v)) + 1) * (magnitude_of(
            unit_component(c as int, v),
        ) + 1) * (norm(v) * norm(v)),
{
    lemma_norm_sq_positive(v);
    lemma_unit_component(c, v);
    let len = norm(v);
    let a: int = magnitude_of(c as int);
    let q: int = (a * ONE) / len;
    let u = unit_component(c as int, v);
    assert(magnitude_of(u) == q);
    vstd::arithmetic::div_mod::lemma_fundamental_div_mod(a * ONE, len);
    vstd::arithmetic::div_mod::lemma_mod_pos_bound(a * ONE, len);
    let w = a * ONE;
    assert(q * len <= w < (q + 1) * len) by (nonlinear_arith)
        requires
            w == len * q + w % len,
            0 <= w % len < len,
    ;
    assert(0 <= q * len) by (nonlinear_arith)
        requires
            q >= 0,
            len >= 1,
    ;
    assert((q * len) * (q * len) <= w * w) by (nonlinear_arith)
        requires
            0 <= q * len <= w,
    ;
    assert(w * w < ((q + 1) * len) * ((q + 1) * len)) by (nonlinear_arith)
        requires
            0 <= w < (q + 1) * len,
    ;
    assert((q * len) * (q * len) == u * u * (len * len)) by (nonlinear_arith)
        requires
            u == q || u == -q,
    ;
    assert(((q + 1) * len) * ((q + 1) * len) == (q + 1) * (q + 1) * (len * len))
        by (nonlinear_arith);
    assert(w * w == (c * c) * (ONE * ONE)) by (nonlinear_arith)
        requires
            w == a * ONE,
            a == c || a == -c,
    ;
}

/// The scaled vector has length one up to rounding: it is no longer than
/// the exact quotient of the vector by its rounded length, and adding one
/// to the magnitude of each component makes it longer than one.
pub proof fn lemma_unit_vector_length(v: Vec3)
    requires
        !is_zero(v),
    ensures
        norm_sq(unit_vector(v)) * (norm(v) * norm(v)) <= norm_sq(v) * (ONE * ONE),
        ONE * ONE < norm_sq_above(unit_vector(v)),
{
    lemma_norm_sq_positive(v);
    lemma_unit_component(v.x, v);
    lemma_unit_component(v.y, v);
    lemma_unit_component(v.z, v);
    lemma_unit_component_rounding(v.x, v);
    lemma_unit_component_rounding(v.y, v);
    lemma_unit_component_rounding(v.z, v);
    lemma_floor_sqrt_bounds(norm_sq(v) as nat);
    let u = unit_vector(v);
    let l2 = norm(v) * norm(v);
    let o2 = ONE * ONE;
    let px = (magnitude_of(u.x as int) + 1) * (magnitude_of(u.x as int) + 1);
    let py = (magnitude_of(u.y as int) + 1) * (magnitude_of(u.y as int) + 1);
    let pz = (magnitude_of(u.z as int) + 1) * (magnitude_of(u.z as int) + 1);
    assert(norm_sq(u) * l2 == u.x * u.x * l2 + u.y * u.y * l2 + u.z * u.z * l2)
        by (nonlinear_arith)
        requires
            norm_sq(u) == u.x * u.x + u.y * u.y + u.z * u.z,
    ;
    assert(norm_sq(v) * o2 == (v.x * v.x) * o2 + (v.y * v.y) * o2 + (v.z * v.z) * o2)
        by (nonlinear_arith)
        requires
            norm_sq(v) == v.x * v.x + v.y * v.y + v.z * v.z,
    ;
    assert((px + py + pz) * l2 == px * l2 + py * l2 + pz * l2) by (nonlinear_arith);
    let len = norm(v);
    assert(len * len == floor_sqrt(norm_sq(v) as nat) * floor_sqrt(norm_sq(v) as nat));
    assert(1 <= len * len) by (nonlinear_arith)
        requires
            len >= 1,
    ;
    assert(o2 < px + py + pz) by (nonlinear_arith)
        requires
            norm_sq(v) * o2 < (px + py + pz) * l2,
            1 <= l2 <= norm_sq(v),
            o2 > 0,
    ;
}

/// Scaling a nonzero vector to unit length leaves a nonzero vector: no
/// component exceeds one in magnitude, and each keeps its sign or becomes
/// zero.
pub proof fn lemma_unit_vector_bounds(v: Vec3)
    requires
        !is_zero(v),
    ensures
        !is_zero(unit_vector(v)),
        -ONE <= unit_vector(v).x <= ONE,
        -ONE <= unit_vector(v).y <= ONE,
        -ONE <= unit_vector(v).z <= ONE,
        v.x >= 0 ==> unit_vector(v).x >= 0,
        v.x <= 0 ==> unit_vector(v).x <= 0,
        v.y >= 0 ==> unit_vector(v).y >= 0,
        v.y <= 0 ==> unit_vector(v).y <= 0,
        v.z >= 0 ==> unit_vector(v).z >= 0,
        v.z <= 0 ==> unit_vector(v).z <= 0,
{
    lemma_norm_sq_positive(v);
    lemma_unit_component(v.x, v);
    lemma_unit_component(v.y, v);
    lemma_unit_component(v.z, v);
    lemma_unit_vector_length(v);
    let u = unit_vector(v);
    if is_zero(u) {
        assert(norm_sq_above(u) == 3) by (nonlinear_arith)
            requires
                norm_sq_above(u) == (magnitude_of(u.x as int) + 1) * (magnitude_of(u.x as int)
                    + 1) + (magnitude_of(u.y as int) + 1) * (magnitude_of(u.y as int) + 1) + (
                magnitude_of(u.z as int) + 1) * (magnitude_of(u.z as int) + 1),
                magnitude_of(u.x as int) == 0,
                magnitude_of(u.y as int) == 0,
                magnitude_of(u.z as int) == 0,
        ;
        assert(ONE * ONE > 3) by (nonlinear_arith)
            requires
                ONE == 65536,
        ;
    }
}

/// Scaling a part by one and dividing by the whole gives at most one.
pub proof fn lemma_scaled_quotient(a: int, len: int)
    requires
        0 <= a <= len,
        len >= 1,
    ensures
        0 <= (a * ONE) / len <= ONE,
        a == 0 ==> (a * ONE) / len == 0,
        a == len ==> (a * ONE) / len == ONE,
{
    vstd::arithmetic::mul::lemma_mul_inequality(a, len, ONE as int);
    vstd::arithmetic::mul::lemma_mul_nonnegative(a, ONE as int);
    vstd::arithmetic::div_mod::lemma_div_is_ordered(a * ONE, len * ONE, len);
    vstd::arithmetic::div_mod::lemma_div_is_ordered(0, a * ONE, len);
    vstd::arithmetic::div_mod::lemma_div_multiples_vanish(ONE as int, len);
    vstd::arithmetic::mul::lemma_mul_is_commutative(len, ONE as int);
}

fn magnitude(c: i64) -> (a: u128)
    ensures
        a == (if c >= 0 { c as int } else { -c }),
        a <= 0x8000_0000_0000_0000,
{
    if c >= 0 {
        c as u128
    } else {
        (-(c as i128)) as u128
    }
}

fn square(a: u128) -> (r: u128)
    requires
        a <= 0x8000_0000_0000_0000,
    ensures
        r == a * a,
        r <= 0x4000_0000_0000_0000_0000_0000_0000_0000,
{
    assert(a * a <= 0x4000_0000_0000_0000_0000_0000_0000_0000) by (nonlinear_arith)
        requires
            0 <= a <= 0x8000_0000_0000_0000,
    ;
    a * a
}

fn scale_component(c: i64, len: u128, Ghost(v): Ghost<Vec3>) -> (r: i64)
    requires
        norm_sq(v) > 0,
        len == norm(v),
        c == v.x || c == v.y || c == v.z,
    ensures
        r == unit_component(c as int, v),
{
    proof {
        lemma_unit_component(c, v);
    }
    let a = magnitude(c);
    assert(a * ONE <= 0x8000_0000_0000_0000 * 65536) by (nonlinear_arith)
        requires
            0 <= a <= 0x8000_0000_0000_0000,
            ONE == 65536,
    ;
    proof {
        lemma_scaled_quotient(a as int, len as int);
    }
    let q: u128 = (a * 65536) / len;
    if c >= 0 {
        q as i64
    } else {
        -(q as i64)
    }
}

/// Scales `v` to unit length; the zero vector has no direction.
pub fn normalize(v: Vec3) -> (r: Option<Vec3>)
    ensures
        match r {
            Some(u) => !is_zero(v) && u == unit_vector(v),
            None => is_zero(v),
        },
{
    proof {
        lemma_norm_sq_positive(v);
    }
    let ax = magnitude(v.x);
    let ay = magnitude(v.y);
    let az = magnitude(v.z);
    let s: u128 = square(ax) + square(ay) + square(az);
    assert(s == norm_sq(v)) by (nonlinear_arith)
        requires
            s == ax * ax + ay * ay + az * az,
            ax == v.x || ax == -v.x,
            ay == v.y || ay == -v.y,
            az == v.z || az == -v.z,
            norm_sq(v) == v.x * v.x + v.y * v.y + v.z * v.z,
    ;
    if s == 0 {
        return None;
    }
    let len = isqrt(s);
    let x = scale_component(v.x, len, Ghost(v));
    let y = scale_component(v.y, len, Ghost(v));
    let z = scale_component(v.z, len, Ghost(v));
    proof {
        lemma_unit_component(v.x, v);
        lemma_unit_component(v.y, v);
        lemma_unit_component(v.z, v);
    }
    Some(Vec3 { x, y, z })
}

} // verus!
