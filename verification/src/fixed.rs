//! Fixed-point arithmetic in millionths.
//!
//! Every physical quantity of the simulation is an `i64` that counts
//! millionths of its unit: metres, seconds, metres per second, radians,
//! or a plain factor. All operations are total and saturate at `±LIMIT`,
//! so the engine never overflows and gives the same result on every
//! machine.
use vstd::prelude::*;

verus! {

/// One unit in fixed-point representation.
pub const SCALE: i64 = 1_000_000;

/// Largest magnitude a fixed-point value takes; arithmetic saturates here.
pub const LIMIT: i64 = 9_223_372_036_854_775_807;

/// Half a turn, in millionths of a radian.
pub const PI: i64 = 3_141_592;

/// A quarter turn.
pub const HALF_PI: i64 = 1_570_796;

/// A full turn.
pub const TWO_PI: i64 = 6_283_184;

/// An eighth of a turn.
pub const QUARTER_PI: i64 = 785_398;

/// Slope correction of the arctangent approximation (0.273).
pub const ATAN_BEND: i64 = 273_000;

/// Millionths of a degree in half a turn.
pub const HALF_TURN_DEG: i64 = 180_000_000;

/// Millionths of a degree in a full turn.
pub const FULL_TURN_DEG: i64 = 360_000_000;

/// `v` clamped into `[-LIMIT, LIMIT]`.
pub open spec fn sat(v: int) -> int {
    if v > LIMIT {
        LIMIT as int
    } else if v < -LIMIT {
        -LIMIT
    } else {
        v
    }
}

/// Quotient of `a` by `b` rounded toward zero (`b != 0`).
pub open spec fn quot(a: int, b: int) -> int {
    if b > 0 {
        if a >= 0 {
            a / b
        } else {
            -((-a) / b)
        }
    } else {
        if a >= 0 {
            -(a / (-b))
        } else {
            (-a) / (-b)
        }
    }
}

pub open spec fn add_spec(a: int, b: int) -> int {
    sat(a + b)
}

pub open spec fn sub_spec(a: int, b: int) -> int {
    sat(a - b)
}

/// Fixed-point product: `a * b / SCALE`.
pub open spec fn mul_spec(a: int, b: int) -> int {
    sat(quot(a * b, SCALE as int))
}

/// Fixed-point quotient: `a * SCALE / b`.
pub open spec fn div_spec(a: int, b: int) -> int {
    sat(quot(a * SCALE, b))
}

/// `a * b / c` with a single rounding.
pub open spec fn mul_div_spec(a: int, b: int, c: int) -> int {
    sat(quot(a * b, c))
}

pub open spec fn min_spec(a: int, b: int) -> int {
    if a <= b {
        a
    } else {
        b
    }
}

pub open spec fn max_spec(a: int, b: int) -> int {
    if a >= b {
        a
    } else {
        b
    }
}

/// `v` raised to at least `low`, then lowered to at most `high`.
pub open spec fn clamp_spec(v: int, low: int, high: int) -> int {
    min_spec(max_spec(v, low), high)
}

pub open spec fn abs_spec(a: int) -> int {
    if a >= 0 {
        a
    } else {
        sat(-a)
    }
}

/// `r` is the integer square root of `n`.
pub open spec fn is_sqrt(r: int, n: int) -> bool {
    0 <= r && r * r <= n && n < (r + 1) * (r + 1)
}

/// The integer square root of `n` (for `n >= 0`).
pub open spec fn sqrt_spec(n: int) -> int {
    choose|r: int| is_sqrt(r, n)
}

/// Length of the vector `(x, y)`, rounded down.
pub open spec fn hypot_spec(x: int, y: int) -> int {
    sat(sqrt_spec(x * x + y * y))
}

/// The angle `a` brought into `[0, TWO_PI)`.
pub open spec fn wrap_spec(a: int) -> int {
    a % (TWO_PI as int)
}

/// Sine on `[0, PI]` by the rational approximation
/// `16 x (PI - x) / (5 PI^2 - 4 x (PI - x))`.
pub open spec fn sin_arch(x: int) -> int {
    let p = x * (PI - x);
    (16 * p * SCALE) / (5 * PI * PI - 4 * p)
}

/// Fixed-point sine of an angle in millionths of a radian.
pub open spec fn sin_spec(a: int) -> int {
    let x = wrap_spec(a);
    if x <= PI {
        sin_arch(x)
    } else {
        -sin_arch(x - PI)
    }
}

/// Fixed-point cosine: the sine a quarter turn ahead.
pub open spec fn cos_spec(a: int) -> int {
    sin_spec(wrap_spec(a) + HALF_PI)
}

/// Arctangent of a ratio `z` in `[0, SCALE]`:
/// `z * (QUARTER_PI + ATAN_BEND * (1 - z))`.
pub open spec fn atan_unit(z: int) -> int {
    (z * (QUARTER_PI + (ATAN_BEND * (SCALE - z)) / (SCALE as int))) / (SCALE as int)
}

/// Angle of the vector `(x, y)` for `x >= 0` and `y >= 0`, in `[0, HALF_PI]`.
pub open spec fn atan_quadrant(x: int, y: int) -> int {
    if x == 0 && y == 0 {
        0
    } else if y <= x {
        atan_unit((y * SCALE) / x)
    } else {
        HALF_PI - atan_unit((x * SCALE) / y)
    }
}

/// Direction of the vector `(x, y)` in `(-PI, PI]`; zero for the zero vector.
pub open spec fn atan2_spec(y: int, x: int) -> int {
    let ax = abs_spec(x);
    let ay = abs_spec(y);
    let q = atan_quadrant(ax, ay);
    if x >= 0 {
        if y >= 0 {
            q
        } else {
            -q
        }
    } else {
        if y >= 0 {
            PI - q
        } else {
            q - PI
        }
    }
}

/// Degrees to radians, both in millionths.
pub open spec fn deg_to_rad_spec(d: int) -> int {
    mul_div_spec(d, PI as int, HALF_TURN_DEG as int)
}

/// Radians to degrees, both in millionths.
pub open spec fn rad_to_deg_spec(r: int) -> int {
    mul_div_spec(r, HALF_TURN_DEG as int, PI as int)
}

/// Bounds the product of two 64-bit values.
pub proof fn lemma_product_fits(a: int, b: int)
    requires
        -0x8000_0000_0000_0000 <= a <= 0x8000_0000_0000_0000,
        -0x8000_0000_0000_0000 <= b <= 0x8000_0000_0000_0000,
    ensures
        -0x4000_0000_0000_0000_0000_0000_0000_0000 <= a * b
            <= 0x4000_0000_0000_0000_0000_0000_0000_0000,
{
    assert(-0x8000_0000_0000_0000 * 0x8000_0000_0000_0000 <= a * b <= 0x8000_0000_0000_0000
        * 0x8000_0000_0000_0000) by (nonlinear_arith)
        requires
            -0x8000_0000_0000_0000 <= a <= 0x8000_0000_0000_0000,
            -0x8000_0000_0000_0000 <= b <= 0x8000_0000_0000_0000,
    ;
}

/// A truncated quotient is no larger in magnitude than its dividend.
pub proof fn lemma_quot_bound(a: int, b: int)
    requires
        b != 0,
    ensures
        a >= 0 ==> -a <= quot(a, b) <= a,
        a < 0 ==> a <= quot(a, b) <= -a,
{
    let ua = if a >= 0 { a } else { -a };
    let ub = if b > 0 { b } else { -b };
    assert(0 <= ua / ub <= ua) by (nonlinear_arith)
        requires
            ua >= 0,
            ub > 0,
    ;
}

/// Narrows a wide value into the fixed-point range.
pub fn narrow(v: i128) -> (r: i64)
    ensures
        r == sat(v as int),
        -LIMIT <= r <= LIMIT,
{
    if v > LIMIT as i128 {
        LIMIT
    } else if v < -(LIMIT as i128) {
        -LIMIT
    } else {
        v as i64
    }
}

/// Quotient rounded toward zero on wide values.
pub fn div_trunc(a: i128, b: i128) -> (r: i128)
    requires
        b != 0,
        a > i128::MIN,
        b > i128::MIN,
    ensures
        r == quot(a as int, b as int),
{
    proof {
        lemma_quot_bound(a as int, b as int);
    }
    if b > 0 {
        if a >= 0 {
            a / b
        } else {
            -((-a) / b)
        }
    } else {
        if a >= 0 {
            -(a / (-b))
        } else {
            (-a) / (-b)
        }
    }
}

/// What `sat_add` computes, as a value of the same type.
pub open spec fn sat_add_value(a: i64, b: i64) -> i64 {
    (add_spec(a as int, b as int)) as i64
}

#[verifier::when_used_as_spec(sat_add_value)]
pub fn sat_add(a: i64, b: i64) -> (r: i64)
    ensures
        r == sat_add_value(a, b),
        r == add_spec(a as int, b as int),
        -LIMIT <= r <= LIMIT,
{
    narrow(a as i128 + b as i128)
}

/// What `sat_sub` computes, as a value of the same type.
pub open spec fn sat_sub_value(a: i64, b: i64) -> i64 {
    (sub_spec(a as int, b as int)) as i64
}

#[verifier::when_used_as_spec(sat_sub_value)]
pub fn sat_sub(a: i64, b: i64) -> (r: i64)
    ensures
        r == sat_sub_value(a, b),
        r == sub_spec(a as int, b as int),
        -LIMIT <= r <= LIMIT,
{
    narrow(a as i128 - b as i128)
}

/// What `fx_mul` computes, as a value of the same type.
pub open spec fn fx_mul_value(a: i64, b: i64) -> i64 {
    (mul_spec(a as int, b as int)) as i64
}

#[verifier::when_used_as_spec(fx_mul_value)]
pub fn fx_mul(a: i64, b: i64) -> (r: i64)
    ensures
        r == fx_mul_value(a, b),
        r == mul_spec(a as int, b as int),
        -LIMIT <= r <= LIMIT,
{
    proof {
        lemma_product_fits(a as int, b as int);
    }
    narrow(div_trunc((a as i128) * (b as i128), SCALE as i128))
}

/// What `fx_div` computes, as a value of the same type.
pub open spec fn fx_div_value(a: i64, b: i64) -> i64 {
    (div_spec(a as int, b as int)) as i64
}

#[verifier::when_used_as_spec(fx_div_value)]
pub fn fx_div(a: i64, b: i64) -> (r: i64)
    requires
        b != 0,
    ensures
        r == fx_div_value(a, b),
        r == div_spec(a as int, b as int),
        -LIMIT <= r <= LIMIT,
{
    proof {
        lemma_product_fits(a as int, SCALE as int);
    }
    narrow(div_trunc((a as i128) * (SCALE as i128), b as i128))
}

/// What `mul_div` computes, as a value of the same type.
pub open spec fn mul_div_value(a: i64, b: i64, c: i64) -> i64 {
    (mul_div_spec(a as int, b as int, c as int)) as i64
}

#[verifier::when_used_as_spec(mul_div_value)]
pub fn mul_div(a: i64, b: i64, c: i64) -> (r: i64)
    requires
        c != 0,
    ensures
        r == mul_div_value(a, b, c),
        r == mul_div_spec(a as int, b as int, c as int),
        -LIMIT <= r <= LIMIT,
{
    proof {
        lemma_product_fits(a as int, b as int);
    }
    narrow(div_trunc((a as i128) * (b as i128), c as i128))
}

/// What `fx_min` computes, as a value of the same type.
pub open spec fn fx_min_value(a: i64, b: i64) -> i64 {
    (min_spec(a as int, b as int)) as i64
}

#[verifier::when_used_as_spec(fx_min_value)]
pub fn fx_min(a: i64, b: i64) -> (r: i64)
    ensures
        r == fx_min_value(a, b),
        r == min_spec(a as int, b as int),
{
    if a <= b {
        a
    } else {
        b
    }
}

/// What `fx_max` computes, as a value of the same type.
pub open spec fn fx_max_value(a: i64, b: i64) -> i64 {
    (max_spec(a as int, b as int)) as i64
}

#[verifier::when_used_as_spec(fx_max_value)]
pub fn fx_max(a: i64, b: i64) -> (r: i64)
    ensures
        r == fx_max_value(a, b),
        r == max_spec(a as int, b as int),
{
    if a >= b {
        a
    } else {
        b
    }
}

/// What `fx_clamp` computes, as a value of the same type.
pub open spec fn fx_clamp_value(v: i64, low: i64, high: i64) -> i64 {
    (clamp_spec(v as int, low as int, high as int)) as i64
}

#[verifier::when_used_as_spec(fx_clamp_value)]
pub fn fx_clamp(v: i64, low: i64, high: i64) -> (r: i64)
    ensures
        r == fx_clamp_value(v, low, high),
        r == clamp_spec(v as int, low as int, high as int),
{
    fx_min(fx_max(v, low), high)
}

/// What `fx_abs` computes, as a value of the same type.
pub open spec fn fx_abs_value(a: i64) -> i64 {
    (abs_spec(a as int)) as i64
}

#[verifier::when_used_as_spec(fx_abs_value)]
pub fn fx_abs(a: i64) -> (r: i64)
    ensures
        r == fx_abs_value(a),
        r == abs_spec(a as int),
        0 <= r <= LIMIT,
{
    if a >= 0 {
        a
    } else {
        narrow(-(a as i128))
    }
}

/// Two integer square roots of one number are equal.
pub proof fn lemma_sqrt_unique(r1: int, r2: int, n: int)
    requires
        is_sqrt(r1, n),
        is_sqrt(r2, n),
    ensures
        r1 == r2,
{
    if r1 < r2 {
        assert((r1 + 1) * (r1 + 1) <= r2 * r2) by (nonlinear_arith)
            requires
                0 <= r1,
                r1 + 1 <= r2,
        ;
    } else if r2 < r1 {
        assert((r2 + 1) * (r2 + 1) <= r1 * r1) by (nonlinear_arith)
            requires
                0 <= r2,
                r2 + 1 <= r1,
        ;
    }
}

/// Every non-negative number has an integer square root.
pub proof fn lemma_sqrt_exists(n: int)
    requires
        n >= 0,
    ensures
        is_sqrt(sqrt_spec(n), n),
    decreases n,
{
    if n == 0 {
        assert(is_sqrt(0, 0));
    } else {
        lemma_sqrt_exists(n - 1);
        let r = sqrt_spec(n - 1);
        if (r + 1) * (r + 1) <= n {
            assert(n < (r + 2) * (r + 2)) by (nonlinear_arith)
                requires
                    n - 1 < (r + 1) * (r + 1),
                    r >= 0,
            ;
            assert(is_sqrt(r + 1, n));
        } else {
            assert(is_sqrt(r, n));
        }
    }
}

/// A length is never negative and never beyond the limit.
pub proof fn lemma_hypot_range(x: int, y: int)
    ensures
        0 <= hypot_spec(x, y) <= LIMIT,
{
    assert(x * x >= 0) by (nonlinear_arith);
    assert(y * y >= 0) by (nonlinear_arith);
    lemma_sqrt_exists(x * x + y * y);
}

/// Largest magnitude of a vector component for which the length of the
/// vector does not saturate.
pub const LENGTH_RANGE: i64 = 0x4000_0000_0000_0000;

/// The length of a vector lies between the magnitude of each component
/// and the limit, for components within the length range.
pub proof fn lemma_hypot_covers(x: int, y: int)
    requires
        -LENGTH_RANGE <= x <= LENGTH_RANGE,
        -LENGTH_RANGE <= y <= LENGTH_RANGE,
    ensures
        hypot_spec(x, y) == sqrt_spec(x * x + y * y),
        is_sqrt(hypot_spec(x, y), x * x + y * y),
        -hypot_spec(x, y) <= x <= hypot_spec(x, y),
        -hypot_spec(x, y) <= y <= hypot_spec(x, y),
{
    let n = x * x + y * y;
    assert(x * x >= 0 && y * y >= 0) by (nonlinear_arith);
    lemma_sqrt_exists(n);
    let r = sqrt_spec(n);
    assert(x * x <= 0x4000_0000_0000_0000 * 0x4000_0000_0000_0000) by (nonlinear_arith)
        requires
            -0x4000_0000_0000_0000 <= x <= 0x4000_0000_0000_0000,
    ;
    assert(y * y <= 0x4000_0000_0000_0000 * 0x4000_0000_0000_0000) by (nonlinear_arith)
        requires
            -0x4000_0000_0000_0000 <= y <= 0x4000_0000_0000_0000,
    ;
    assert(r <= 0x7000_0000_0000_0000) by (nonlinear_arith)
        requires
            0 <= r,
            r * r <= n,
            n <= 2 * (0x4000_0000_0000_0000 * 0x4000_0000_0000_0000),
    ;
    assert(-r <= x <= r) by (nonlinear_arith)
        requires
            0 <= r,
            x * x <= n,
            n < (r + 1) * (r + 1),
    ;
    assert(-r <= y <= r) by (nonlinear_arith)
        requires
            0 <= r,
            y * y <= n,
            n < (r + 1) * (r + 1),
    ;
}

/// A vector that is rescaled to a length no greater than its own does
/// not get longer than that length: rounding shortens it at most.
pub proof fn lemma_rescaled_length(x: int, y: int, s: int)
    requires
        -LENGTH_RANGE <= x <= LENGTH_RANGE,
        -LENGTH_RANGE <= y <= LENGTH_RANGE,
        0 <= s <= hypot_spec(x, y),
        hypot_spec(x, y) > 0,
    ensures
        0 <= hypot_spec(
            mul_div_spec(x, s, hypot_spec(x, y)),
            mul_div_spec(y, s, hypot_spec(x, y)),
        ) <= s,
{
    lemma_hypot_covers(x, y);
    let n = x * x + y * y;
    let mag = hypot_spec(x, y);
    let ax = if x >= 0 { x } else { -x };
    let ay = if y >= 0 { y } else { -y };
    let qa = (ax * s) / mag;
    let qb = (ay * s) / mag;
    assert(0 <= ax * s && 0 <= ay * s) by (nonlinear_arith)
        requires
            0 <= ax,
            0 <= ay,
            0 <= s,
    ;
    assert(0 <= qa && qa * mag <= ax * s) by (nonlinear_arith)
        requires
            qa == (ax * s) / mag,
            0 <= ax * s,
            mag > 0,
    ;
    assert(0 <= qb && qb * mag <= ay * s) by (nonlinear_arith)
        requires
            qb == (ay * s) / mag,
            0 <= ay * s,
            mag > 0,
    ;
    assert(qa <= s) by (nonlinear_arith)
        requires
            qa * mag <= ax * s,
            0 <= ax <= mag,
            0 <= s,
            0 <= qa,
            mag > 0,
    ;
    assert(qb <= s) by (nonlinear_arith)
        requires
            qb * mag <= ay * s,
            0 <= ay <= mag,
            0 <= s,
            0 <= qb,
            mag > 0,
    ;
    let a = mul_div_spec(x, s, mag);
    let b = mul_div_spec(y, s, mag);
    assert(x * s == if x >= 0 { ax * s } else { -(ax * s) }) by (nonlinear_arith)
        requires
            ax == if x >= 0 { x } else { -x },
    ;
    assert(y * s == if y >= 0 { ay * s } else { -(ay * s) }) by (nonlinear_arith)
        requires
            ay == if y >= 0 { y } else { -y },
    ;
    assert(a == qa || a == -qa);
    assert(b == qb || b == -qb);
    assert(a * a == qa * qa) by (nonlinear_arith)
        requires
            a == qa || a == -qa,
    ;
    assert(b * b == qb * qb) by (nonlinear_arith)
        requires
            b == qb || b == -qb,
    ;
    // qa mag <= ax s and qb mag <= ay s, so (qa^2 + qb^2) mag^2 <= n s^2.
    assert((qa * mag) * (qa * mag) <= (ax * s) * (ax * s)) by (nonlinear_arith)
        requires
            0 <= qa * mag <= ax * s,
    ;
    assert((qb * mag) * (qb * mag) <= (ay * s) * (ay * s)) by (nonlinear_arith)
        requires
            0 <= qb * mag <= ay * s,
    ;
    assert(0 <= qa * mag && 0 <= qb * mag) by (nonlinear_arith)
        requires
            0 <= qa,
            0 <= qb,
            mag > 0,
    ;
    let m = a * a + b * b;
    let mm = mag * mag;
    let ss = s * s;
    assert((qa * mag) * (qa * mag) == (qa * qa) * mm) by (nonlinear_arith)
        requires
            mm == mag * mag,
    ;
    assert((qb * mag) * (qb * mag) == (qb * qb) * mm) by (nonlinear_arith)
        requires
            mm == mag * mag,
    ;
    assert((ax * s) * (ax * s) == (x * x) * ss) by (nonlinear_arith)
        requires
            ss == s * s,
            ax == x || ax == -x,
    ;
    assert((ay * s) * (ay * s) == (y * y) * ss) by (nonlinear_arith)
        requires
            ss == s * s,
            ay == y || ay == -y,
    ;
    assert(m * mm == (qa * qa) * mm + (qb * qb) * mm) by (nonlinear_arith)
        requires
            m == qa * qa + qb * qb,
    ;
    assert(n * ss == (x * x) * ss + (y * y) * ss) by (nonlinear_arith)
        requires
            n == x * x + y * y,
    ;
    assert(m * (mag * mag) <= n * (s * s));
    // n < (mag + 1)^2 and s <= mag give n s^2 < (s + 1)^2 mag^2.
    assert(n * (s * s) <= ((mag + 1) * (mag + 1) - 1) * (s * s)) by (nonlinear_arith)
        requires
            n <= (mag + 1) * (mag + 1) - 1,
            0 <= s,
    ;
    assert(0 <= (mag + 1) * s <= (s + 1) * mag) by (nonlinear_arith)
        requires
            0 <= s <= mag,
    ;
    assert(((mag + 1) * s) * ((mag + 1) * s) <= ((s + 1) * mag) * ((s + 1) * mag))
        by (nonlinear_arith)
        requires
            0 <= (mag + 1) * s <= (s + 1) * mag,
    ;
    assert(m * (mag * mag) < ((s + 1) * (s + 1)) * (mag * mag) || s == 0 && m * (mag * mag) <= 0)
        by (nonlinear_arith)
        requires
            m * (mag * mag) <= n * (s * s),
            n * (s * s) <= ((mag + 1) * (mag + 1) - 1) * (s * s),
            ((mag + 1) * s) * ((mag + 1) * s) <= ((s + 1) * mag) * ((s + 1) * mag),
            0 <= s,
            0 < mag,
    ;
    assert(m < (s + 1) * (s + 1)) by (nonlinear_arith)
        requires
            m * (mag * mag) < ((s + 1) * (s + 1)) * (mag * mag) || s == 0 && m * (mag * mag)
                <= 0,
            0 < mag,
            0 <= s,
            0 <= m,
    ;
    assert(0 <= m) by (nonlinear_arith)
        requires
            m == a * a + b * b,
    ;
    lemma_sqrt_exists(m);
    let r = sqrt_spec(m);
    assert(r <= s) by (nonlinear_arith)
        requires
            0 <= r,
            r * r <= m,
            m < (s + 1) * (s + 1),
            0 <= s,
    ;
}

/// Integer square root by bisection.
pub fn isqrt(n: u128) -> (r: u128)
    ensures
        is_sqrt(r as int, n as int),
        r == sqrt_spec(n as int),
        r < 0x1_0000_0000_0000_0000,
{
    let mut lo: u128 = 0;
    let mut hi: u128 = 0x1_0000_0000_0000_0000;
    assert(n < hi * hi) by (nonlinear_arith)
        requires
            n <= u128::MAX,
            hi == 0x1_0000_0000_0000_0000,
    ;
    assert(lo * lo <= n) by (nonlinear_arith)
        requires
            lo == 0,
            n >= 0,
    ;
    while hi - lo > 1
        invariant
            lo < hi <= 0x1_0000_0000_0000_0000,
            lo * lo <= n,
            n < hi * hi,
        decreases hi - lo,
    {
        let mid: u128 = lo + (hi - lo) / 2;
        assert(mid * mid <= 0xffff_ffff_ffff_ffff * 0xffff_ffff_ffff_ffff) by (nonlinear_arith)
            requires
                0 <= mid <= 0xffff_ffff_ffff_ffff,
        ;
        if mid * mid <= n {
            lo = mid;
        } else {
            hi = mid;
        }
    }
    proof {
        assert(hi == lo + 1);
        assert(is_sqrt(lo as int, n as int));
        lemma_sqrt_unique(lo as int, sqrt_spec(n as int), n as int);
    }
    lo
}

/// What `hypot` computes, as a value of the same type.
pub open spec fn hypot_value(x: i64, y: i64) -> i64 {
    (hypot_spec(x as int, y as int)) as i64
}

/// Length of the vector `(x, y)`.
#[verifier::when_used_as_spec(hypot_value)]
pub fn hypot(x: i64, y: i64) -> (r: i64)
    ensures
        r == hypot_value(x, y),
        r == hypot_spec(x as int, y as int),
        0 <= r <= LIMIT,
{
    proof {
        lemma_product_fits(x as int, x as int);
        lemma_product_fits(y as int, y as int);
        assert(x * x >= 0) by (nonlinear_arith);
        assert(y * y >= 0) by (nonlinear_arith);
    }
    let xx: i128 = (x as i128) * (x as i128);
    let yy: i128 = (y as i128) * (y as i128);
    let n: u128 = (xx as u128) + (yy as u128);
    let root: u128 = isqrt(n);
    narrow(root as i128)
}

/// What `wrap_angle` computes, as a value of the same type.
pub open spec fn wrap_angle_value(a: i64) -> i64 {
    (wrap_spec(a as int)) as i64
}

/// Brings an angle into `[0, TWO_PI)`.
#[verifier::when_used_as_spec(wrap_angle_value)]
pub fn wrap_angle(a: i64) -> (r: i64)
    ensures
        r == wrap_angle_value(a),
        r == wrap_spec(a as int),
        0 <= r < TWO_PI,
{
    if a >= 0 {
        a % TWO_PI
    } else {
        let back: i128 = -(a as i128);
        let rem: i128 = back % (TWO_PI as i128);
        assert(a as int == -(TWO_PI as int) * ((back as int) / (TWO_PI as int)) - rem as int)
            by (nonlinear_arith)
            requires
                back == -(a as int),
                rem == (back as int) % (TWO_PI as int),
                TWO_PI == 6_283_184,
        ;
        if rem == 0 {
            assert((a as int) % (TWO_PI as int) == 0) by (nonlinear_arith)
                requires
                    a as int == -(TWO_PI as int) * ((back as int) / (TWO_PI as int)),
                    TWO_PI == 6_283_184,
            ;
            0
        } else {
            let r: i64 = (TWO_PI as i128 - rem) as i64;
            assert((a as int) % (TWO_PI as int) == r as int) by (nonlinear_arith)
                requires
                    a as int == (TWO_PI as int) * (-((back as int) / (TWO_PI as int)) - 1)
                        + r as int,
                    0 <= r < TWO_PI,
                    TWO_PI == 6_283_184,
            ;
            r
        }
    }
}

/// The half-wave `x (PI - x)` never exceeds its value at the crest.
pub proof fn lemma_arch_bound(x: int)
    requires
        0 <= x <= PI,
    ensures
        0 <= x * (PI - x) <= 2_467_400_073_616,
        0 <= sin_arch(x) <= SCALE,
{
    let p = x * (PI - x);
    assert(0 <= p) by (nonlinear_arith)
        requires
            p == x * (PI - x),
            0 <= x <= PI,
    ;
    assert(4 * p <= PI * PI) by (nonlinear_arith)
        requires
            p == x * (PI - x),
    ;
    assert(PI * PI == 9_869_600_294_464) by (nonlinear_arith);
    let d = 5 * PI * PI - 4 * p;
    assert(d == 5 * 9_869_600_294_464 - 4 * p) by (nonlinear_arith)
        requires
            d == 5 * PI * PI - 4 * p,
            PI * PI == 9_869_600_294_464,
    ;
    assert(16 * p * SCALE <= d * SCALE) by (nonlinear_arith)
        requires
            20 * p <= 5 * 9_869_600_294_464,
            d == 5 * 9_869_600_294_464 - 4 * p,
    ;
    assert(0 <= (16 * p * SCALE) / d <= SCALE) by (nonlinear_arith)
        requires
            0 <= 16 * p * SCALE <= d * SCALE,
            d > 0,
    ;
}

/// Sine of an angle already in `[0, PI]`.
fn sin_half_wave(x: i64) -> (r: i64)
    requires
        0 <= x <= PI,
    ensures
        r == sin_arch(x as int),
        0 <= r <= SCALE,
{
    proof {
        lemma_arch_bound(x as int);
        assert(PI * PI == 9_869_600_294_464) by (nonlinear_arith);
    }
    let p: i128 = (x as i128) * ((PI - x) as i128);
    assert(16 * p * SCALE == 16_000_000 * p) by (nonlinear_arith)
        requires
            SCALE == 1_000_000,
    ;
    assert(5 * PI * PI == 49_348_001_472_320) by (nonlinear_arith)
        requires
            PI * PI == 9_869_600_294_464,
    ;
    let num: i128 = 16_000_000 * p;
    let den: i128 = 49_348_001_472_320 - 4 * p;
    (num / den) as i64
}

/// What `sin_fx` computes, as a value of the same type.
pub open spec fn sin_fx_value(a: i64) -> i64 {
    (sin_spec(a as int)) as i64
}

/// Fixed-point sine.
#[verifier::when_used_as_spec(sin_fx_value)]
pub fn sin_fx(a: i64) -> (r: i64)
    ensures
        r == sin_fx_value(a),
        r == sin_spec(a as int),
        -SCALE <= r <= SCALE,
{
    let x: i64 = wrap_angle(a);
    if x <= PI {
        sin_half_wave(x)
    } else {
        -sin_half_wave(x - PI)
    }
}

/// What `cos_fx` computes, as a value of the same type.
pub open spec fn cos_fx_value(a: i64) -> i64 {
    (cos_spec(a as int)) as i64
}

/// Fixed-point cosine.
#[verifier::when_used_as_spec(cos_fx_value)]
pub fn cos_fx(a: i64) -> (r: i64)
    ensures
        r == cos_fx_value(a),
        r == cos_spec(a as int),
        -SCALE <= r <= SCALE,
{
    sin_fx(wrap_angle(a) + HALF_PI)
}

/// The arctangent approximation stays within an eighth of a turn.
pub proof fn lemma_atan_unit_bound(z: int)
    requires
        0 <= z <= SCALE,
    ensures
        0 <= atan_unit(z) <= QUARTER_PI + ATAN_BEND,
{
    let bend = (ATAN_BEND * (SCALE - z)) / (SCALE as int);
    assert(0 <= bend <= ATAN_BEND) by (nonlinear_arith)
        requires
            bend == (ATAN_BEND * (SCALE - z)) / (SCALE as int),
            0 <= z <= SCALE,
            SCALE == 1_000_000,
            ATAN_BEND == 273_000,
    ;
    let f = QUARTER_PI + bend;
    assert(0 <= (z * f) / (SCALE as int) <= f) by (nonlinear_arith)
        requires
            0 <= z <= SCALE,
            0 <= f,
            SCALE == 1_000_000,
    ;
}

fn atan_ratio(z: i64) -> (r: i64)
    requires
        0 <= z <= SCALE,
    ensures
        r == atan_unit(z as int),
        0 <= r <= QUARTER_PI + ATAN_BEND,
{
    proof {
        lemma_atan_unit_bound(z as int);
    }
    assert(0 <= ATAN_BEND * (SCALE - z) <= 273_000_000_000) by (nonlinear_arith)
        requires
            0 <= z <= SCALE,
            SCALE == 1_000_000,
            ATAN_BEND == 273_000,
    ;
    let bend: i64 = (ATAN_BEND * (SCALE - z)) / SCALE;
    let f: i64 = QUARTER_PI + bend;
    assert(0 <= z * f <= 1_000_000 * 1_058_398) by (nonlinear_arith)
        requires
            0 <= z <= 1_000_000,
            0 <= f <= 1_058_398,
    ;
    (z * f) / SCALE
}

/// A ratio of a smaller by a larger non-negative number is at most one.
pub proof fn lemma_ratio_unit(small: int, large: int)
    requires
        0 <= small <= large,
        large > 0,
    ensures
        0 <= (small * SCALE) / large <= SCALE,
{
    assert(0 <= (small * SCALE) / large <= SCALE) by (nonlinear_arith)
        requires
            0 <= small <= large,
            large > 0,
            SCALE == 1_000_000,
    ;
}

fn atan_first_quadrant(x: i64, y: i64) -> (r: i64)
    requires
        0 <= x,
        0 <= y,
    ensures
        r == atan_quadrant(x as int, y as int),
        0 <= r <= HALF_PI,
{
    if x == 0 && y == 0 {
        0
    } else if y <= x {
        proof {
            lemma_ratio_unit(y as int, x as int);
            lemma_product_fits(y as int, SCALE as int);
        }
        let z: i128 = ((y as i128) * (SCALE as i128)) / (x as i128);
        let a: i64 = atan_ratio(z as i64);
        proof {
            lemma_atan_at_most_quarter(z as int);
        }
        a
    } else {
        proof {
            lemma_ratio_unit(x as int, y as int);
            lemma_product_fits(x as int, SCALE as int);
        }
        let z: i128 = ((x as i128) * (SCALE as i128)) / (y as i128);
        let a: i64 = atan_ratio(z as i64);
        proof {
            lemma_atan_at_most_quarter(z as int);
        }
        HALF_PI - a
    }
}

/// The arctangent approximation of a ratio up to one is at most a
/// quarter of a half turn, rounding included.
pub proof fn lemma_atan_at_most_quarter(z: int)
    requires
        0 <= z <= SCALE,
    ensures
        0 <= atan_unit(z) <= QUARTER_PI,
{
    lemma_atan_unit_bound(z);
    let bend = (ATAN_BEND * (SCALE - z)) / (SCALE as int);
    assert(bend * SCALE <= ATAN_BEND * (SCALE - z)) by (nonlinear_arith)
        requires
            bend == (ATAN_BEND * (SCALE - z)) / (SCALE as int),
            SCALE == 1_000_000,
    ;
    let f = QUARTER_PI + bend;
    // z * f <= QUARTER_PI * SCALE, since z * bend <= ATAN_BEND * z * (SCALE - z) / SCALE
    // and (QUARTER_PI - ATAN_BEND * z / SCALE) * (SCALE - z) >= 0.
    assert(z * f * SCALE <= QUARTER_PI * SCALE * SCALE) by (nonlinear_arith)
        requires
            f == QUARTER_PI + bend,
            bend * SCALE <= ATAN_BEND * (SCALE - z),
            0 <= bend,
            0 <= z <= SCALE,
            SCALE == 1_000_000,
            QUARTER_PI == 785_398,
            ATAN_BEND == 273_000,
    ;
    assert((z * f) / (SCALE as int) <= QUARTER_PI) by (nonlinear_arith)
        requires
            z * f * SCALE <= QUARTER_PI * SCALE * SCALE,
            SCALE == 1_000_000,
    ;
}

/// What `atan2_fx` computes, as a value of the same type.
pub open spec fn atan2_fx_value(y: i64, x: i64) -> i64 {
    (atan2_spec(y as int, x as int)) as i64
}

/// Direction of the vector `(x, y)`.
#[verifier::when_used_as_spec(atan2_fx_value)]
pub fn atan2_fx(y: i64, x: i64) -> (r: i64)
    ensures
        r == atan2_fx_value(y, x),
        r == atan2_spec(y as int, x as int),
        -PI <= r <= PI,
{
    let q: i64 = atan_first_quadrant(fx_abs(x), fx_abs(y));
    if x >= 0 {
        if y >= 0 {
            q
        } else {
            -q
        }
    } else {
        if y >= 0 {
            PI - q
        } else {
            q - PI
        }
    }
}

/// What `deg_to_rad` computes, as a value of the same type.
pub open spec fn deg_to_rad_value(d: i64) -> i64 {
    (deg_to_rad_spec(d as int)) as i64
}

#[verifier::when_used_as_spec(deg_to_rad_value)]
pub fn deg_to_rad(d: i64) -> (r: i64)
    ensures
        r == deg_to_rad_value(d),
        r == deg_to_rad_spec(d as int),
{
    mul_div(d, PI, HALF_TURN_DEG)
}

/// What `rad_to_deg` computes, as a value of the same type.
pub open spec fn rad_to_deg_value(a: i64) -> i64 {
    (rad_to_deg_spec(a as int)) as i64
}

#[verifier::when_used_as_spec(rad_to_deg_value)]
pub fn rad_to_deg(a: i64) -> (r: i64)
    ensures
        r == rad_to_deg_value(a),
        r == rad_to_deg_spec(a as int),
{
    mul_div(a, HALF_TURN_DEG, PI)
}

} // verus!
