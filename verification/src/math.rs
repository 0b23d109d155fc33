//! Fixed-point 3-vector and 3x3-matrix arithmetic, and Euler-angle
//! rotation matrices built from (sine, cosine) pairs.
//!
//! Every function states its exact integer result; division is the
//! truncating quotient [`div_trunc`], so the behaviour of each routine is
//! pinned down to the last unit.

use vstd::prelude::*;

use crate::types::COORD_LIMIT;
use crate::types::Mat3;
use crate::types::ONE;
use crate::types::Vec3;

verus! {

/// Truncating division (rounds toward zero), for a positive divisor.
/// This is the quotient Rust's `/` computes on machine integers.
pub open spec fn div_trunc(n: int, d: int) -> int {
    if n >= 0 {
        n / d
    } else {
        -((-n) / d)
    }
}

/// The magnitude of a truncating quotient never exceeds the magnitude of
/// the exact quotient: `|div_trunc(n, d)| * d <= |n|`.
pub proof fn lemma_div_trunc_bound(n: int, d: int)
    requires
        d > 0,
    ensures
        n >= 0 ==> 0 <= div_trunc(n, d) && div_trunc(n, d) * d <= n,
        n < 0 ==> div_trunc(n, d) <= 0 && n <= div_trunc(n, d) * d,
{
    if n >= 0 {
        assert(0 <= n / d && (n / d) * d <= n) by (nonlinear_arith)
            requires
                n >= 0,
                d > 0,
        ;
    } else {
        let q = (-n) / d;
        assert(0 <= q && q * d <= -n) by (nonlinear_arith)
            requires
                n < 0,
                d > 0,
                q == (-n) / d,
        ;
        assert(div_trunc(n, d) == -q);
        assert((-q) * d == -(q * d)) by (nonlinear_arith);
        assert(div_trunc(n, d) * d == (-q) * d);
    }
}

/// A quotient is monotone in the magnitude of the dividend:
/// `|n| <= b` gives `|div_trunc(n, d)| <= b / d`.
pub proof fn lemma_div_trunc_mag(n: int, d: int, b: int)
    requires
        d > 0,
        -b <= n <= b,
        0 <= b,
    ensures
        -(b / d) <= div_trunc(n, d) <= b / d,
{
    if n >= 0 {
        assert(n / d <= b / d && 0 <= n / d) by (nonlinear_arith)
            requires
                d > 0,
                0 <= n <= b,
        ;
    } else {
        assert((-n) / d <= b / d && 0 <= (-n) / d) by (nonlinear_arith)
            requires
                d > 0,
                0 < -n <= b,
        ;
    }
}

/// Dividing an exact multiple returns the factor: `div_trunc(k * d, d) == k`.
pub proof fn lemma_div_trunc_exact(k: int, d: int)
    requires
        d > 0,
    ensures
        div_trunc(k * d, d) == k,
{
    if k >= 0 {
        assert((k * d) / d == k) by (nonlinear_arith)
            requires
                d > 0,
                k >= 0,
        ;
    } else {
        assert(-(k * d) == (-k) * d) by (nonlinear_arith);
        assert(((-k) * d) / d == -k) by (nonlinear_arith)
            requires
                d > 0,
                -k >= 0,
        ;
    }
}

/// Truncating division of a machine integer by a positive divisor.
pub fn div_trunc_i64(n: i64, d: i64) -> (q: i64)
    requires
        d > 0,
        n > i64::MIN,
    ensures
        q == div_trunc(n as int, d as int),
{
    proof {
        lemma_div_trunc_bound(n as int, d as int);
    }
    if n >= 0 {
        ((n as u64) / (d as u64)) as i64
    } else {
        let m: u64 = (-n) as u64;
        let q0: u64 = m / (d as u64);
        -(q0 as i64)
    }
}

/// Truncating division of a wide intermediate by a positive divisor.
pub fn div_trunc_i128(n: i128, d: i128) -> (q: i128)
    requires
        d > 0,
        n > i128::MIN,
    ensures
        q == div_trunc(n as int, d as int),
{
    proof {
        lemma_div_trunc_bound(n as int, d as int);
    }
    if n >= 0 {
        ((n as u128) / (d as u128)) as i128
    } else {
        let m: u128 = (-n) as u128;
        let q0: u128 = m / (d as u128);
        -(q0 as i128)
    }
}

/// The floor of the square root of a natural number.
pub open spec fn sqrt_floor(n: nat) -> nat
    decreases n,
{
    if n == 0 {
        0
    } else {
        let p = sqrt_floor((n - 1) as nat);
        if (p + 1) * (p + 1) <= n {
            p + 1
        } else {
            p
        }
    }
}

/// `sqrt_floor(n)` is the unique `r` with `r * r <= n < (r + 1) * (r + 1)`.
pub proof fn lemma_sqrt_floor_bounds(n: nat)
    ensures
        sqrt_floor(n) * sqrt_floor(n) <= n,
        n < (sqrt_floor(n) + 1) * (sqrt_floor(n) + 1),
    decreases n,
{
    let s = sqrt_floor(n);
    if n == 0 {
        assert(s == 0);
        assert(s * s <= n && n < (s + 1) * (s + 1)) by (nonlinear_arith)
            requires
                s == 0,
                n == 0,
        ;
    } else {
        lemma_sqrt_floor_bounds((n - 1) as nat);
        let p = sqrt_floor((n - 1) as nat);
        assert(p * p <= n - 1);
        assert(n - 1 < (p + 1) * (p + 1));
        if (p + 1) * (p + 1) <= n {
            assert(s == p + 1);
            assert(s * s <= n && n < (s + 1) * (s + 1)) by (nonlinear_arith)
                requires
                    s == p + 1,
                    (p + 1) * (p + 1) <= n,
                    n - 1 < (p + 1) * (p + 1),
                    p >= 0,
            ;
        } else {
            assert(s == p);
            assert(s * s <= n && n < (s + 1) * (s + 1)) by (nonlinear_arith)
                requires
                    s == p,
                    p * p <= n - 1,
                    n < (p + 1) * (p + 1),
                    p >= 0,
            ;
        }
    }
}

/// Any `r` within the square-root bounds equals `sqrt_floor(n)`.
pub proof fn lemma_sqrt_floor_unique(n: nat, r: nat)
    requires
        r * r <= n,
        n < (r + 1) * (r + 1),
    ensures
        r == sqrt_floor(n),
{
    lemma_sqrt_floor_bounds(n);
    let s = sqrt_floor(n);
    if r < s {
        assert((r + 1) * (r + 1) <= s * s) by (nonlinear_arith)
            requires
                r + 1 <= s,
                r >= 0,
        ;
    }
    if s < r {
        assert((s + 1) * (s + 1) <= r * r) by (nonlinear_arith)
            requires
                s + 1 <= r,
                s >= 0,
        ;
    }
}

/// The integer square root, by bisection.
pub fn isqrt(n: u128) -> (r: u64)
    ensures
        r == sqrt_floor(n as nat),
{
    let mut lo: u128 = 0;
    let mut hi: u128 = 0x1_0000_0000_0000_0000;
    proof {
        assert((hi as int) * (hi as int) > n as int) by (nonlinear_arith)
            requires
                hi == 0x1_0000_0000_0000_0000,
                n < hi * hi,
        ;
    }
    while lo + 1 < hi
        invariant
            0 <= lo < hi <= 0x1_0000_0000_0000_0000,
            (lo as int) * (lo as int) <= n as int,
            (n as int) < (hi as int) * (hi as int),
        decreases hi - lo,
    {
        let mid: u128 = lo + (hi - lo) / 2;
        assert(lo < mid < hi);
        proof {
            assert((mid as int) * (mid as int) <= u128::MAX) by (nonlinear_arith)
                requires
                    0 <= mid <= 0xffff_ffff_ffff_ffff,
            ;
        }
        if mid * mid <= n {
            lo = mid;
        } else {
            hi = mid;
        }
    }
    proof {
        lemma_sqrt_floor_unique(n as nat, lo as nat);
    }
    lo as u64
}

/// Anything with a square at most `n` is at most `sqrt_floor(n)`.
pub proof fn lemma_sqrt_floor_ge(n: nat, m: nat)
    requires
        m * m <= n,
    ensures
        m <= sqrt_floor(n),
{
    lemma_sqrt_floor_bounds(n);
    let s = sqrt_floor(n);
    if s < m {
        assert((s + 1) * (s + 1) <= m * m) by (nonlinear_arith)
            requires
                s + 1 <= m,
                s >= 0,
        ;
    }
}

/// The componentwise sum `a + b`.
pub open spec fn vec3_add_spec(a: Vec3, b: Vec3) -> Vec3 {
    Vec3 { x: (a.x + b.x) as i64, y: (a.y + b.y) as i64, z: (a.z + b.z) as i64 }
}

/// The componentwise difference `a - b`.
pub open spec fn vec3_sub_spec(a: Vec3, b: Vec3) -> Vec3 {
    Vec3 { x: (a.x - b.x) as i64, y: (a.y - b.y) as i64, z: (a.z - b.z) as i64 }
}

/// The inner product `a . b` as a mathematical integer.
pub open spec fn vec3_dot_spec(a: Vec3, b: Vec3) -> int {
    a.x * b.x + a.y * b.y + a.z * b.z
}

/// The cross product `a x b`.
pub open spec fn vec3_cross_spec(a: Vec3, b: Vec3) -> Vec3 {
    Vec3 {
        x: (a.y * b.z - a.z * b.y) as i64,
        y: (a.z * b.x - a.x * b.z) as i64,
        z: (a.x * b.y - a.y * b.x) as i64,
    }
}

/// The squared Euclidean length of `v` as a mathematical integer.
pub open spec fn vec3_len2_spec(v: Vec3) -> int {
    v.x * v.x + v.y * v.y + v.z * v.z
}

/// The Euclidean length of `v`, rounded down to a whole number of units.
pub open spec fn vec3_len_spec(v: Vec3) -> int {
    sqrt_floor(vec3_len2_spec(v) as nat) as int
}

/// `v` scaled by the `ONE`-scaled factor `k` (so `k == ONE` is the identity
/// up to rounding).
pub open spec fn vec3_scale_spec(v: Vec3, k: i64) -> Vec3 {
    Vec3 {
        x: div_trunc(v.x * k, ONE as int) as i64,
        y: div_trunc(v.y * k, ONE as int) as i64,
        z: div_trunc(v.z * k, ONE as int) as i64,
    }
}

/// `v` scaled to length `ONE` (truncating), or zero when `v` is zero.
pub open spec fn vec3_normalize_spec(v: Vec3) -> Vec3 {
    if v == Vec3::zero_spec() {
        Vec3::zero_spec()
    } else {
        Vec3 {
            x: div_trunc(v.x * ONE, vec3_len_spec(v)) as i64,
            y: div_trunc(v.y * ONE, vec3_len_spec(v)) as i64,
            z: div_trunc(v.z * ONE, vec3_len_spec(v)) as i64,
        }
    }
}

pub fn vec3_add(a: Vec3, b: Vec3) -> (r: Vec3)
    requires
        a.in_range(2_000_000_000_000_000_000),
        b.in_range(2_000_000_000_000_000_000),
    ensures
        r == vec3_add_spec(a, b),
        r.x == a.x + b.x && r.y == a.y + b.y && r.z == a.z + b.z,
{
    Vec3 { x: a.x + b.x, y: a.y + b.y, z: a.z + b.z }
}

pub fn vec3_sub(a: Vec3, b: Vec3) -> (r: Vec3)
    requires
        a.in_range(2_000_000_000_000_000_000),
        b.in_range(2_000_000_000_000_000_000),
    ensures
        r == vec3_sub_spec(a, b),
        r.x == a.x - b.x && r.y == a.y - b.y && r.z == a.z - b.z,
{
    Vec3 { x: a.x - b.x, y: a.y - b.y, z: a.z - b.z }
}

pub fn vec3_dot(a: Vec3, b: Vec3) -> (r: i64)
    requires
        a.in_range(1_000_000_000),
        b.in_range(1_000_000_000),
    ensures
        r == vec3_dot_spec(a, b),
{
    proof {
        lemma_mul_mag(a.x as int, b.x as int, 1_000_000_000, 1_000_000_000);
        lemma_mul_mag(a.y as int, b.y as int, 1_000_000_000, 1_000_000_000);
        lemma_mul_mag(a.z as int, b.z as int, 1_000_000_000, 1_000_000_000);
    }
    a.x * b.x + a.y * b.y + a.z * b.z
}

pub fn vec3_cross(a: Vec3, b: Vec3) -> (r: Vec3)
    requires
        a.in_range(2_000_000_000),
        b.in_range(2_000_000_000),
    ensures
        r == vec3_cross_spec(a, b),
        r.in_range(8_000_000_000_000_000_000),
{
    proof {
        lemma_mul_mag(a.y as int, b.z as int, 2_000_000_000, 2_000_000_000);
        lemma_mul_mag(a.z as int, b.y as int, 2_000_000_000, 2_000_000_000);
        lemma_mul_mag(a.z as int, b.x as int, 2_000_000_000, 2_000_000_000);
        lemma_mul_mag(a.x as int, b.z as int, 2_000_000_000, 2_000_000_000);
        lemma_mul_mag(a.x as int, b.y as int, 2_000_000_000, 2_000_000_000);
        lemma_mul_mag(a.y as int, b.x as int, 2_000_000_000, 2_000_000_000);
    }
    Vec3 { x: a.y * b.z - a.z * b.y, y: a.z * b.x - a.x * b.z, z: a.x * b.y - a.y * b.x }
}

/// `|a| <= ba` and `|b| <= bb` bound the product: `|a * b| <= ba * bb`.
pub proof fn lemma_mul_mag(a: int, b: int, ba: int, bb: int)
    requires
        -ba <= a <= ba,
        -bb <= b <= bb,
        0 <= ba,
        0 <= bb,
    ensures
        -(ba * bb) <= a * b <= ba * bb,
{
    assert(-(ba * bb) <= a * b <= ba * bb) by (nonlinear_arith)
        requires
            -ba <= a <= ba,
            -bb <= b <= bb,
            0 <= ba,
            0 <= bb,
    ;
}

pub fn vec3_scale(v: Vec3, k: i64) -> (r: Vec3)
    requires
        v.in_range(1_000_000_000),
        -1_000_000_000 <= k <= 1_000_000_000,
    ensures
        r == vec3_scale_spec(v, k),
{
    proof {
        lemma_mul_mag(v.x as int, k as int, 1_000_000_000, 1_000_000_000);
        lemma_mul_mag(v.y as int, k as int, 1_000_000_000, 1_000_000_000);
        lemma_mul_mag(v.z as int, k as int, 1_000_000_000, 1_000_000_000);
        lemma_div_trunc_mag(v.x * k, ONE as int, 1_000_000_000_000_000_000);
        lemma_div_trunc_mag(v.y * k, ONE as int, 1_000_000_000_000_000_000);
        lemma_div_trunc_mag(v.z * k, ONE as int, 1_000_000_000_000_000_000);
    }
    Vec3 {
        x: div_trunc_i64(v.x * k, ONE),
        y: div_trunc_i64(v.y * k, ONE),
        z: div_trunc_i64(v.z * k, ONE),
    }
}

/// The Euclidean length of `v` in whole units, rounded down.
pub fn vec3_len(v: Vec3) -> (r: u64)
    ensures
        r == vec3_len_spec(v),
{
    let x = v.x as i128;
    let y = v.y as i128;
    let z = v.z as i128;
    proof {
        lemma_sq_nonneg(x as int);
        lemma_sq_nonneg(y as int);
        lemma_sq_nonneg(z as int);
        lemma_sq_fits_u128(x as int);
        lemma_sq_fits_u128(y as int);
        lemma_sq_fits_u128(z as int);
    }
    let n: u128 = (x * x) as u128 + (y * y) as u128 + (z * z) as u128;
    isqrt(n)
}

/// A length of zero is had only by the zero vector's squared length.
proof fn lemma_sqrt_floor_zero(n: nat)
    requires
        sqrt_floor(n) == 0,
    ensures
        n == 0,
{
    lemma_sqrt_floor_bounds(n);
    let s = sqrt_floor(n);
    assert((s + 1) * (s + 1) == 1) by (nonlinear_arith)
        requires
            s == 0,
    ;
}

/// A square is nonnegative.
pub proof fn lemma_sq_nonneg(x: int)
    ensures
        x * x >= 0,
{
    assert(x * x >= 0) by (nonlinear_arith);
}

/// The square of a machine integer component is small enough that three of
/// them sum inside `u128`.
proof fn lemma_sq_fits_u128(x: int)
    requires
        i64::MIN <= x <= i64::MAX,
    ensures
        x * x <= 0x4000_0000_0000_0000_0000_0000_0000_0000,
{
    assert(x * x <= 0x4000_0000_0000_0000_0000_0000_0000_0000) by (nonlinear_arith)
        requires
            -0x8000_0000_0000_0000 <= x <= 0x8000_0000_0000_0000,
    ;
}

/// `v` scaled to unit length (`ONE`-scaled), or zero for the zero vector.
pub fn vec3_normalized(v: Vec3) -> (r: Vec3)
    ensures
        r == vec3_normalize_spec(v),
        r.in_range(ONE as int),
{
    let len = vec3_len(v);
    proof {
        lemma_sq_nonneg(v.x as int);
        lemma_sq_nonneg(v.y as int);
        lemma_sq_nonneg(v.z as int);
    }
    if len == 0 {
        proof {
            lemma_sqrt_floor_zero(vec3_len2_spec(v) as nat);
            if v.x != 0 {
                lemma_sq_pos(v.x as int);
            }
            if v.y != 0 {
                lemma_sq_pos(v.y as int);
            }
            if v.z != 0 {
                lemma_sq_pos(v.z as int);
            }
            assert(v == Vec3::zero_spec());
        }
        Vec3 { x: 0, y: 0, z: 0 }
    } else {
        proof {
            lemma_abs_sq(v.x as int);
            lemma_abs_sq(v.y as int);
            lemma_abs_sq(v.z as int);
            lemma_sqrt_floor_ge(vec3_len2_spec(v) as nat, abs(v.x as int) as nat);
            lemma_sqrt_floor_ge(vec3_len2_spec(v) as nat, abs(v.y as int) as nat);
            lemma_sqrt_floor_ge(vec3_len2_spec(v) as nat, abs(v.z as int) as nat);
        }
        let xq = norm_component(v.x, len);
        let yq = norm_component(v.y, len);
        let zq = norm_component(v.z, len);
        Vec3 { x: xq, y: yq, z: zq }
    }
}

/// A quotient stays within `bound` when the dividend is within `bound * d`.
pub proof fn lemma_div_trunc_within(n: int, d: int, bound: int)
    requires
        d > 0,
        bound >= 0,
        -(bound * d) <= n <= bound * d,
    ensures
        -bound <= div_trunc(n, d) <= bound,
{
    lemma_div_trunc_mag(n, d, bound * d);
    assert((bound * d) / d == bound) by (nonlinear_arith)
        requires
            d > 0,
            bound >= 0,
    ;
}

/// The magnitude of an integer.
pub open spec fn abs(x: int) -> int {
    if x >= 0 {
        x
    } else {
        -x
    }
}

/// A nonzero integer has a positive square.
proof fn lemma_sq_pos(x: int)
    requires
        x != 0,
    ensures
        x * x >= 1,
{
    assert(x * x >= 1) by (nonlinear_arith)
        requires
            x != 0,
    ;
}

/// The square of `x` is the square of its magnitude.
proof fn lemma_abs_sq(x: int)
    ensures
        abs(x) * abs(x) == x * x,
{
    assert((-x) * (-x) == x * x) by (nonlinear_arith);
}

/// One component of a normalized vector: `x * ONE / len`, truncating.
fn norm_component(x: i64, len: u64) -> (q: i64)
    requires
        len > 0,
        abs(x as int) <= len,
    ensures
        q == div_trunc(x * ONE, len as int),
        -ONE <= q <= ONE,
{
    proof {
        lemma_mul_mag(x as int, ONE as int, 0xffff_ffff_ffff_ffff, ONE as int);
    }
    let wide: i128 = (x as i128) * (ONE as i128);
    proof {
        lemma_mul_mag(x as int, ONE as int, len as int, ONE as int);
        lemma_div_trunc_mag(x * ONE, len as int, len * ONE);
        lemma_div_trunc_exact(ONE as int, len as int);
        assert((len * ONE) / (len as int) == ONE) by (nonlinear_arith)
            requires
                len > 0,
        ;
    }
    let q = div_trunc_i128(wide, len as i128);
    q as i64
}

/// Largest magnitude an entry of a composed rotation matrix may take.
pub const MAT_LIMIT: i64 = 9_000_000;

/// A rotation about one axis, held as the `ONE`-scaled sine and cosine of
/// the angle. The host evaluates the trigonometry; composing two angles is
/// exact integer arithmetic through the angle-sum identities.
#[derive(Clone, Copy, PartialEq, Eq, Structural, Debug)]
pub struct Angle {
    pub sin: i64,
    pub cos: i64,
}

impl Angle {
    /// The point (sin, cos) lies inside the unit circle. This holds of
    /// every true (sine, cosine) pair and is preserved by [`Angle::plus`].
    pub open spec fn wf(self) -> bool {
        self.sin * self.sin + self.cos * self.cos <= ONE * ONE
    }

    pub open spec fn identity_spec() -> Angle {
        Angle { sin: 0, cos: ONE }
    }

    /// The zero angle.
    pub fn identity() -> (r: Angle)
        ensures
            r == Angle::identity_spec(),
            r.wf(),
    {
        Angle { sin: 0, cos: ONE }
    }

    /// A quarter turn (90 degrees, counterclockwise).
    pub fn quarter_turn() -> (r: Angle)
        ensures
            r == (Angle { sin: ONE, cos: 0 }),
            r.wf(),
    {
        Angle { sin: ONE, cos: 0 }
    }

    /// An angle from a `ONE`-scaled (sine, cosine) pair supplied by the host.
    pub fn new(sin: i64, cos: i64) -> (r: Angle)
        requires
            sin * sin + cos * cos <= ONE * ONE,
        ensures
            r == (Angle { sin, cos }),
            r.wf(),
    {
        Angle { sin, cos }
    }

    /// The sum of the angles, by the angle-sum identities, truncated to the
    /// `ONE` scale.
    pub open spec fn plus_spec(self, other: Angle) -> Angle {
        Angle {
            sin: div_trunc(self.sin * other.cos + self.cos * other.sin, ONE as int) as i64,
            cos: div_trunc(self.cos * other.cos - self.sin * other.sin, ONE as int) as i64,
        }
    }

    /// Adds `other` to this angle.
    pub fn plus(self, other: Angle) -> (r: Angle)
        requires
            self.wf(),
            other.wf(),
        ensures
            r == self.plus_spec(other),
            r.wf(),
    {
        proof {
            lemma_angle_components(self);
            lemma_angle_components(other);
            lemma_mul_mag(self.sin as int, other.cos as int, ONE as int, ONE as int);
            lemma_mul_mag(self.cos as int, other.sin as int, ONE as int, ONE as int);
            lemma_mul_mag(self.cos as int, other.cos as int, ONE as int, ONE as int);
            lemma_mul_mag(self.sin as int, other.sin as int, ONE as int, ONE as int);
            assert(ONE * ONE == 1_000_000_000_000);
            lemma_angle_plus_wf(self, other);
        }
        let s = div_trunc_i64(self.sin * other.cos + self.cos * other.sin, ONE);
        let c = div_trunc_i64(self.cos * other.cos - self.sin * other.sin, ONE);
        Angle { sin: s, cos: c }
    }
}

/// A well-formed angle's sine and cosine each lie in `[-ONE, ONE]`.
pub proof fn lemma_angle_components(a: Angle)
    requires
        a.wf(),
    ensures
        -ONE <= a.sin <= ONE,
        -ONE <= a.cos <= ONE,
{
    assert(-ONE <= a.sin <= ONE && -ONE <= a.cos <= ONE) by (nonlinear_arith)
        requires
            a.sin * a.sin + a.cos * a.cos <= ONE * ONE,
            ONE == 1_000_000,
    ;
}

/// Angle addition keeps the (sine, cosine) pair inside the unit circle:
/// the Brahmagupta identity gives
/// `S * S + C * C == (s1^2 + c1^2) * (s2^2 + c2^2)` for the un-truncated
/// sums, and truncating division only shrinks magnitudes.
#[verifier::rlimit(50)]
proof fn lemma_angle_plus_wf(a: Angle, b: Angle)
    requires
        a.wf(),
        b.wf(),
    ensures
        a.plus_spec(b).wf(),
{
    let qs = a.sin * b.cos + a.cos * b.sin;
    let qc = a.cos * b.cos - a.sin * b.sin;
    lemma_brahmagupta(a.sin as int, a.cos as int, b.sin as int, b.cos as int);
    lemma_sq_nonneg(a.sin as int);
    lemma_sq_nonneg(a.cos as int);
    lemma_sq_nonneg(b.sin as int);
    lemma_sq_nonneg(b.cos as int);
    lemma_angle_components(a);
    lemma_angle_components(b);
    lemma_mul_mag(a.sin as int, b.cos as int, ONE as int, ONE as int);
    lemma_mul_mag(a.cos as int, b.sin as int, ONE as int, ONE as int);
    lemma_mul_mag(a.cos as int, b.cos as int, ONE as int, ONE as int);
    lemma_mul_mag(a.sin as int, b.sin as int, ONE as int, ONE as int);
    assert((2 * ONE) * ONE == ONE * ONE + ONE * ONE) by (nonlinear_arith);
    assert((a.sin * a.sin + a.cos * a.cos) * (b.sin * b.sin + b.cos * b.cos) <= (ONE * ONE) * (ONE
        * ONE)) by (nonlinear_arith)
        requires
            0 <= a.sin * a.sin + a.cos * a.cos <= ONE * ONE,
            0 <= b.sin * b.sin + b.cos * b.cos <= ONE * ONE,
    ;
    let s = div_trunc(qs, ONE as int);
    let c = div_trunc(qc, ONE as int);
    lemma_div_trunc_bound(qs, ONE as int);
    lemma_div_trunc_bound(qc, ONE as int);
    assert(s * s * (ONE * ONE) <= qs * qs) by (nonlinear_arith)
        requires
            qs >= 0 ==> 0 <= s && s * ONE <= qs,
            qs < 0 ==> s <= 0 && qs <= s * ONE,
            ONE > 0,
    ;
    assert(c * c * (ONE * ONE) <= qc * qc) by (nonlinear_arith)
        requires
            qc >= 0 ==> 0 <= c && c * ONE <= qc,
            qc < 0 ==> c <= 0 && qc <= c * ONE,
            ONE > 0,
    ;
    assert(s * s + c * c <= ONE * ONE) by (nonlinear_arith)
        requires
            s * s * (ONE * ONE) + c * c * (ONE * ONE) <= (ONE * ONE) * (ONE * ONE),
            ONE * ONE > 0,
    ;
    lemma_div_trunc_within(qs, ONE as int, 2 * ONE);
    lemma_div_trunc_within(qc, ONE as int, 2 * ONE);
    assert(a.plus_spec(b).sin == s && a.plus_spec(b).cos == c);
}

/// The Brahmagupta identity: the squared norm of an angle sum is the
/// product of the squared norms of its parts.
proof fn lemma_brahmagupta(s1: int, c1: int, s2: int, c2: int)
    ensures
        (s1 * c2 + c1 * s2) * (s1 * c2 + c1 * s2) + (c1 * c2 - s1 * s2) * (c1 * c2 - s1 * s2) == (s1
            * s1 + c1 * c1) * (s2 * s2 + c2 * c2),
{
    let u = s1 * c2;
    let v = c1 * s2;
    let w = c1 * c2;
    let t = s1 * s2;
    assert((u + v) * (u + v) == u * u + 2 * (u * v) + v * v) by (nonlinear_arith);
    assert((w - t) * (w - t) == w * w - 2 * (w * t) + t * t) by (nonlinear_arith);
    assert((s1 * c2) * (c1 * s2) == (c1 * c2) * (s1 * s2)) by (nonlinear_arith);
    assert((s1 * c2) * (s1 * c2) == (s1 * s1) * (c2 * c2)) by (nonlinear_arith);
    assert((c1 * s2) * (c1 * s2) == (c1 * c1) * (s2 * s2)) by (nonlinear_arith);
    assert((c1 * c2) * (c1 * c2) == (c1 * c1) * (c2 * c2)) by (nonlinear_arith);
    assert((s1 * s2) * (s1 * s2) == (s1 * s1) * (s2 * s2)) by (nonlinear_arith);
    let a1 = s1 * s1;
    let b1 = c1 * c1;
    let a2 = s2 * s2;
    let b2 = c2 * c2;
    assert((a1 + b1) * (a2 + b2) == a1 * a2 + a1 * b2 + b1 * a2 + b1 * b2) by (nonlinear_arith);
}

/// A triple of Euler angles, one rotation about each axis.
#[derive(Clone, Copy, PartialEq, Eq, Structural, Debug)]
pub struct Euler {
    pub x: Angle,
    pub y: Angle,
    pub z: Angle,
}

impl Euler {
    pub open spec fn wf(self) -> bool {
        self.x.wf() && self.y.wf() && self.z.wf()
    }

    pub open spec fn identity_spec() -> Euler {
        Euler { x: Angle::identity_spec(), y: Angle::identity_spec(), z: Angle::identity_spec() }
    }

    /// No rotation about any axis.
    pub fn identity() -> (r: Euler)
        ensures
            r == Euler::identity_spec(),
            r.wf(),
    {
        Euler { x: Angle::identity(), y: Angle::identity(), z: Angle::identity() }
    }

    pub open spec fn plus_spec(self, other: Euler) -> Euler {
        Euler {
            x: self.x.plus_spec(other.x),
            y: self.y.plus_spec(other.y),
            z: self.z.plus_spec(other.z),
        }
    }

    /// Adds `other` axis by axis.
    pub fn plus(self, other: Euler) -> (r: Euler)
        requires
            self.wf(),
            other.wf(),
        ensures
            r == self.plus_spec(other),
            r.wf(),
    {
        Euler { x: self.x.plus(other.x), y: self.y.plus(other.y), z: self.z.plus(other.z) }
    }
}

/// Rotation about the X axis: y toward z for a positive angle.
pub open spec fn mat_rot_x_spec(a: Angle) -> Mat3 {
    Mat3 {
        x: Vec3 { x: ONE, y: 0, z: 0 },
        y: Vec3 { x: 0, y: a.cos, z: (-a.sin) as i64 },
        z: Vec3 { x: 0, y: a.sin, z: a.cos },
    }
}

/// Rotation about the Y axis: z toward x for a positive angle.
pub open spec fn mat_rot_y_spec(a: Angle) -> Mat3 {
    Mat3 {
        x: Vec3 { x: a.cos, y: 0, z: a.sin },
        y: Vec3 { x: 0, y: ONE, z: 0 },
        z: Vec3 { x: (-a.sin) as i64, y: 0, z: a.cos },
    }
}

/// Rotation about the Z axis: x toward y for a positive angle, so a
/// quarter turn carries (1, 0, 0) to (0, 1, 0).
pub open spec fn mat_rot_z_spec(a: Angle) -> Mat3 {
    Mat3 {
        x: Vec3 { x: a.cos, y: (-a.sin) as i64, z: 0 },
        y: Vec3 { x: a.sin, y: a.cos, z: 0 },
        z: Vec3 { x: 0, y: 0, z: ONE },
    }
}

pub fn mat_rot_x(a: Angle) -> (r: Mat3)
    requires
        a.wf(),
    ensures
        r == mat_rot_x_spec(a),
        r.in_range(ONE as int),
{
    proof {
        lemma_angle_components(a);
    }
    Mat3 {
        x: Vec3 { x: ONE, y: 0, z: 0 },
        y: Vec3 { x: 0, y: a.cos, z: -a.sin },
        z: Vec3 { x: 0, y: a.sin, z: a.cos },
    }
}

pub fn mat_rot_y(a: Angle) -> (r: Mat3)
    requires
        a.wf(),
    ensures
        r == mat_rot_y_spec(a),
        r.in_range(ONE as int),
{
    proof {
        lemma_angle_components(a);
    }
    Mat3 {
        x: Vec3 { x: a.cos, y: 0, z: a.sin },
        y: Vec3 { x: 0, y: ONE, z: 0 },
        z: Vec3 { x: -a.sin, y: 0, z: a.cos },
    }
}

pub fn mat_rot_z(a: Angle) -> (r: Mat3)
    requires
        a.wf(),
    ensures
        r == mat_rot_z_spec(a),
        r.in_range(ONE as int),
{
    proof {
        lemma_angle_components(a);
    }
    Mat3 {
        x: Vec3 { x: a.cos, y: -a.sin, z: 0 },
        y: Vec3 { x: a.sin, y: a.cos, z: 0 },
        z: Vec3 { x: 0, y: 0, z: ONE },
    }
}

/// One row of a matrix product: the row against each column of `b`,
/// rescaled to the `ONE` fixed-point scale.
pub open spec fn mat3_row_mul_spec(r: Vec3, b: Mat3) -> Vec3 {
    Vec3 {
        x: div_trunc(r.x * b.x.x + r.y * b.y.x + r.z * b.z.x, ONE as int) as i64,
        y: div_trunc(r.x * b.x.y + r.y * b.y.y + r.z * b.z.y, ONE as int) as i64,
        z: div_trunc(r.x * b.x.z + r.y * b.y.z + r.z * b.z.z, ONE as int) as i64,
    }
}

/// The matrix product `a * b`.
pub open spec fn mat3_mul_spec(a: Mat3, b: Mat3) -> Mat3 {
    Mat3 {
        x: mat3_row_mul_spec(a.x, b),
        y: mat3_row_mul_spec(a.y, b),
        z: mat3_row_mul_spec(a.z, b),
    }
}

/// Entry bounds carry through a matrix product:
/// `|a| <= ba` and `|b| <= bb` give `|a * b| <= 3 * ba * bb / ONE`.
pub proof fn lemma_mat3_mul_range(a: Mat3, b: Mat3, ba: int, bb: int, bound: int)
    requires
        a.in_range(ba),
        b.in_range(bb),
        0 <= ba,
        0 <= bb,
        0 <= bound,
        3 * (ba * bb) <= bound * ONE,
    ensures
        mat3_mul_spec(a, b).in_range(bound),
{
    lemma_mat3_row_mul_range(a.x, b, ba, bb, bound);
    lemma_mat3_row_mul_range(a.y, b, ba, bb, bound);
    lemma_mat3_row_mul_range(a.z, b, ba, bb, bound);
}

proof fn lemma_mat3_row_mul_range(r: Vec3, b: Mat3, ba: int, bb: int, bound: int)
    requires
        r.in_range(ba),
        b.in_range(bb),
        0 <= ba,
        0 <= bb,
        0 <= bound,
        3 * (ba * bb) <= bound * ONE,
    ensures
        mat3_row_mul_spec(r, b).in_range(bound),
{
    lemma_mul_mag(r.x as int, b.x.x as int, ba, bb);
    lemma_mul_mag(r.y as int, b.y.x as int, ba, bb);
    lemma_mul_mag(r.z as int, b.z.x as int, ba, bb);
    lemma_mul_mag(r.x as int, b.x.y as int, ba, bb);
    lemma_mul_mag(r.y as int, b.y.y as int, ba, bb);
    lemma_mul_mag(r.z as int, b.z.y as int, ba, bb);
    lemma_mul_mag(r.x as int, b.x.z as int, ba, bb);
    lemma_mul_mag(r.y as int, b.y.z as int, ba, bb);
    lemma_mul_mag(r.z as int, b.z.z as int, ba, bb);
    lemma_div_trunc_within(r.x * b.x.x + r.y * b.y.x + r.z * b.z.x, ONE as int, bound);
    lemma_div_trunc_within(r.x * b.x.y + r.y * b.y.y + r.z * b.z.y, ONE as int, bound);
    lemma_div_trunc_within(r.x * b.x.z + r.y * b.y.z + r.z * b.z.z, ONE as int, bound);
}

/// The matrix product `a * b`, for `ONE`-scaled rotation matrices.
pub fn mat3_mul(a: Mat3, b: Mat3) -> (r: Mat3)
    requires
        a.in_range(MAT_LIMIT as int),
        b.in_range(MAT_LIMIT as int),
    ensures
        r == mat3_mul_spec(a, b),
{
    let x = mat3_row_mul(a.x, b);
    let y = mat3_row_mul(a.y, b);
    let z = mat3_row_mul(a.z, b);
    Mat3 { x, y, z }
}

fn mat3_row_mul(r: Vec3, b: Mat3) -> (out: Vec3)
    requires
        r.in_range(MAT_LIMIT as int),
        b.in_range(MAT_LIMIT as int),
    ensures
        out == mat3_row_mul_spec(r, b),
{
    proof {
        lemma_mul_mag(r.x as int, b.x.x as int, MAT_LIMIT as int, MAT_LIMIT as int);
        lemma_mul_mag(r.y as int, b.y.x as int, MAT_LIMIT as int, MAT_LIMIT as int);
        lemma_mul_mag(r.z as int, b.z.x as int, MAT_LIMIT as int, MAT_LIMIT as int);
        lemma_mul_mag(r.x as int, b.x.y as int, MAT_LIMIT as int, MAT_LIMIT as int);
        lemma_mul_mag(r.y as int, b.y.y as int, MAT_LIMIT as int, MAT_LIMIT as int);
        lemma_mul_mag(r.z as int, b.z.y as int, MAT_LIMIT as int, MAT_LIMIT as int);
        lemma_mul_mag(r.x as int, b.x.z as int, MAT_LIMIT as int, MAT_LIMIT as int);
        lemma_mul_mag(r.y as int, b.y.z as int, MAT_LIMIT as int, MAT_LIMIT as int);
        lemma_mul_mag(r.z as int, b.z.z as int, MAT_LIMIT as int, MAT_LIMIT as int);
    }
    let x = div_trunc_i64(r.x * b.x.x + r.y * b.y.x + r.z * b.z.x, ONE);
    let y = div_trunc_i64(r.x * b.x.y + r.y * b.y.y + r.z * b.z.y, ONE);
    let z = div_trunc_i64(r.x * b.x.z + r.y * b.y.z + r.z * b.z.z, ONE);
    Vec3 { x, y, z }
}

/// The composed rotation for a triple of Euler angles, applied in the
/// fixed order X, then Y, then Z: `Rx * (Ry * Rz)`. This order is part of
/// the design; swapping it changes the orientation for any angle triple
/// that mixes axes.
pub open spec fn mat_rotation_spec(t: Euler) -> Mat3 {
    mat3_mul_spec(mat_rot_x_spec(t.x), mat3_mul_spec(mat_rot_y_spec(t.y), mat_rot_z_spec(t.z)))
}

pub fn mat_rotation(t: Euler) -> (r: Mat3)
    requires
        t.wf(),
    ensures
        r == mat_rotation_spec(t),
        r.in_range(MAT_LIMIT as int),
{
    let rx = mat_rot_x(t.x);
    let ry = mat_rot_y(t.y);
    let rz = mat_rot_z(t.z);
    proof {
        lemma_mat3_mul_range(ry, rz, ONE as int, ONE as int, 3 * ONE);
    }
    let yz = mat3_mul(ry, rz);
    proof {
        lemma_mat3_mul_range(rx, yz, ONE as int, 3 * ONE, MAT_LIMIT as int);
    }
    mat3_mul(rx, yz)
}

/// The product `m * v`, rescaled from the `ONE`-scaled matrix entries back
/// to the units of `v`.
pub open spec fn mat3xv3_mul_spec(m: Mat3, v: Vec3) -> Vec3 {
    Vec3 {
        x: div_trunc(vec3_dot_spec(m.x, v), ONE as int) as i64,
        y: div_trunc(vec3_dot_spec(m.y, v), ONE as int) as i64,
        z: div_trunc(vec3_dot_spec(m.z, v), ONE as int) as i64,
    }
}

/// Applies a rotation matrix to a vector.
pub fn mat3xv3_mul(m: Mat3, v: Vec3) -> (r: Vec3)
    requires
        m.in_range(MAT_LIMIT as int),
        v.in_range(4 * COORD_LIMIT as int),
    ensures
        r == mat3xv3_mul_spec(m, v),
        r.in_range(108 * COORD_LIMIT as int),
{
    proof {
        lemma_matvec_row(m.x, v);
        lemma_matvec_row(m.y, v);
        lemma_matvec_row(m.z, v);
        lemma_mul_mag(m.x.x as int, v.x as int, MAT_LIMIT as int, 4 * COORD_LIMIT as int);
        lemma_mul_mag(m.x.y as int, v.y as int, MAT_LIMIT as int, 4 * COORD_LIMIT as int);
        lemma_mul_mag(m.x.z as int, v.z as int, MAT_LIMIT as int, 4 * COORD_LIMIT as int);
        lemma_mul_mag(m.y.x as int, v.x as int, MAT_LIMIT as int, 4 * COORD_LIMIT as int);
        lemma_mul_mag(m.y.y as int, v.y as int, MAT_LIMIT as int, 4 * COORD_LIMIT as int);
        lemma_mul_mag(m.y.z as int, v.z as int, MAT_LIMIT as int, 4 * COORD_LIMIT as int);
        lemma_mul_mag(m.z.x as int, v.x as int, MAT_LIMIT as int, 4 * COORD_LIMIT as int);
        lemma_mul_mag(m.z.y as int, v.y as int, MAT_LIMIT as int, 4 * COORD_LIMIT as int);
        lemma_mul_mag(m.z.z as int, v.z as int, MAT_LIMIT as int, 4 * COORD_LIMIT as int);
    }
    let x = div_trunc_i64(m.x.x * v.x + m.x.y * v.y + m.x.z * v.z, ONE);
    let y = div_trunc_i64(m.y.x * v.x + m.y.y * v.y + m.y.z * v.z, ONE);
    let z = div_trunc_i64(m.z.x * v.x + m.z.y * v.y + m.z.z * v.z, ONE);
    Vec3 { x, y, z }
}

proof fn lemma_matvec_row(row: Vec3, v: Vec3)
    requires
        row.in_range(MAT_LIMIT as int),
        v.in_range(4 * COORD_LIMIT as int),
    ensures
        -108 * (COORD_LIMIT as int) * ONE <= vec3_dot_spec(row, v) <= 108 * (COORD_LIMIT as int)
            * ONE,
        -108 * (COORD_LIMIT as int) <= div_trunc(vec3_dot_spec(row, v), ONE as int) <= 108 * (
        COORD_LIMIT as int),
{
    lemma_mul_mag(row.x as int, v.x as int, MAT_LIMIT as int, 4 * COORD_LIMIT as int);
    lemma_mul_mag(row.y as int, v.y as int, MAT_LIMIT as int, 4 * COORD_LIMIT as int);
    lemma_mul_mag(row.z as int, v.z as int, MAT_LIMIT as int, 4 * COORD_LIMIT as int);
    assert(3 * ((MAT_LIMIT as int) * (4 * COORD_LIMIT as int)) == (108 * (COORD_LIMIT as int))
        * ONE) by (nonlinear_arith)
        requires
            MAT_LIMIT == 9_000_000,
            COORD_LIMIT == 1_000_000_000,
            ONE == 1_000_000,
    ;
    lemma_div_trunc_within(vec3_dot_spec(row, v), ONE as int, 108 * COORD_LIMIT as int);
}

/// `matrix * (point - pivot) + pivot`: rotates `point` about `pivot`.
pub open spec fn rotate_around_spec(point: Vec3, matrix: Mat3, pivot: Vec3) -> Vec3 {
    vec3_add_spec(mat3xv3_mul_spec(matrix, vec3_sub_spec(point, pivot)), pivot)
}

/// The rotation matrix for the identity angles is the identity matrix.
pub proof fn lemma_rotation_identity_matrix()
    ensures
        mat_rotation_spec(Euler::identity_spec()) == (Mat3 {
            x: Vec3 { x: ONE, y: 0, z: 0 },
            y: Vec3 { x: 0, y: ONE, z: 0 },
            z: Vec3 { x: 0, y: 0, z: ONE },
        }),
{
    let a = Angle::identity_spec();
    lemma_div_trunc_exact(ONE as int, ONE as int);
    lemma_div_trunc_exact(0, ONE as int);
    assert(mat_rot_x_spec(a) == (Mat3 {
        x: Vec3 { x: ONE, y: 0, z: 0 },
        y: Vec3 { x: 0, y: ONE, z: 0 },
        z: Vec3 { x: 0, y: 0, z: ONE },
    }));
    assert(ONE * ONE == ONE as int * ONE);
}

/// Law: rotating any point by the identity angles, about any pivot,
/// leaves it exactly where it was.
pub proof fn lemma_rotate_identity(point: Vec3, pivot: Vec3)
    requires
        point.in_range(COORD_LIMIT as int),
        pivot.in_range(COORD_LIMIT as int),
    ensures
        rotate_around_spec(point, mat_rotation_spec(Euler::identity_spec()), pivot) == point,
{
    lemma_rotation_identity_matrix();
    let d = vec3_sub_spec(point, pivot);
    lemma_div_trunc_exact(d.x as int, ONE as int);
    lemma_div_trunc_exact(d.y as int, ONE as int);
    lemma_div_trunc_exact(d.z as int, ONE as int);
    assert(ONE * d.x == d.x * ONE && ONE * d.y == d.y * ONE && ONE * d.z == d.z
        * ONE) by (nonlinear_arith);
    assert(mat3xv3_mul_spec(mat_rotation_spec(Euler::identity_spec()), d) == d);
}

pub fn vec3_rotate_around(point: Vec3, matrix: Mat3, pivot: Vec3) -> (r: Vec3)
    requires
        matrix.in_range(MAT_LIMIT as int),
        point.in_range(COORD_LIMIT as int),
        pivot.in_range(COORD_LIMIT as int),
    ensures
        r == rotate_around_spec(point, matrix, pivot),
        r.in_range(109 * COORD_LIMIT as int),
{
    let d = vec3_sub(point, pivot);
    let t = mat3xv3_mul(matrix, d);
    vec3_add(t, pivot)
}

} // verus!
