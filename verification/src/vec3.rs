use vstd::prelude::*;
use crate::fixed::{
    mulf, trunc_div, sqrt_floor, is_sqrt_floor, mul_fx, wide_mul, tdiv, isqrt,
    lemma_trunc_div_bounds, lemma_sqrt_floor_exists, SCALE, COMP_MAX,
};
use vstd::arithmetic::div_mod::lemma_div_basics_5;

verus! {

/// Mathematical model of a vector: three unbounded fixed-point
/// components (raw units, `SCALE` per world unit).
pub ghost struct V3 {
    pub x: int,
    pub y: int,
    pub z: int,
}

impl V3 {
    /// Every component lies in `[-b, b]`.
    pub open spec fn bounded(self, b: int) -> bool {
        &&& -b <= self.x <= b
        &&& -b <= self.y <= b
        &&& -b <= self.z <= b
    }
}

pub open spec fn v_zero() -> V3 {
    V3 { x: 0, y: 0, z: 0 }
}

pub open spec fn v_add(a: V3, b: V3) -> V3 {
    V3 { x: a.x + b.x, y: a.y + b.y, z: a.z + b.z }
}

pub open spec fn v_sub(a: V3, b: V3) -> V3 {
    V3 { x: a.x - b.x, y: a.y - b.y, z: a.z - b.z }
}

pub open spec fn v_neg(a: V3) -> V3 {
    V3 { x: -a.x, y: -a.y, z: -a.z }
}

/// Scale every component by the fixed-point factor `k`.
pub open spec fn v_scale(a: V3, k: int) -> V3 {
    V3 { x: mulf(a.x, k), y: mulf(a.y, k), z: mulf(a.z, k) }
}

/// Fixed-point dot product: the wide sum of products, rescaled once.
pub open spec fn v_dot(a: V3, b: V3) -> int {
    trunc_div(a.x * b.x + a.y * b.y + a.z * b.z, SCALE as int)
}

/// Fixed-point cross product, each component rescaled once.
pub open spec fn v_cross(a: V3, b: V3) -> V3 {
    V3 {
        x: trunc_div(a.y * b.z - a.z * b.y, SCALE as int),
        y: trunc_div(a.z * b.x - a.x * b.z, SCALE as int),
        z: trunc_div(a.x * b.y - a.y * b.x, SCALE as int),
    }
}

/// Squared magnitude, a fixed-point scalar.
pub open spec fn v_mag2(a: V3) -> int {
    v_dot(a, a)
}

/// Magnitude: the square root of the squared magnitude, brought back
/// to fixed-point scale.
pub open spec fn v_mag(a: V3) -> int {
    sqrt_floor(v_mag2(a) * SCALE)
}

/// Direction of `a` with magnitude one; the zero vector when the
/// magnitude rounds to zero.
pub open spec fn v_unit(a: V3) -> V3 {
    let m = v_mag(a);
    if m == 0 {
        v_zero()
    } else {
        V3 {
            x: trunc_div(a.x * SCALE, m),
            y: trunc_div(a.y * SCALE, m),
            z: trunc_div(a.z * SCALE, m),
        }
    }
}

/// The componentwise sums of `a` and `b` stay inside `i64`.
pub open spec fn sum_fits(a: V3, b: V3) -> bool {
    &&& i64::MIN <= a.x + b.x <= i64::MAX
    &&& i64::MIN <= a.y + b.y <= i64::MAX
    &&& i64::MIN <= a.z + b.z <= i64::MAX
}

/// The componentwise differences of `a` and `b` stay inside `i64`.
pub open spec fn diff_fits(a: V3, b: V3) -> bool {
    &&& i64::MIN <= a.x - b.x <= i64::MAX
    &&& i64::MIN <= a.y - b.y <= i64::MAX
    &&& i64::MIN <= a.z - b.z <= i64::MAX
}

/// A fixed-point product of values below `ma` and `mb` lies within
/// `ma * mb / SCALE`.
pub proof fn lemma_mulf_bound(a: int, b: int, ma: int, mb: int)
    requires
        0 <= ma,
        0 <= mb,
        -ma <= a <= ma,
        -mb <= b <= mb,
    ensures
        -(ma * mb / SCALE as int) <= mulf(a, b) <= ma * mb / SCALE as int,
{
    assert(-(ma * mb) <= a * b <= ma * mb) by (nonlinear_arith)
        requires
            0 <= ma,
            0 <= mb,
            -ma <= a <= ma,
            -mb <= b <= mb,
    ;
    assert(0 <= ma * mb) by (nonlinear_arith)
        requires
            0 <= ma,
            0 <= mb,
    ;
    lemma_trunc_div_bounds(a * b, SCALE as int, ma * mb);
}

/// A dot product of vectors bounded by `m` lies within `3 m^2 / SCALE`.
pub proof fn lemma_v_dot_bound(a: V3, b: V3, m: int)
    requires
        0 <= m,
        a.bounded(m),
        b.bounded(m),
    ensures
        -(3 * m * m / SCALE as int) <= v_dot(a, b) <= 3 * m * m / SCALE as int,
{
    assert(-(3 * m * m) <= a.x * b.x + a.y * b.y + a.z * b.z <= 3 * m * m
        && 0 <= 3 * m * m) by (nonlinear_arith)
        requires
            0 <= m,
            a.bounded(m),
            b.bounded(m),
    ;
    lemma_trunc_div_bounds(a.x * b.x + a.y * b.y + a.z * b.z, SCALE as int, 3 * m * m);
}

/// A squared magnitude is never negative.
pub proof fn lemma_v_mag2_nonneg(a: V3)
    ensures
        v_mag2(a) >= 0,
{
    assert(a.x * a.x + a.y * a.y + a.z * a.z >= 0) by (nonlinear_arith);
    lemma_trunc_div_bounds(
        a.x * a.x + a.y * a.y + a.z * a.z,
        SCALE as int,
        a.x * a.x + a.y * a.y + a.z * a.z,
    );
}

/// A cross product of vectors bounded by `m` lies within `2 m^2 / SCALE`.
pub proof fn lemma_v_cross_bound(a: V3, b: V3, m: int)
    requires
        0 <= m,
        a.bounded(m),
        b.bounded(m),
    ensures
        v_cross(a, b).bounded(2 * m * m / SCALE as int),
{
    assert((-(2 * m * m) <= a.y * b.z - a.z * b.y <= 2 * m * m)
        && (-(2 * m * m) <= a.z * b.x - a.x * b.z <= 2 * m * m)
        && (-(2 * m * m) <= a.x * b.y - a.y * b.x <= 2 * m * m)
        && 0 <= 2 * m * m) by (nonlinear_arith)
        requires
            0 <= m,
            a.bounded(m),
            b.bounded(m),
    ;
    lemma_trunc_div_bounds(a.y * b.z - a.z * b.y, SCALE as int, 2 * m * m);
    lemma_trunc_div_bounds(a.z * b.x - a.x * b.z, SCALE as int, 2 * m * m);
    lemma_trunc_div_bounds(a.x * b.y - a.y * b.x, SCALE as int, 2 * m * m);
}

/// A scaled vector with components below `ma` and factor below `mk`
/// stays within `ma * mk / SCALE`.
pub proof fn lemma_v_scale_bound(a: V3, k: int, ma: int, mk: int)
    requires
        0 <= ma,
        0 <= mk,
        a.bounded(ma),
        -mk <= k <= mk,
    ensures
        v_scale(a, k).bounded(ma * mk / SCALE as int),
{
    lemma_mulf_bound(a.x, k, ma, mk);
    lemma_mulf_bound(a.y, k, ma, mk);
    lemma_mulf_bound(a.z, k, ma, mk);
}

/// A magnitude is a meaningful (nonnegative) square root.
pub proof fn lemma_v_mag_nonneg(a: V3)
    ensures
        v_mag(a) >= 0,
        is_sqrt_floor(v_mag2(a) * SCALE as int, v_mag(a)),
{
    lemma_v_mag2_nonneg(a);
    assert(v_mag2(a) * SCALE as int >= 0) by (nonlinear_arith)
        requires
            v_mag2(a) >= 0,
    ;
    lemma_sqrt_floor_exists(v_mag2(a) * SCALE as int);
}

/// The components of a unit vector stay inside the fixed-point range.
pub proof fn lemma_v_unit_bound(a: V3)
    requires
        a.bounded(COMP_MAX as int),
    ensures
        v_unit(a).bounded(COMP_MAX as int * SCALE as int),
{
    lemma_v_mag_nonneg(a);
    let m = v_mag(a);
    let bb = COMP_MAX as int * SCALE as int;
    if m != 0 {
        lemma_trunc_div_bounds(a.x * SCALE as int, m, bb);
        lemma_trunc_div_bounds(a.y * SCALE as int, m, bb);
        lemma_trunc_div_bounds(a.z * SCALE as int, m, bb);
        lemma_div_basics_5(bb, m);
    }
}

/// Negating one side of a dot product negates the result exactly
/// (truncation rounds toward zero, an odd rounding).
pub proof fn lemma_v_dot_neg(a: V3, b: V3)
    ensures
        v_dot(a, v_neg(b)) == -v_dot(a, b),
{
    assert(a.x * (-b.x) + a.y * (-b.y) + a.z * (-b.z)
        == -(a.x * b.x + a.y * b.y + a.z * b.z)) by (nonlinear_arith);
}

/// A point or direction: three fixed-point components.
#[derive(Clone, Copy, PartialEq, Eq, Structural, Debug)]
pub struct Vec3 {
    pub x: i64,
    pub y: i64,
    pub z: i64,
}

impl View for Vec3 {
    type V = V3;

    open spec fn view(&self) -> V3 {
        V3 { x: self.x as int, y: self.y as int, z: self.z as int }
    }
}

impl Vec3 {
    pub fn new(x: i64, y: i64, z: i64) -> (r: Vec3)
        ensures
            r@ == (V3 { x: x as int, y: y as int, z: z as int }),
    {
        Vec3 { x, y, z }
    }

    pub fn add(&self, o: &Vec3) -> (r: Vec3)
        requires
            sum_fits(self@, o@),
        ensures
            r@ == v_add(self@, o@),
    {
        Vec3 { x: self.x + o.x, y: self.y + o.y, z: self.z + o.z }
    }

    pub fn sub(&self, o: &Vec3) -> (r: Vec3)
        requires
            diff_fits(self@, o@),
        ensures
            r@ == v_sub(self@, o@),
    {
        Vec3 { x: self.x - o.x, y: self.y - o.y, z: self.z - o.z }
    }

    pub fn neg(&self) -> (r: Vec3)
        requires
            self@.bounded(i64::MAX as int),
        ensures
            r@ == v_neg(self@),
    {
        Vec3 { x: -self.x, y: -self.y, z: -self.z }
    }

    /// Scale by a fixed-point factor.
    pub fn scale(&self, k: i64) -> (r: Vec3)
        requires
            self@.bounded(COMP_MAX as int),
            -COMP_MAX <= k <= COMP_MAX,
        ensures
            r@ == v_scale(self@, k as int),
    {
        proof {
            lemma_mulf_bound(self@.x, k as int, COMP_MAX as int, COMP_MAX as int);
            lemma_mulf_bound(self@.y, k as int, COMP_MAX as int, COMP_MAX as int);
            lemma_mulf_bound(self@.z, k as int, COMP_MAX as int, COMP_MAX as int);
        }
        Vec3 { x: mul_fx(self.x, k), y: mul_fx(self.y, k), z: mul_fx(self.z, k) }
    }

    pub fn dot(&self, o: &Vec3) -> (r: i64)
        requires
            self@.bounded(COMP_MAX as int),
            o@.bounded(COMP_MAX as int),
        ensures
            r == v_dot(self@, o@),
    {
        let px = wide_mul(self.x, o.x);
        let py = wide_mul(self.y, o.y);
        let pz = wide_mul(self.z, o.z);
        proof {
            lemma_v_dot_bound(self@, o@, COMP_MAX as int);
            assert(-(COMP_MAX as int * COMP_MAX as int) <= self@.x * o@.x
                <= COMP_MAX as int * COMP_MAX as int
                && -(COMP_MAX as int * COMP_MAX as int) <= self@.y * o@.y
                    <= COMP_MAX as int * COMP_MAX as int
                && -(COMP_MAX as int * COMP_MAX as int) <= self@.z * o@.z
                    <= COMP_MAX as int * COMP_MAX as int) by (nonlinear_arith)
                requires
                    self@.bounded(COMP_MAX as int),
                    o@.bounded(COMP_MAX as int),
            ;
        }
        let q = tdiv(px + py + pz, SCALE as i128);
        q as i64
    }

    pub fn cross(&self, o: &Vec3) -> (r: Vec3)
        requires
            self@.bounded(COMP_MAX as int),
            o@.bounded(COMP_MAX as int),
        ensures
            r@ == v_cross(self@, o@),
    {
        proof {
            lemma_v_cross_bound(self@, o@, COMP_MAX as int);
            assert((-(COMP_MAX as int * COMP_MAX as int) <= self@.y * o@.z
                <= COMP_MAX as int * COMP_MAX as int)
                && (-(COMP_MAX as int * COMP_MAX as int) <= self@.z * o@.y
                    <= COMP_MAX as int * COMP_MAX as int)
                && (-(COMP_MAX as int * COMP_MAX as int) <= self@.z * o@.x
                    <= COMP_MAX as int * COMP_MAX as int)
                && (-(COMP_MAX as int * COMP_MAX as int) <= self@.x * o@.z
                    <= COMP_MAX as int * COMP_MAX as int)
                && (-(COMP_MAX as int * COMP_MAX as int) <= self@.x * o@.y
                    <= COMP_MAX as int * COMP_MAX as int)
                && (-(COMP_MAX as int * COMP_MAX as int) <= self@.y * o@.x
                    <= COMP_MAX as int * COMP_MAX as int)) by (nonlinear_arith)
                requires
                    self@.bounded(COMP_MAX as int),
                    o@.bounded(COMP_MAX as int),
            ;
        }
        let cx = tdiv(wide_mul(self.y, o.z) - wide_mul(self.z, o.y), SCALE as i128);
        let cy = tdiv(wide_mul(self.z, o.x) - wide_mul(self.x, o.z), SCALE as i128);
        let cz = tdiv(wide_mul(self.x, o.y) - wide_mul(self.y, o.x), SCALE as i128);
        Vec3 { x: cx as i64, y: cy as i64, z: cz as i64 }
    }

    pub fn magnitude_squared(&self) -> (r: i64)
        requires
            self@.bounded(COMP_MAX as int),
        ensures
            r == v_mag2(self@),
            r >= 0,
    {
        proof {
            lemma_v_mag2_nonneg(self@);
        }
        self.dot(self)
    }

    pub fn magnitude(&self) -> (r: i64)
        requires
            self@.bounded(COMP_MAX as int),
        ensures
            r == v_mag(self@),
            r >= 0,
    {
        let m2 = self.magnitude_squared();
        let w: u128 = (m2 as u128) * (SCALE as u128);
        proof {
            assert(m2 as int * SCALE as int <= 0x8000_0000_0000_0000 * 0x1_0000)
                by (nonlinear_arith)
                requires
                    0 <= m2 as int <= 0x8000_0000_0000_0000,
            ;
        }
        let r = isqrt(w);
        proof {
            assert(r as int <= 0x1_0000_0000_0000) by (nonlinear_arith)
                requires
                    is_sqrt_floor(w as int, r as int),
                    w as int <= 0x8000_0000_0000_0000 * 0x1_0000,
            ;
        }
        r as i64
    }

    /// The unit vector in this direction; the zero vector when the
    /// magnitude rounds to zero.
    pub fn unit(&self) -> (r: Vec3)
        requires
            self@.bounded(COMP_MAX as int),
        ensures
            r@ == v_unit(self@),
    {
        let m = self.magnitude();
        if m == 0 {
            Vec3 { x: 0, y: 0, z: 0 }
        } else {
            proof {
                lemma_trunc_div_bounds(self@.x * SCALE as int, m as int,
                    COMP_MAX as int * SCALE as int);
                lemma_trunc_div_bounds(self@.y * SCALE as int, m as int,
                    COMP_MAX as int * SCALE as int);
                lemma_trunc_div_bounds(self@.z * SCALE as int, m as int,
                    COMP_MAX as int * SCALE as int);
                assert(-(COMP_MAX as int * SCALE as int) <= self@.x * SCALE as int
                    <= COMP_MAX as int * SCALE as int
                    && -(COMP_MAX as int * SCALE as int) <= self@.y * SCALE as int
                        <= COMP_MAX as int * SCALE as int
                    && -(COMP_MAX as int * SCALE as int) <= self@.z * SCALE as int
                        <= COMP_MAX as int * SCALE as int) by (nonlinear_arith)
                    requires
                        self@.bounded(COMP_MAX as int),
                ;
            }
            let ux = tdiv(wide_mul(self.x, SCALE), m as i128);
            let uy = tdiv(wide_mul(self.y, SCALE), m as i128);
            let uz = tdiv(wide_mul(self.z, SCALE), m as i128);
            Vec3 { x: ux as i64, y: uy as i64, z: uz as i64 }
        }
    }
}

/// A half-line: all points `origin + t * direction` for `t >= 0`.
#[derive(Clone, Copy, PartialEq, Eq, Structural, Debug)]
pub struct Ray {
    pub origin: Vec3,
    pub dir: Vec3,
}

/// Mathematical model of a ray.
pub ghost struct RayV {
    pub origin: V3,
    pub dir: V3,
}

impl View for Ray {
    type V = RayV;

    open spec fn view(&self) -> RayV {
        RayV { origin: self.origin@, dir: self.dir@ }
    }
}

/// Largest magnitude of a hit point's components; hits farther out are
/// beyond the render horizon and treated as misses.
pub const POINT_MAX: i64 = 0x4_0000_0000;

/// Largest magnitude of a ray direction's components.
pub const DIR_MAX: i64 = 0x10_0000_0000;

impl RayV {
    /// A ray the renderer works on: origin within the render horizon,
    /// direction within the fixed-point range.
    pub open spec fn wf(self) -> bool {
        &&& self.origin.bounded(POINT_MAX as int)
        &&& self.dir.bounded(DIR_MAX as int)
    }
}

/// The point at parameter `t` along the ray.
pub open spec fn v_at(r: RayV, t: int) -> V3 {
    v_add(r.origin, v_scale(r.dir, t))
}

impl Ray {
    pub fn new(origin: Vec3, dir: Vec3) -> (r: Ray)
        ensures
            r@ == (RayV { origin: origin@, dir: dir@ }),
    {
        Ray { origin, dir }
    }

    /// The point at parameter `t` along the ray.
    pub fn at(&self, t: i64) -> (p: Vec3)
        requires
            self.origin@.bounded(COMP_MAX as int),
            self.dir@.bounded(COMP_MAX as int),
            -COMP_MAX <= t <= COMP_MAX,
        ensures
            p@ == v_at(self@, t as int),
    {
        let s = self.dir.scale(t);
        proof {
            lemma_v_scale_bound(self.dir@, t as int, COMP_MAX as int, COMP_MAX as int);
        }
        self.origin.add(&s)
    }
}

} // verus!
