use vstd::prelude::*;
use crate::fixed::{
    mulf, trunc_div, sqrt_floor, is_sqrt_floor, mul_fx, wide_mul, tdiv, isqrt,
    lemma_sqrt_floor_exists, lemma_trunc_div_sign, SCALE, HALF,
};
use crate::vec3::{
    Vec3, V3, Ray, RayV, v_add, v_sub, v_neg, v_dot, v_mag2, v_at, v_scale,
    lemma_v_dot_bound, lemma_v_mag2_nonneg, lemma_v_dot_neg, lemma_mulf_bound,
    POINT_MAX, DIR_MAX,
};
use crate::fixed::lemma_mulf_unit;
use crate::sampling::{unit_sphere, in_unit_ball};

verus! {

/// Largest magnitude of a sphere center's components.
pub const CENTER_MAX: i64 = 0x4000_0000;

/// Largest sphere radius.
pub const RADIUS_MAX: i64 = 0x4000_0000;

/// Largest accepted hit parameter; an intersection farther along the
/// ray lies beyond the render horizon and counts as a miss.
pub const T_CAP: i64 = 0x20_0000_0000;

/// Largest magnitude of a hit normal's components: a hit point minus a
/// sphere center.
pub const NORMAL_MAX: i64 = 0x4_4000_0000;

/// A surface response, paired with one geometry in a scene.
#[derive(Clone, Copy, PartialEq, Eq, Structural, Debug)]
pub enum Material {
    /// A diffuse surface with the given albedo color.
    Diffuse(Vec3),
}

impl Material {
    /// Color channels are fixed-point values in `[0, 1]`.
    pub open spec fn wf(self) -> bool {
        match self {
            Material::Diffuse(c) => {
                &&& 0 <= c@.x <= SCALE
                &&& 0 <= c@.y <= SCALE
                &&& 0 <= c@.z <= SCALE
            },
        }
    }

    /// The base reflective color.
    pub open spec fn spec_color(self) -> V3 {
        match self {
            Material::Diffuse(c) => c@,
        }
    }

    /// How much radiance survives one bounce, a fixed-point factor
    /// in `[0, 1]`.
    pub open spec fn spec_bounce(self) -> int {
        match self {
            Material::Diffuse(_) => HALF as int,
        }
    }

    pub fn color(&self) -> (r: Vec3)
        ensures
            r@ == self.spec_color(),
    {
        match self {
            Material::Diffuse(c) => *c,
        }
    }

    /// The bounce attenuation factor.
    pub fn bounce(&self) -> (r: i64)
        ensures
            r == self.spec_bounce(),
            0 <= r <= SCALE,
    {
        match self {
            Material::Diffuse(_) => HALF,
        }
    }
}

/// A color whose channels all lie in `[0, 1]`.
pub open spec fn color_in_unit(v: V3) -> bool {
    &&& 0 <= v.x <= SCALE
    &&& 0 <= v.y <= SCALE
    &&& 0 <= v.z <= SCALE
}

impl Material {
    /// Scale a color by this material's bounce attenuation.
    pub fn attenuate(&self, c: &Vec3) -> (r: Vec3)
        requires
            color_in_unit(c@),
        ensures
            r@ == v_scale(c@, self.spec_bounce()),
            color_in_unit(r@),
    {
        let a = self.bounce();
        proof {
            lemma_mulf_unit(c@.x, a as int);
            lemma_mulf_unit(c@.y, a as int);
            lemma_mulf_unit(c@.z, a as int);
        }
        Vec3::new(mul_fx(c.x, a), mul_fx(c.y, a), mul_fx(c.z, a))
    }
}

/// A shape a ray can strike.
#[derive(Clone, Copy, PartialEq, Eq, Structural, Debug)]
pub enum Geometry {
    /// A sphere given by center and radius.
    Sphere(Vec3, i64),
}

impl Geometry {
    /// Center and radius lie within the fixed-point range the
    /// intersection arithmetic accepts.
    pub open spec fn wf(self) -> bool {
        match self {
            Geometry::Sphere(c, r) => {
                &&& c@.bounded(CENTER_MAX as int)
                &&& 0 <= r <= RADIUS_MAX
            },
        }
    }
}

/// One ray-surface intersection: where the ray struck, the shading
/// normal (flipped to face the incoming ray), whether the ray came from
/// outside, the ray parameter of the strike, and the surface material.
#[derive(Clone, Copy, Debug)]
pub struct Hit {
    pub point: Vec3,
    pub normal: Vec3,
    pub front: bool,
    pub t: i64,
    pub material: Material,
}

/// Mathematical model of a hit.
pub ghost struct HitV {
    pub point: V3,
    pub normal: V3,
    pub front: bool,
    pub t: int,
    pub material: Material,
}

impl View for Hit {
    type V = HitV;

    open spec fn view(&self) -> HitV {
        HitV {
            point: self.point@,
            normal: self.normal@,
            front: self.front,
            t: self.t as int,
            material: self.material,
        }
    }
}

impl HitV {
    /// Bounds every accepted hit satisfies, and the guarantee that the
    /// shading normal faces the incoming ray.
    pub open spec fn wf(self, ray: RayV) -> bool {
        &&& self.point.bounded(POINT_MAX as int)
        &&& self.normal.bounded(NORMAL_MAX as int)
        &&& 0 < self.t <= T_CAP
        &&& v_dot(ray.dir, self.normal) <= 0
    }
}

impl Hit {
    /// A ray standing at the hit point, pointing along the shading
    /// normal.
    pub fn ray(&self) -> (r: Ray)
        requires
            self@.point.bounded(POINT_MAX as int),
            self@.normal.bounded(NORMAL_MAX as int),
        ensures
            r@ == (RayV { origin: self@.point, dir: self@.normal }),
            r@.wf(),
    {
        Ray { origin: self.point, dir: self.normal }
    }

    /// The diffuse bounce ray: it starts at the hit point and scatters
    /// along the shading normal displaced by a random point inside the
    /// unit ball.
    pub fn bounce(&self) -> (r: Ray)
        requires
            self@.point.bounded(POINT_MAX as int),
            self@.normal.bounded(NORMAL_MAX as int),
        ensures
            r@.origin == self@.point,
            r@.wf(),
            exists|b: V3| in_unit_ball(b) && r@.dir == v_add(self@.normal, b),
    {
        let b = unit_sphere();
        let dir = self.normal.add(&b);
        proof {
            assert(in_unit_ball(b@) && dir@ == v_add(self@.normal, b@));
        }
        Ray { origin: self.point, dir }
    }
}

/// The intersection of a ray with a sphere: the near root of the
/// quadratic `|O + tD - C|^2 = r^2`, accepted only when it lies in
/// front of the ray origin and within the render horizon. The outward
/// normal is `point - center`; the shading normal is flipped to face
/// the incoming ray, with `front` recording the raw orientation.
pub open spec fn sphere_hit(center: V3, radius: int, material: Material, ray: RayV) -> Option<
    HitV,
> {
    let oc = v_sub(ray.origin, center);
    let a = v_dot(ray.dir, ray.dir);
    let half_b = v_dot(oc, ray.dir);
    let c = v_mag2(oc) - mulf(radius, radius);
    let disc = half_b * half_b - a * c;
    if a <= 0 || disc < 0 {
        None
    } else {
        let t = trunc_div((-half_b - sqrt_floor(disc)) * SCALE as int, a);
        if t <= 0 || t > T_CAP {
            None
        } else {
            let point = v_at(ray, t);
            if !point.bounded(POINT_MAX as int) {
                None
            } else {
                let outward = v_sub(point, center);
                let front = v_dot(ray.dir, outward) < 0;
                let normal = if front {
                    outward
                } else {
                    v_neg(outward)
                };
                Some(HitV { point, normal, front, t, material })
            }
        }
    }
}

/// The intersection of a ray with any geometry variant.
pub open spec fn geom_hit(g: Geometry, material: Material, ray: RayV) -> Option<HitV> {
    match g {
        Geometry::Sphere(c, r) => sphere_hit(c@, r as int, material, ray),
    }
}

/// The model of an optional hit.
pub open spec fn opt_hit_view(o: Option<Hit>) -> Option<HitV> {
    match o {
        Some(h) => Some(h@),
        None => None,
    }
}

/// A ray that points away from the sphere's center from its origin
/// onward (`dot(origin - center, dir) >= 0`) is never accepted as a
/// hit: the near root lies at or behind the origin. In particular a
/// bounce ray cast from a front-face hit point along its outward
/// normal cannot strike the same sphere again at its base.
pub proof fn lemma_no_self_intersection(center: V3, radius: int, material: Material, ray: RayV)
    requires
        v_dot(v_sub(ray.origin, center), ray.dir) >= 0,
    ensures
        sphere_hit(center, radius, material, ray) is None,
{
    let oc = v_sub(ray.origin, center);
    let a = v_dot(ray.dir, ray.dir);
    let half_b = v_dot(oc, ray.dir);
    let c = v_mag2(oc) - mulf(radius, radius);
    let disc = half_b * half_b - a * c;
    if a <= 0 || disc < 0 {
    } else {
        lemma_sqrt_floor_exists(disc);
        let s = sqrt_floor(disc);
        let num = -half_b - s;
        assert(num <= 0);
        assert(num * SCALE as int <= 0) by (nonlinear_arith)
            requires
                num <= 0,
        ;
        lemma_trunc_div_sign(num * SCALE as int, a);
        assert(trunc_div(num * SCALE as int, a) <= 0);
    }
}

/// Front/back consistency: the shading normal of any accepted hit
/// faces the incoming ray, so `dot(ray.dir, normal) <= 0` always holds.
pub proof fn lemma_hit_normal_faces_ray(center: V3, radius: int, material: Material, ray: RayV)
    ensures
        sphere_hit(center, radius, material, ray) matches Some(h) ==> v_dot(ray.dir, h.normal)
            <= 0,
{
    let oc = v_sub(ray.origin, center);
    let a = v_dot(ray.dir, ray.dir);
    let half_b = v_dot(oc, ray.dir);
    let c = v_mag2(oc) - mulf(radius, radius);
    let disc = half_b * half_b - a * c;
    if a <= 0 || disc < 0 {
    } else {
        let t = trunc_div((-half_b - sqrt_floor(disc)) * SCALE as int, a);
        if t <= 0 || t > T_CAP {
        } else {
            let point = v_at(ray, t);
            if !point.bounded(POINT_MAX as int) {
            } else {
                let outward = v_sub(point, center);
                if v_dot(ray.dir, outward) < 0 {
                } else {
                    lemma_v_dot_neg(ray.dir, outward);
                }
            }
        }
    }
}

/// No surface acne: a ray cast from a front-face hit point along that
/// hit's own shading normal never strikes the same sphere again, not
/// even at a tiny parameter.
pub proof fn lemma_bounce_ray_misses_surface(
    center: V3,
    radius: int,
    material: Material,
    h: HitV,
)
    requires
        h.front,
        h.normal == v_sub(h.point, center),
    ensures
        sphere_hit(center, radius, material, RayV { origin: h.point, dir: h.normal })
            is None,
{
    let ray = RayV { origin: h.point, dir: h.normal };
    lemma_v_mag2_nonneg(h.normal);
    assert(v_dot(v_sub(ray.origin, center), ray.dir) >= 0);
    lemma_no_self_intersection(center, radius, material, ray);
}

impl Geometry {
    /// Test this geometry against a ray. Returns the nearest
    /// intersection in front of the ray origin, or `None`.
    pub fn hit(&self, ray: &Ray, material: &Material) -> (result: Option<Hit>)
        requires
            self.wf(),
            ray@.wf(),
        ensures
            opt_hit_view(result) == geom_hit(*self, *material, ray@),
            result matches Some(h) ==> h@.wf(ray@) && h@.material == *material,
    {
        match self {
            Geometry::Sphere(center, radius) => {
                let oc = ray.origin.sub(center);
                let a = ray.dir.dot(&ray.dir);
                let half_b = oc.dot(&ray.dir);
                proof {
                    lemma_v_mag2_nonneg(ray@.dir);
                    lemma_v_mag2_nonneg(oc@);
                    lemma_v_dot_bound(ray@.dir, ray@.dir, DIR_MAX as int);
                    lemma_v_dot_bound(oc@, ray@.dir, DIR_MAX as int);
                    lemma_v_dot_bound(oc@, oc@, DIR_MAX as int);
                    lemma_mulf_bound(*radius as int, *radius as int, RADIUS_MAX as int,
                        RADIUS_MAX as int);
                }
                let r2 = mul_fx(*radius, *radius);
                let m2 = oc.magnitude_squared();
                let c = m2 - r2;
                let hb2 = wide_mul(half_b, half_b);
                let ac = wide_mul(a, c);
                proof {
                    assert(-0x300_0000_0000_0000 <= half_b as int <= 0x300_0000_0000_0000);
                    assert(0 <= a as int <= 0x300_0000_0000_0000);
                    assert(-0x400_0000_0000_0000 <= c as int <= 0x400_0000_0000_0000);
                    assert(0 <= hb2 as int <= 0x9_0000_0000_0000_0000_0000_0000_0000)
                        by (nonlinear_arith)
                        requires
                            -0x300_0000_0000_0000 <= half_b as int <= 0x300_0000_0000_0000,
                            hb2 as int == half_b as int * half_b as int,
                    ;
                    assert(-0xC_0000_0000_0000_0000_0000_0000_0000 <= ac as int
                        <= 0xC_0000_0000_0000_0000_0000_0000_0000) by (nonlinear_arith)
                        requires
                            0 <= a as int <= 0x300_0000_0000_0000,
                            -0x400_0000_0000_0000 <= c as int <= 0x400_0000_0000_0000,
                            ac as int == a as int * c as int,
                    ;
                }
                let disc = hb2 - ac;
                if a <= 0 || disc < 0 {
                    None
                } else {
                    let sq = isqrt(disc as u128);
                    proof {
                        assert(sq as int * sq as int <= disc as int);
                        assert(sq as int <= 0x1000_0000_0000_0000) by (nonlinear_arith)
                            requires
                                0 <= sq as int,
                                sq as int * sq as int <= disc as int,
                                disc as int <= 0x15_0000_0000_0000_0000_0000_0000_0000,
                                0x15_0000_0000_0000_0000_0000_0000_0000
                                    <= 0x1000_0000_0000_0000 * 0x1000_0000_0000_0000,
                        ;
                    }
                    let num: i128 = -(half_b as i128) - (sq as i128);
                    proof {
                        assert(-0x1300_0000_0000_0000 <= num as int <= 0x1300_0000_0000_0000);
                        assert(-0x1300_0000_0000_0000_0000 <= num as int * SCALE as int
                            <= 0x1300_0000_0000_0000_0000) by (nonlinear_arith)
                            requires
                                -0x1300_0000_0000_0000 <= num as int <= 0x1300_0000_0000_0000,
                        ;
                    }
                    let t128 = tdiv(num * (SCALE as i128), a as i128);
                    proof {
                        assert(sq as int == sqrt_floor(disc as int));
                        assert(num as int == -(half_b as int) - sqrt_floor(disc as int));
                    }
                    if t128 <= 0 || t128 > T_CAP as i128 {
                        None
                    } else {
                        let t = t128 as i64;
                        let point = ray.at(t);
                        if point.x > POINT_MAX || point.x < -POINT_MAX || point.y > POINT_MAX
                            || point.y < -POINT_MAX || point.z > POINT_MAX || point.z
                            < -POINT_MAX {
                            None
                        } else {
                            let outward = point.sub(center);
                            let d = ray.dir.dot(&outward);
                            let front = d < 0;
                            let normal = if front {
                                outward
                            } else {
                                proof {
                                    lemma_v_dot_neg(ray@.dir, outward@);
                                }
                                outward.neg()
                            };
                            Some(Hit { point, normal, front, t, material: *material })
                        }
                    }
                }
            },
        }
    }
}

} // verus!
