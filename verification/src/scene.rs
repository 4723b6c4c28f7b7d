use vstd::prelude::*;
use vstd::arithmetic::div_mod::{lemma_div_basics_5, lemma_div_pos_is_pos};
use crate::fixed::{
    mulf, trunc_div, clamp, mul_fx, lemma_mulf_unit, lemma_mulf_one, lemma_trunc_div_sign,
    SCALE,
};
use crate::vec3::{Vec3, V3, Ray, RayV, v_scale, v_unit, lemma_v_unit_bound};
use crate::geometry::{
    Geometry, Material, Hit, HitV, geom_hit, opt_hit_view, color_in_unit,
};

verus! {

/// The radiance returned when the bounce budget runs out: a fixed
/// energy floor (pure green), deliberately not black.
pub open spec fn floor_color() -> V3 {
    V3 { x: 0, y: SCALE as int, z: 0 }
}

/// Red channel of the background gradient's upper color, a pale blue.
pub const BG_TOP_R: i64 = 32768;

/// Green channel of the background gradient's upper color.
pub const BG_TOP_G: i64 = 45875;

/// Blue channel of the background gradient's upper color.
pub const BG_TOP_B: i64 = 65536;

/// The sky: a vertical linear interpolation between white below and a
/// pale blue above, keyed on the unit ray direction's vertical
/// component mapped from `[-1, 1]` to `[0, 1]`.
pub open spec fn background_v(ray: RayV) -> V3 {
    let t = clamp(trunc_div(v_unit(ray.dir).y + SCALE as int, 2), 0, SCALE as int);
    V3 {
        x: mulf(SCALE as int - t, SCALE as int) + mulf(t, BG_TOP_R as int),
        y: mulf(SCALE as int - t, SCALE as int) + mulf(t, BG_TOP_G as int),
        z: mulf(SCALE as int - t, SCALE as int) + mulf(t, BG_TOP_B as int),
    }
}

/// The nearest accepted hit over a sequence of shapes, by the ray
/// parameter `t` (for one ray, `t` orders hits by distance). On equal
/// parameters the earlier shape wins.
pub open spec fn scene_hit(shapes: Seq<(Geometry, Material)>, ray: RayV) -> Option<HitV>
    decreases shapes.len(),
{
    if shapes.len() == 0 {
        None
    } else {
        let prev = scene_hit(shapes.drop_last(), ray);
        let cur = geom_hit(shapes.last().0, shapes.last().1, ray);
        match (prev, cur) {
            (None, _) => cur,
            (Some(_), None) => prev,
            (Some(p), Some(h)) => if h.t < p.t {
                cur
            } else {
                prev
            },
        }
    }
}

/// Nearest-hit resolution is correct: a resolved hit is the hit of
/// some shape of the scene, and no shape's hit is strictly nearer
/// along the ray; a miss means no shape is hit at all.
pub proof fn lemma_scene_hit_is_nearest(shapes: Seq<(Geometry, Material)>, ray: RayV)
    ensures
        scene_hit(shapes, ray) matches Some(h) ==> {
            &&& exists|i: int|
                0 <= i < shapes.len() && #[trigger] geom_hit(shapes[i].0, shapes[i].1, ray)
                    == Some(h)
            &&& forall|j: int|
                0 <= j < shapes.len() && (#[trigger] geom_hit(shapes[j].0, shapes[j].1, ray))
                    is Some ==> h.t <= geom_hit(shapes[j].0, shapes[j].1, ray)->0.t
        },
        scene_hit(shapes, ray) is None ==> forall|j: int|
            0 <= j < shapes.len() ==> (#[trigger] geom_hit(shapes[j].0, shapes[j].1, ray))
                is None,
    decreases shapes.len(),
{
    if shapes.len() == 0 {
    } else {
        let prefix = shapes.drop_last();
        let last = shapes.last();
        lemma_scene_hit_is_nearest(prefix, ray);
        assert(forall|j: int| 0 <= j < prefix.len() ==> prefix[j] == shapes[j]);
        assert(last == shapes[shapes.len() - 1]);
        let cur = geom_hit(last.0, last.1, ray);
        match scene_hit(prefix, ray) {
            None => {
                if cur is Some {
                    assert(geom_hit(
                        shapes[shapes.len() - 1].0,
                        shapes[shapes.len() - 1].1,
                        ray,
                    ) == Some(cur->0));
                }
            },
            Some(p) => {
                let i = choose|i: int|
                    0 <= i < prefix.len() && #[trigger] geom_hit(prefix[i].0, prefix[i].1, ray)
                        == Some(p);
                assert(geom_hit(shapes[i].0, shapes[i].1, ray) == Some(p));
                match cur {
                    None => {},
                    Some(h) => {
                        assert(geom_hit(
                            shapes[shapes.len() - 1].0,
                            shapes[shapes.len() - 1].1,
                            ray,
                        ) == Some(h));
                    },
                }
            },
        }
    }
}

/// An unordered collection of geometry-material pairs; resolves
/// nearest hits and evaluates recursive radiance.
pub struct Scene {
    pub shapes: Vec<(Geometry, Material)>,
}

impl Scene {
    /// Every shape and material lies within the ranges the
    /// intersection arithmetic accepts.
    pub open spec fn wf(self) -> bool {
        forall|i: int|
            0 <= i < self.shapes@.len() ==> (#[trigger] self.shapes@[i]).0.wf()
                && self.shapes@[i].1.wf()
    }

    pub fn new() -> (s: Scene)
        ensures
            s.shapes@.len() == 0,
            s.wf(),
    {
        Scene { shapes: Vec::new() }
    }

    /// Append a geometry-material pair during setup.
    pub fn add_shape(&mut self, shape: Geometry, material: Material)
        requires
            shape.wf(),
            material.wf(),
        ensures
            final(self).shapes@ == old(self).shapes@.push((shape, material)),
            old(self).wf() ==> final(self).wf(),
    {
        self.shapes.push((shape, material));
        proof {
            if old(self).wf() {
                assert forall|i: int|
                    0 <= i < self.shapes@.len() implies (#[trigger] self.shapes@[i]).0.wf()
                    && self.shapes@[i].1.wf() by {
                    if i < self.shapes@.len() - 1 {
                        assert(self.shapes@[i] == old(self).shapes@[i]);
                        assert((old(self).shapes@[i]).0.wf() && old(self).shapes@[i].1.wf());
                    }
                }
            }
        }
    }

    /// Scan every shape and return the nearest accepted hit, measured
    /// by the ray parameter; the first shape wins ties.
    pub fn closest_hit(&self, ray: &Ray) -> (result: Option<Hit>)
        requires
            self.wf(),
            ray@.wf(),
        ensures
            opt_hit_view(result) == scene_hit(self.shapes@, ray@),
            result matches Some(h) ==> h@.wf(ray@) && h@.material.wf(),
    {
        let mut best: Option<Hit> = None;
        let mut i: usize = 0;
        while i < self.shapes.len()
            invariant
                i <= self.shapes@.len(),
                self.wf(),
                ray@.wf(),
                opt_hit_view(best) == scene_hit(self.shapes@.take(i as int), ray@),
                best matches Some(h) ==> h@.wf(ray@) && h@.material.wf(),
            decreases self.shapes@.len() - i,
        {
            let pair = &self.shapes[i];
            let cur = pair.0.hit(ray, &pair.1);
            match cur {
                None => {},
                Some(h) => {
                    match &best {
                        None => {
                            best = Some(h);
                        },
                        Some(b) => {
                            if h.t < b.t {
                                best = Some(h);
                            }
                        },
                    }
                },
            }
            proof {
                assert(self.shapes@.take(i as int + 1).drop_last() =~= self.shapes@.take(
                    i as int,
                ));
                assert(self.shapes@.take(i as int + 1).last() == self.shapes@[i as int]);
            }
            i = i + 1;
        }
        proof {
            assert(self.shapes@.take(self.shapes@.len() as int) =~= self.shapes@);
        }
        best
    }

    /// The background gradient for a ray that strikes nothing.
    pub fn background(ray: &Ray) -> (color: Vec3)
        requires
            ray@.wf(),
        ensures
            color@ == background_v(ray@),
            color_in_unit(color@),
    {
        let u = ray.dir.unit();
        proof {
            lemma_v_unit_bound(ray@.dir);
        }
        let s = u.y + SCALE;
        let t: i64 = if s <= 0 {
            proof {
                lemma_trunc_div_sign(s as int, 2);
            }
            0
        } else {
            let q = (s as u64) / 2;
            proof {
                lemma_div_pos_is_pos(s as int, 2);
                lemma_div_basics_5(s as int, 2);
            }
            let t0 = q as i64;
            if t0 > SCALE {
                SCALE
            } else {
                t0
            }
        };
        let w = SCALE - t;
        proof {
            lemma_mulf_one(w as int);
            lemma_mulf_unit(w as int, SCALE as int);
            lemma_mulf_unit(t as int, BG_TOP_R as int);
            lemma_mulf_unit(t as int, BG_TOP_G as int);
            lemma_mulf_unit(t as int, BG_TOP_B as int);
        }
        let base = mul_fx(w, SCALE);
        Vec3::new(
            base + mul_fx(t, BG_TOP_R),
            base + mul_fx(t, BG_TOP_G),
            base + mul_fx(t, BG_TOP_B),
        )
    }

    /// Recursive radiance evaluation. With no bounce budget left the
    /// energy floor comes back untouched, with no intersection test.
    /// A ray that strikes nothing yields the background gradient. A
    /// ray that strikes a surface scatters diffusely and the recursive
    /// radiance is scaled by the material's bounce attenuation; every
    /// result has all channels in `[0, 1]`.
    pub fn ray_cast(&self, ray: &Ray, bounces: usize) -> (color: Vec3)
        requires
            self.wf(),
            ray@.wf(),
        ensures
            color_in_unit(color@),
            bounces == 0 ==> color@ == floor_color(),
            bounces > 0 && scene_hit(self.shapes@, ray@) is None ==> color@ == background_v(
                ray@,
            ),
            bounces > 0 ==> (scene_hit(self.shapes@, ray@) matches Some(h) ==> exists|sub: V3|
                color_in_unit(sub) && color@ == v_scale(sub, h.material.spec_bounce())),
        decreases bounces,
    {
        if bounces == 0 {
            Vec3::new(0, SCALE, 0)
        } else {
            match self.closest_hit(ray) {
                None => Self::background(ray),
                Some(hit) => {
                    let b = hit.bounce();
                    let sub = self.ray_cast(&b, bounces - 1);
                    let color = hit.material.attenuate(&sub);
                    proof {
                        assert(color_in_unit(sub@) && color@ == v_scale(
                            sub@,
                            hit@.material.spec_bounce(),
                        ));
                    }
                    color
                },
            }
        }
    }
}

} // verus!
