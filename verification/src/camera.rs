use vstd::prelude::*;
use vstd::arithmetic::div_mod::{
    lemma_div_pos_is_pos, lemma_div_basics_5, lemma_multiply_divide_lt,
    lemma_mod_division_less_than_divisor,
};
use crate::fixed::{trunc_div, wide_mul, tdiv, lemma_trunc_div_sign, SCALE, HALF};
use crate::vec3::{
    Vec3, V3, Ray, RayV, v_add, v_sub, v_scale, v_cross, lemma_v_scale_bound,
    lemma_v_cross_bound, POINT_MAX, DIR_MAX,
};

verus! {

/// Largest magnitude of a camera direction component (forward or up),
/// four world units; directions are conventionally near unit length.
pub const CFG_DIR_MAX: i64 = 0x4_0000;

/// Largest viewport width or focal length, sixteen world units.
pub const CFG_LEN_MAX: i64 = 0x10_0000;

/// Largest magnitude of a camera origin component.
pub const CFG_ORIGIN_MAX: i64 = 0x4000_0000;

/// Bound on the derived position vectors a well-formed camera holds.
pub const CAM_POS_MAX: i64 = 0x1_0000_0000;

/// Bound on the derived viewport vectors a well-formed camera holds.
pub const CAM_VP_MAX: i64 = 0x400_0000;

/// Most samples per pixel axis.
pub const SAMPLES_MAX: usize = 256;

/// Largest image dimension in pixels.
pub const IMAGE_DIM_MAX: usize = 65536;

/// Mathematical model of a camera.
pub ghost struct CameraV {
    pub origin: V3,
    pub horizontal: V3,
    pub vertical: V3,
    pub lower_left_corner: V3,
    pub upixel: int,
    pub vpixel: int,
    pub samples: int,
}

impl CameraV {
    /// Field ranges every constructed camera satisfies; they keep the
    /// ray arithmetic inside the fixed-point range.
    pub open spec fn wf(self) -> bool {
        &&& self.origin.bounded(CAM_POS_MAX as int)
        &&& self.lower_left_corner.bounded(CAM_POS_MAX as int)
        &&& self.horizontal.bounded(CAM_VP_MAX as int)
        &&& self.vertical.bounded(CAM_VP_MAX as int)
        &&& 0 <= self.upixel <= SCALE
        &&& 0 <= self.vpixel <= SCALE
        &&& 1 <= self.samples <= SAMPLES_MAX
    }
}

/// The camera derived from its configuration: the viewport height
/// follows from the width and the image aspect ratio, the viewport
/// basis comes from the forward and up directions, and the lower-left
/// corner anchors pixel coordinates.
pub open spec fn spec_camera(
    forward: V3,
    viewport_width: int,
    focal_length: int,
    origin: V3,
    up: V3,
    samples: int,
    width: int,
    height: int,
) -> CameraV {
    let viewport_height = trunc_div(viewport_width * height, width);
    let horizontal = v_scale(v_cross(forward, up), viewport_width);
    let vertical = v_scale(up, viewport_height);
    let fwd = v_scale(forward, focal_length);
    let lower_left_corner = v_add(
        v_sub(v_sub(origin, v_scale(horizontal, HALF as int)), v_scale(vertical, HALF as int)),
        fwd,
    );
    CameraV {
        origin,
        horizontal,
        vertical,
        lower_left_corner,
        upixel: SCALE as int / width,
        vpixel: SCALE as int / height,
        samples,
    }
}

/// The ray for sub-sample `k` of the pixel with base coordinates
/// `(u, v)`: a jitter-free stratified grid, `k / samples` steps right
/// and `k % samples` steps up within the pixel footprint.
pub open spec fn camera_ray(cam: CameraV, u: int, v: int, k: int) -> RayV {
    let su = u + cam.upixel * (k / cam.samples);
    let sv = v + cam.vpixel * (k % cam.samples);
    let dir = v_sub(
        v_add(
            v_add(cam.lower_left_corner, v_scale(cam.horizontal, su)),
            v_scale(cam.vertical, sv),
        ),
        cam.origin,
    );
    RayV { origin: cam.origin, dir }
}

/// Ray generation is deterministic: any two ray sequences produced for
/// the same camera and the same pixel coordinates are equal.
pub proof fn lemma_pixel_rays_deterministic(
    cam: CameraV,
    u: int,
    v: int,
    r1: Seq<RayV>,
    r2: Seq<RayV>,
)
    requires
        r1.len() == cam.samples * cam.samples,
        r2.len() == cam.samples * cam.samples,
        forall|k: int| 0 <= k < r1.len() ==> #[trigger] r1[k] == camera_ray(cam, u, v, k),
        forall|k: int| 0 <= k < r2.len() ==> #[trigger] r2[k] == camera_ray(cam, u, v, k),
    ensures
        r1 == r2,
{
    assert(r1 =~= r2);
}

/// Maps pixel coordinates and sample indices to world-space rays.
pub struct Camera {
    pub origin: Vec3,
    pub horizontal: Vec3,
    pub vertical: Vec3,
    pub lower_left_corner: Vec3,
    pub upixel: i64,
    pub vpixel: i64,
    pub samples: usize,
}

impl View for Camera {
    type V = CameraV;

    open spec fn view(&self) -> CameraV {
        CameraV {
            origin: self.origin@,
            horizontal: self.horizontal@,
            vertical: self.vertical@,
            lower_left_corner: self.lower_left_corner@,
            upixel: self.upixel as int,
            vpixel: self.vpixel as int,
            samples: self.samples as int,
        }
    }
}

impl Camera {
    /// Build a camera from its configuration. The bounds in the
    /// requires are the fixed-point ranges the ray arithmetic needs;
    /// the last clause keeps the derived viewport height in range for
    /// extreme aspect ratios.
    pub fn new(
        forward: Vec3,
        viewport_width: i64,
        focal_length: i64,
        origin: Vec3,
        up: Vec3,
        samples: usize,
        width: usize,
        height: usize,
    ) -> (cam: Camera)
        requires
            forward@.bounded(CFG_DIR_MAX as int),
            up@.bounded(CFG_DIR_MAX as int),
            0 < viewport_width <= CFG_LEN_MAX,
            0 < focal_length <= CFG_LEN_MAX,
            origin@.bounded(CFG_ORIGIN_MAX as int),
            1 <= samples <= SAMPLES_MAX,
            1 <= width <= IMAGE_DIM_MAX,
            1 <= height <= IMAGE_DIM_MAX,
            trunc_div(viewport_width as int * height as int, width as int) <= CFG_LEN_MAX,
        ensures
            cam@ == spec_camera(
                forward@,
                viewport_width as int,
                focal_length as int,
                origin@,
                up@,
                samples as int,
                width as int,
                height as int,
            ),
            cam@.wf(),
    {
        let vh_wide = wide_mul(viewport_width, height as i64);
        let vh128 = tdiv(vh_wide, width as i128);
        proof {
            lemma_trunc_div_sign(viewport_width as int * height as int, width as int);
            assert(viewport_width as int * height as int >= 0) by (nonlinear_arith)
                requires
                    viewport_width > 0,
                    height as int >= 1,
            ;
        }
        let viewport_height = vh128 as i64;
        let hcross = forward.cross(&up);
        proof {
            lemma_v_cross_bound(forward@, up@, CFG_DIR_MAX as int);
            lemma_v_scale_bound(v_cross(forward@, up@), viewport_width as int, 0x20_0000,
                CFG_LEN_MAX as int);
            lemma_v_scale_bound(up@, viewport_height as int, CFG_DIR_MAX as int,
                CFG_LEN_MAX as int);
            lemma_v_scale_bound(forward@, focal_length as int, CFG_DIR_MAX as int,
                CFG_LEN_MAX as int);
        }
        let horizontal = hcross.scale(viewport_width);
        let vertical = up.scale(viewport_height);
        let fwd = forward.scale(focal_length);
        proof {
            lemma_v_scale_bound(horizontal@, HALF as int, 0x200_0000, HALF as int);
            lemma_v_scale_bound(vertical@, HALF as int, 0x40_0000, HALF as int);
        }
        let hhalf = horizontal.scale(HALF);
        let vhalf = vertical.scale(HALF);
        let lower_left_corner = origin.sub(&hhalf).sub(&vhalf).add(&fwd);
        let upixel = ((SCALE as u64) / (width as u64)) as i64;
        let vpixel = ((SCALE as u64) / (height as u64)) as i64;
        proof {
            lemma_div_pos_is_pos(SCALE as int, width as int);
            lemma_div_basics_5(SCALE as int, width as int);
            lemma_div_pos_is_pos(SCALE as int, height as int);
            lemma_div_basics_5(SCALE as int, height as int);
        }
        Camera { origin, horizontal, vertical, lower_left_corner, upixel, vpixel, samples }
    }

    /// The number of rays cast per pixel: the square of the per-axis
    /// sample count.
    pub fn samples(&self) -> (n: usize)
        requires
            self@.wf(),
        ensures
            n == self@.samples * self@.samples,
    {
        proof {
            assert(self.samples as int * self.samples as int <= 65536) by (nonlinear_arith)
                requires
                    0 <= self.samples as int <= 256,
            ;
        }
        self.samples * self.samples
    }

    /// All sample rays for the pixel with base coordinates `(u, v)`,
    /// each in `[0, 1]` fixed-point. The sequence is a pure function
    /// of the camera and the coordinates: recomputing it yields the
    /// same rays.
    pub fn pixel_rays(&self, u: i64, v: i64) -> (rays: Vec<Ray>)
        requires
            self@.wf(),
            0 <= u <= SCALE,
            0 <= v <= SCALE,
        ensures
            rays@.len() == self@.samples * self@.samples,
            forall|k: int|
                0 <= k < rays@.len() ==> (#[trigger] rays@[k])@ == camera_ray(
                    self@,
                    u as int,
                    v as int,
                    k,
                ) && rays@[k]@.wf(),
    {
        let total = self.samples();
        let mut rays: Vec<Ray> = Vec::new();
        let mut k: usize = 0;
        while k < total
            invariant
                self@.wf(),
                0 <= u <= SCALE,
                0 <= v <= SCALE,
                total == self@.samples * self@.samples,
                k <= total,
                rays@.len() == k,
                forall|j: int|
                    0 <= j < k ==> (#[trigger] rays@[j])@ == camera_ray(
                        self@,
                        u as int,
                        v as int,
                        j,
                    ) && rays@[j]@.wf(),
            decreases total - k,
        {
            let kq = k / self.samples;
            let kr = k % self.samples;
            proof {
                lemma_multiply_divide_lt(k as int, self@.samples, self@.samples);
                lemma_mod_division_less_than_divisor(k as int, self@.samples);
                assert(self@.upixel * (k as int / self@.samples) <= 0xFF_0000
                    && 0 <= self@.upixel * (k as int / self@.samples)) by (nonlinear_arith)
                    requires
                        0 <= self@.upixel <= SCALE as int,
                        0 <= k as int / self@.samples <= 255,
                ;
                assert(self@.vpixel * (k as int % self@.samples) <= 0xFF_0000
                    && 0 <= self@.vpixel * (k as int % self@.samples)) by (nonlinear_arith)
                    requires
                        0 <= self@.vpixel <= SCALE as int,
                        0 <= k as int % self@.samples <= 255,
                ;
            }
            let su = u + self.upixel * (kq as i64);
            let sv = v + self.vpixel * (kr as i64);
            proof {
                lemma_v_scale_bound(self@.horizontal, su as int, CAM_VP_MAX as int, 0x100_0000);
                lemma_v_scale_bound(self@.vertical, sv as int, CAM_VP_MAX as int, 0x100_0000);
            }
            let hs = self.horizontal.scale(su);
            let vs = self.vertical.scale(sv);
            let dir = self.lower_left_corner.add(&hs).add(&vs).sub(&self.origin);
            let ray = Ray { origin: self.origin, dir };
            rays.push(ray);
            k = k + 1;
        }
        rays
    }
}

} // verus!
