use raytrace::camera::Camera;
use raytrace::fixed::{isqrt, mul_fx, tdiv};
use raytrace::geometry::{Geometry, Material};
use raytrace::image::{Image, Pixel, Rgba};
use raytrace::sampling;
use raytrace::scene::Scene;
use raytrace::vec3::{Ray, Vec3};

const S: i64 = 65536;

fn red() -> Material {
    Material::Diffuse(Vec3::new(S, 0, 0))
}

fn green() -> Material {
    Material::Diffuse(Vec3::new(0, S, 0))
}

fn center_sphere() -> Geometry {
    Geometry::Sphere(Vec3::new(0, 0, 2 * S), S / 2)
}

fn forward_ray() -> Ray {
    Ray::new(Vec3::new(0, 0, 0), Vec3::new(0, 0, S))
}

fn default_camera(samples: usize, width: usize, height: usize) -> Camera {
    Camera::new(
        Vec3::new(0, 0, S),
        2 * S,
        S,
        Vec3::new(0, 0, 0),
        Vec3::new(0, S, 0),
        samples,
        width,
        height,
    )
}

#[test]
fn it_works() {
}

#[test]
fn fixed_point_operations() {
    assert_eq!(mul_fx(98304, 32768), 49152);
    assert_eq!(mul_fx(-98304, 32768), -49152);
    assert_eq!(mul_fx(S, S), S);
    assert_eq!(tdiv(-7, 2), -3);
    assert_eq!(tdiv(7, 2), 3);
    assert_eq!(isqrt(17), 4);
    assert_eq!(isqrt(0), 0);
    assert_eq!(isqrt(16384 * 65536), 32768);
}

#[test]
fn sphere_hit_point_lies_on_surface() {
    let sphere = center_sphere();
    let ray = forward_ray();
    let hit = sphere.hit(&ray, &red()).expect("a ray aimed at the center must hit");
    assert_eq!(hit.point, Vec3::new(0, 0, 98304));
    assert_eq!(hit.t, 98304);
    assert!(hit.front);
    let from_center = hit.point.sub(&Vec3::new(0, 0, 2 * S));
    assert_eq!(from_center.magnitude(), S / 2);
}

#[test]
fn hit_normal_faces_incoming_ray() {
    let sphere = center_sphere();
    let straight = forward_ray();
    let hit = sphere.hit(&straight, &red()).unwrap();
    assert!(straight.dir.dot(&hit.normal) <= 0);

    let slanted = Ray::new(Vec3::new(0, 0, 0), Vec3::new(8192, 0, S));
    let hit = sphere.hit(&slanted, &red()).expect("a slightly slanted ray still hits");
    assert!(slanted.dir.dot(&hit.normal) <= 0);
}

#[test]
fn bounce_ray_does_not_reintersect() {
    let sphere = center_sphere();
    let ray = forward_ray();
    let hit = sphere.hit(&ray, &red()).unwrap();
    let along_normal = hit.ray();
    assert!(sphere.hit(&along_normal, &red()).is_none());
}

#[test]
fn ray_tangent_or_missing_is_no_hit() {
    let sphere = center_sphere();
    let away = Ray::new(Vec3::new(0, 0, 0), Vec3::new(0, 0, -S));
    assert!(sphere.hit(&away, &red()).is_none());
    let wide = Ray::new(Vec3::new(0, 0, 0), Vec3::new(S, S, S));
    assert!(sphere.hit(&wide, &red()).is_none());
}

#[test]
fn pixel_rays_are_deterministic() {
    let cam = default_camera(4, 400, 225);
    let r1 = cam.pixel_rays(13107, 26214);
    let r2 = cam.pixel_rays(13107, 26214);
    assert_eq!(r1.len(), 16);
    assert_eq!(r1, r2);
}

#[test]
fn pixel_rays_form_stratified_grid() {
    let cam = default_camera(2, 2, 2);
    let rays = cam.pixel_rays(0, 0);
    assert_eq!(rays.len(), 4);
    for ray in &rays {
        assert_eq!(ray.origin, Vec3::new(0, 0, 0));
    }
    assert_eq!(rays[0].dir, Vec3::new(S, -S, S));
    assert_eq!(rays[1].dir, Vec3::new(S, 0, S));
    assert_eq!(rays[2].dir, Vec3::new(0, -S, S));
    assert_eq!(rays[3].dir, Vec3::new(0, 0, S));
}

#[test]
fn camera_derives_viewport_from_aspect_ratio() {
    let cam = default_camera(20, 400, 225);
    assert_eq!(cam.horizontal, Vec3::new(-2 * S, 0, 0));
    assert_eq!(cam.vertical, Vec3::new(0, 73728, 0));
    assert_eq!(cam.lower_left_corner, Vec3::new(S, -36864, S));
    assert_eq!(cam.upixel, 163);
    assert_eq!(cam.vpixel, 291);
    assert_eq!(cam.samples(), 400);
}

#[test]
fn accumulator_averages_samples() {
    let mut px = Pixel { u: 0, v: 0, samples: 0, color: Vec3::new(0, 0, 0) };
    px.add_sample(Vec3::new(S, 0, 0));
    px.add_sample(Vec3::new(0, S, 0));
    px.add_sample(Vec3::new(0, 0, S));
    let rgba = px.finalize();
    assert_eq!(rgba, Rgba { r: 85, g: 85, b: 85, a: 255 });
}

#[test]
fn image_walks_pixels_in_row_major_order() {
    let mut img = Image::new(2, 2);
    assert_eq!(img.width(), 2);
    assert_eq!(img.height(), 2);
    let expected = [(0, 0), (S, 0), (0, S), (S, S)];
    for &(u, v) in &expected {
        let px = img.next().expect("a pixel for every raster cell");
        assert_eq!(px.u(), u);
        assert_eq!(px.v(), v);
        assert_eq!(px.samples, 0);
    }
    assert!(img.next().is_none());
}

#[test]
fn background_gradient_endpoints() {
    let level = forward_ray();
    assert_eq!(Scene::background(&level), Vec3::new(49152, 55705, 65536));
    let up = Ray::new(Vec3::new(0, 0, 0), Vec3::new(0, S, 0));
    assert_eq!(Scene::background(&up), Vec3::new(32768, 45875, 65536));
    let down = Ray::new(Vec3::new(0, 0, 0), Vec3::new(0, -S, 0));
    assert_eq!(Scene::background(&down), Vec3::new(S, S, S));
}

#[test]
fn ray_cast_with_no_bounces_returns_floor() {
    let mut scene = Scene::new();
    scene.add_shape(center_sphere(), red());
    let color = scene.ray_cast(&forward_ray(), 0);
    assert_eq!(color, Vec3::new(0, S, 0));
}

#[test]
fn ray_cast_miss_returns_background() {
    let mut scene = Scene::new();
    scene.add_shape(center_sphere(), red());
    let away = Ray::new(Vec3::new(0, 0, 0), Vec3::new(0, 0, -S));
    assert_eq!(scene.ray_cast(&away, 4), Scene::background(&away));
}

#[test]
fn closest_hit_picks_nearest_shape_either_order() {
    let near = center_sphere();
    let far = Geometry::Sphere(Vec3::new(0, 0, 4 * S), S / 2);
    let ray = forward_ray();

    let mut a = Scene::new();
    a.add_shape(far, red());
    a.add_shape(near, green());
    let hit = a.closest_hit(&ray).expect("the ray passes through both spheres");
    assert_eq!(hit.t, 98304);
    assert_eq!(hit.material, green());

    let mut b = Scene::new();
    b.add_shape(near, green());
    b.add_shape(far, red());
    let hit = b.closest_hit(&ray).expect("the ray passes through both spheres");
    assert_eq!(hit.t, 98304);
    assert_eq!(hit.material, green());
}

#[test]
fn closest_hit_tie_goes_to_first_shape() {
    let mut scene = Scene::new();
    scene.add_shape(center_sphere(), red());
    scene.add_shape(center_sphere(), green());
    let hit = scene.closest_hit(&forward_ray()).unwrap();
    assert_eq!(hit.material, red());
}

#[test]
fn random_samples_stay_in_range() {
    for _ in 0..200 {
        let v = sampling::vec();
        assert!(-S <= v.x && v.x <= S);
        assert!(-S <= v.y && v.y <= S);
        assert!(-S <= v.z && v.z <= S);
        let b = sampling::unit_sphere();
        assert!(b.magnitude_squared() <= S);
    }
}

#[test]
fn full_render_pipeline_is_consistent() {
    let mut scene = Scene::new();
    scene.add_shape(center_sphere(), red());
    let cam = default_camera(1, 2, 2);
    let mut img = Image::new(2, 2);
    let mut out: Vec<Rgba> = Vec::new();
    while let Some(mut px) = img.next() {
        for ray in cam.pixel_rays(px.u(), px.v()) {
            px.add_sample(scene.ray_cast(&ray, 4));
        }
        out.push(px.finalize());
    }
    assert_eq!(out.len(), 4);
    // at 2x2 every pixel is a corner and every corner ray misses the
    // sphere, so the whole render is deterministic background
    for (i, &(u, v)) in [(0, 0), (S, 0), (0, S), (S, S)].iter().enumerate() {
        let rays = cam.pixel_rays(u, v);
        let bg = Scene::background(&rays[0]);
        let mut expected = Pixel { u, v, samples: 0, color: Vec3::new(0, 0, 0) };
        expected.add_sample(bg);
        assert_eq!(out[i], expected.finalize());
        assert_eq!(out[i].a, 255);
    }
}

#[test]
fn two_by_two_scene_hits_center_and_misses_corners() {
    let mut scene = Scene::new();
    scene.add_shape(center_sphere(), red());
    let cam = default_camera(1, 2, 2);

    for &(u, v) in &[(0, 0), (S, 0), (0, S), (S, S)] {
        let rays = cam.pixel_rays(u, v);
        assert_eq!(rays.len(), 1);
        let color = scene.ray_cast(&rays[0], 4);
        assert_eq!(color, Scene::background(&rays[0]));
    }

    let center = cam.pixel_rays(S / 2, S / 2);
    assert_eq!(center[0].dir, Vec3::new(0, 0, S));
    let color = scene.ray_cast(&center[0], 4);
    let bg = Scene::background(&center[0]);
    assert_eq!(bg.x, 49152);
    assert!(color.x <= S / 2);
    assert_ne!(color, bg);
}
