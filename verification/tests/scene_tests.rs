use tracer::camera::{Camera, DegenerateGeometry, Dimensions};
use tracer::light::Light;
use tracer::math::Vector;
use tracer::object::{Object, Plane, Primitive, Sphere, Surface, Triangle};
use tracer::rendering::Renderer;
use tracer::scene::Scene;
use tracer::util::{Color, Ray};

fn fx(x: f64) -> i128 {
    (x * 65536.0).round() as i128
}

fn gray_surface() -> Surface {
    Surface::new(
        Vector::new(fx(0.5), fx(0.5), fx(0.5)),
        Vector::new(fx(0.5), fx(0.5), fx(0.5)),
    )
}

fn unit_camera() -> Camera {
    Camera::new(
        Vector::new(0, 0, 0),
        Vector::new(0, 0, fx(1.0)),
        fx(1.0),
        Dimensions::new(fx(1.0), fx(1.0)),
        Dimensions::new(fx(1.0), fx(1.0)),
    )
    .unwrap()
}

#[test]
fn color_clamp_is_idempotent() {
    let mut once = Color::new(fx(1.5), fx(0.3), fx(2.0));
    once.clamp();
    assert_eq!(once, Color::new(fx(1.0), fx(0.3), fx(1.0)));
    let mut twice = once;
    twice.clamp();
    assert_eq!(twice, once);
}

#[test]
fn color_clamp_keeps_colors_within_range() {
    let mut c = Color::new(fx(0.25), fx(1.0), fx(0.0));
    let before = c;
    c.clamp();
    assert_eq!(c, before);
}

#[test]
fn camera_rejects_direction_parallel_to_up() {
    let r = Camera::new(
        Vector::new(0, 0, 0),
        Vector::new(0, fx(1.0), 0),
        fx(1.0),
        Dimensions::new(fx(1.0), fx(1.0)),
        Dimensions::new(fx(1.0), fx(1.0)),
    );
    assert_eq!(r.err(), Some(DegenerateGeometry));
}

#[test]
fn camera_rejects_zero_direction() {
    let r = Camera::new(
        Vector::new(0, 0, 0),
        Vector::new(0, 0, 0),
        fx(1.0),
        Dimensions::new(fx(1.0), fx(1.0)),
        Dimensions::new(fx(1.0), fx(1.0)),
    );
    assert_eq!(r.err(), Some(DegenerateGeometry));
}

#[test]
fn center_ray_hits_sphere_at_half_unit() {
    let camera = unit_camera();
    let sphere = Sphere::new(Vector::new(0, 0, fx(1.0)), fx(0.5), gray_surface());
    let ray = camera.generate_ray(0, 0);
    assert_eq!(ray.direction, Vector::new(0, 0, fx(1.0)));
    assert!(sphere.is_intersected_by(&ray));
    let point = sphere.get_point_intersected_by(&ray).unwrap();
    let distance = point.sub(ray.origin).magnitude();
    assert_eq!(distance, fx(0.5));
}

#[test]
fn ray_meets_plane_one_unit_below() {
    let plane = Plane::new(
        Vector::new(0, fx(1.0), 0),
        Vector::new(0, fx(-1.0), 0),
        gray_surface(),
    );
    let ray = Ray::new(Vector::new(0, 0, 0), Vector::new(0, fx(-1.0), 0));
    assert!(plane.is_intersected_by(&ray));
    let point = plane.get_point_intersected_by(&ray).unwrap();
    assert_eq!(point, Vector::new(0, fx(-1.0), 0));
}

#[test]
fn ray_hits_triangle_within_barycentric_bounds() {
    let triangle = Triangle::new(
        Vector::new(0, 0, 0),
        Vector::new(fx(1.0), 0, 0),
        Vector::new(0, fx(1.0), 0),
        gray_surface(),
    );
    let ray = Ray::new(
        Vector::new(fx(0.2), fx(0.2), fx(-1.0)),
        Vector::new(0, 0, fx(1.0)),
    );
    assert!(triangle.is_intersected_by(&ray));
    let point = triangle.get_point_intersected_by(&ray).unwrap();
    assert_eq!(point, Vector::new(fx(0.2), fx(0.2), 0));
}

#[test]
fn ray_misses_sphere_entirely() {
    let sphere = Sphere::new(Vector::new(0, 0, fx(5.0)), fx(0.5), gray_surface());
    let ray = Ray::new(Vector::new(fx(3.0), 0, 0), Vector::new(0, 0, fx(1.0)));
    assert!(!sphere.is_intersected_by(&ray));
    assert!(sphere.get_point_intersected_by(&ray).is_none());
}

#[test]
fn sphere_still_hit_from_farther_back() {
    let sphere = Sphere::new(Vector::new(0, 0, fx(1.0)), fx(0.5), gray_surface());
    let near = Ray::new(Vector::new(0, 0, 0), Vector::new(0, 0, fx(1.0)));
    let far = Ray::new(Vector::new(0, 0, fx(-5.0)), Vector::new(0, 0, fx(1.0)));
    assert!(sphere.is_intersected_by(&near));
    assert!(sphere.is_intersected_by(&far));
}

#[test]
fn head_on_shading_has_exact_value() {
    let surface = Surface::new(
        Vector::new(fx(1.0), 0, 0),
        Vector::new(fx(0.5), fx(0.5), fx(0.5)),
    );
    let sphere = Sphere::new(Vector::new(0, 0, fx(2.0)), fx(1.0), surface);
    let ray = Ray::new(Vector::new(0, 0, 0), Vector::new(0, 0, fx(1.0)));
    let point = sphere.get_point_intersected_by(&ray).unwrap();
    assert_eq!(point, Vector::new(0, 0, fx(1.0)));
    let light = Light::new(Vector::new(0, 0, 0), fx(1.0));
    let color = sphere.compute_color(&point, &ray, &light);
    assert_eq!(color, Color::new(fx(1.5), fx(0.5), fx(0.5)));
}

#[test]
fn empty_scene_resolves_to_background() {
    let scene = Scene::new(vec![Light::new(Vector::new(0, fx(1.0), 0), fx(1.0))], vec![]);
    let ray = Ray::new(Vector::new(0, 0, 0), Vector::new(0, 0, fx(1.0)));
    assert_eq!(scene.compute_color(&ray), Color::new(0, 0, 0));
}

#[test]
fn empty_scene_renders_black_pixels() {
    let camera = Camera::new(
        Vector::new(0, 0, 0),
        Vector::new(0, 0, fx(1.0)),
        fx(1.0),
        Dimensions::new(fx(1.0), fx(1.0)),
        Dimensions::new(fx(2.0), fx(2.0)),
    )
    .unwrap();
    let scene = Scene::new(vec![Light::new(Vector::new(0, fx(1.0), 0), fx(1.0))], vec![]);
    let renderer = Renderer::new(camera, scene);
    let image = renderer.render(2, 2, 4);
    for i in 0..2 {
        for j in 0..2 {
            let p = image.get_pixel(i, j);
            assert_eq!((p.r, p.g, p.b), (0, 0, 0));
        }
    }
}

#[test]
fn occlusion_never_brightens() {
    let target = Sphere::new(Vector::new(0, 0, fx(2.0)), fx(1.0), gray_surface());
    let blocker = Sphere::new(Vector::new(0, fx(1.0), fx(-0.5)), fx(0.4), gray_surface());
    let light = Light::new(Vector::new(0, fx(2.0), fx(-2.0)), fx(1.0));
    let open_scene = Scene::new(vec![light], vec![Primitive::Sphere(target)]);
    let shadowed_scene = Scene::new(
        vec![light],
        vec![Primitive::Sphere(target), Primitive::Sphere(blocker)],
    );
    let ray = Ray::new(Vector::new(0, 0, 0), Vector::new(0, 0, fx(1.0)));
    let open_color = open_scene.compute_color(&ray);
    let shadowed_color = shadowed_scene.compute_color(&ray);
    assert!(shadowed_color.r < open_color.r);
    assert!(shadowed_color.g <= open_color.g);
    assert!(shadowed_color.b <= open_color.b);
}

#[test]
fn nearest_hit_breaks_ties_by_insertion_order() {
    let red = Surface::new(Vector::new(fx(1.0), 0, 0), Vector::new(0, 0, 0));
    let green = Surface::new(Vector::new(0, fx(1.0), 0), Vector::new(0, 0, 0));
    let first = Sphere::new(Vector::new(0, 0, fx(2.0)), fx(1.0), red);
    let second = Sphere::new(Vector::new(0, 0, fx(2.0)), fx(1.0), green);
    let light = Light::new(Vector::new(0, 0, fx(-1.0)), fx(1.0));
    let scene = Scene::new(
        vec![light],
        vec![Primitive::Sphere(first), Primitive::Sphere(second)],
    );
    let ray = Ray::new(Vector::new(0, 0, 0), Vector::new(0, 0, fx(1.0)));
    let color = scene.compute_color(&ray);
    assert!(color.r > 0);
    assert_eq!(color.g, 0);
}

fn lcg_next(state: &mut u64) -> i128 {
    *state = state.wrapping_mul(6364136223846793005).wrapping_add(1442695040888963407);
    ((*state >> 33) % 65536) as i128 - 32768
}

#[test]
fn variance_shrinks_with_more_samples() {
    let camera = unit_camera();
    let sphere = Sphere::new(Vector::new(fx(0.3), 0, fx(1.0)), fx(0.15), gray_surface());
    let light = Light::new(Vector::new(0, 0, 0), fx(1.0));
    let scene = Scene::new(vec![light], vec![Primitive::Sphere(sphere)]);
    let mut variances: Vec<f64> = Vec::new();
    for &samples in &[4u32, 64u32] {
        let mut averages: Vec<f64> = Vec::new();
        for run in 0..8u64 {
            let mut state: u64 = 0x9e3779b97f4a7c15 ^ (run * 0x100000001b3);
            let mut sum: i128 = 0;
            for _ in 0..samples {
                let jr = lcg_next(&mut state);
                let jc = lcg_next(&mut state);
                let ray = camera.generate_ray(jr, jc);
                sum += scene.compute_color(&ray).r;
            }
            averages.push(sum as f64 / samples as f64);
        }
        let mean = averages.iter().sum::<f64>() / averages.len() as f64;
        let var = averages.iter().map(|a| (a - mean) * (a - mean)).sum::<f64>()
            / averages.len() as f64;
        variances.push(var);
    }
    assert!(variances[1] <= variances[0]);
}

#[test]
fn full_frame_sphere_renders_lit_pixel() {
    let camera = unit_camera();
    let wall = Sphere::new(Vector::new(0, 0, fx(3.0)), fx(2.5), gray_surface());
    let light = Light::new(Vector::new(0, 0, 0), fx(1.0));
    let scene = Scene::new(vec![light], vec![Primitive::Sphere(wall)]);
    let renderer = Renderer::new(camera, scene);
    let image = renderer.render(1, 1, 16);
    let p = image.get_pixel(0, 0);
    assert!(p.r > 0 && p.g > 0 && p.b > 0);
}
