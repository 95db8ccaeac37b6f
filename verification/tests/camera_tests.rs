use ray_tracing_one_weekend::camera::{samples_root, Camera};
use ray_tracing_one_weekend::hittable::Hittable;
use ray_tracing_one_weekend::hittable_list::HittableList;
use ray_tracing_one_weekend::material::{
    Dielectric, DiffuseLight, Empty, Lambertian, Material, Metal,
};
use ray_tracing_one_weekend::quad::Quad;
use ray_tracing_one_weekend::ray::Ray;
use ray_tracing_one_weekend::scalar::Scalar;
use ray_tracing_one_weekend::sphere::Sphere;
use ray_tracing_one_weekend::vec3::Vec3;
use std::sync::Arc;

fn s(x: f64) -> Scalar {
    Scalar::from_micros((x * 1e6).round() as i64)
}

fn v(x: f64, y: f64, z: f64) -> Vec3 {
    Vec3::new(s(x), s(y), s(z))
}

fn f(x: Scalar) -> f64 {
    x.micros as f64 / 1e6
}

fn near(a: Vec3, b: Vec3, tolerance: f64) -> bool {
    (f(a.x) - f(b.x)).abs() <= tolerance
        && (f(a.y) - f(b.y)).abs() <= tolerance
        && (f(a.z) - f(b.z)).abs() <= tolerance
}

/// A camera at the origin that looks down the negative z axis, with a right
/// angle of view and a square image.
fn camera(samples: i32, depth: i32, aperture: f64, background: Vec3) -> Camera {
    Camera::new(
        4,
        4,
        samples,
        depth,
        Vec3::zero(),
        v(0.0, 0.0, -1.0),
        v(0.0, 1.0, 0.0),
        s(90.0),
        s(1.0),
        s(aperture),
        s(1.0),
        background,
    )
}

fn ball(center: Vec3, radius: f64, material: Material) -> Hittable {
    Hittable::Sphere(Sphere::new(
        Ray::new(center, Vec3::zero(), s(0.0)),
        Arc::new(material),
        s(radius),
    ))
}

/// A lamp that can be sampled toward: a sphere far above.
fn lamp() -> Arc<Hittable> {
    Arc::new(ball(v(0.0, 100.0, 0.0), 1.0, Material::Empty(Empty::new())))
}

#[test]
fn camera_frame() {
    let cam = camera(100, 50, 0.0, Vec3::zero());
    assert_eq!(cam.image_width, 4);
    assert_eq!(cam.image_height, 4);
    assert_eq!(cam.samples_per_pixel, 100);
    assert_eq!(cam.sqrt_samples, 10);
    assert_eq!(cam.max_depth, 50);
    assert_eq!(cam.origin, Vec3::zero());
    assert_eq!(cam.u, v(1.0, 0.0, 0.0));
    assert_eq!(cam.v, v(0.0, 1.0, 0.0));
    assert_eq!(cam.lens_radius, s(0.0));
    assert!(near(cam.horizontal, v(2.0, 0.0, 0.0), 1e-4), "{:?}", cam.horizontal);
    assert!(near(cam.vertical, v(0.0, 2.0, 0.0), 1e-4));
    assert!(near(cam.lower_left_corner, v(-1.0, -1.0, -1.0), 1e-4));
}

#[test]
fn camera_frame_with_focus_and_aspect() {
    let cam = Camera::new(
        600,
        400,
        16,
        10,
        v(0.0, 0.0, 10.0),
        Vec3::zero(),
        v(0.0, 1.0, 0.0),
        s(40.0),
        s(1.5),
        s(0.5),
        s(10.0),
        v(0.7, 0.8, 1.0),
    );
    let height = 2.0 * 20.0f64.to_radians().tan() * 10.0;
    assert!(near(cam.vertical, v(0.0, height, 0.0), 1e-3), "{:?}", cam.vertical);
    assert!(near(cam.horizontal, v(1.5 * height, 0.0, 0.0), 1e-3));
    assert!(near(cam.lower_left_corner, v(-0.75 * height, -0.5 * height, 0.0), 1e-3));
    assert_eq!(cam.lens_radius, s(0.25));
    assert_eq!(cam.background, v(0.7, 0.8, 1.0));
    assert_eq!(cam.sqrt_samples, 4);
}

#[test]
fn cells_along_a_side() {
    assert_eq!(samples_root(100), 10);
    assert_eq!(samples_root(200), 14);
    assert_eq!(samples_root(1), 1);
    assert_eq!(samples_root(0), 0);
    assert_eq!(samples_root(-4), 0);
    assert_eq!(samples_root(i32::MAX), 46_340);
    assert_eq!(camera(200, 1, 0.0, Vec3::zero()).cells(), 196);
    assert_eq!(camera(0, 1, 0.0, Vec3::zero()).cells(), 0);
    assert_eq!(camera(9, 1, 0.0, Vec3::zero()).pixels(), 16);
}

#[test]
fn place_in_the_cell() {
    let cam = camera(4, 1, 0.0, Vec3::zero());
    assert_eq!(cam.stratum_offset(1, 0, s(0.5), s(0.5)), v(0.25, -0.25, 0.0));
    assert_eq!(cam.stratum_offset(0, 1, s(0.0), s(0.0)), v(-0.5, 0.0, 0.0));
    for _ in 0..200 {
        let place = cam.sample_square_stratification(1, 0);
        assert!(0 <= place.x.micros && place.x.micros < 500_000);
        assert!(-500_000 <= place.y.micros && place.y.micros < 0);
        assert_eq!(place.z, s(0.0));
    }
}

#[test]
fn ray_through_the_middle_of_the_image() {
    let cam = camera(1, 1, 0.0, Vec3::zero());
    let ray = cam.ray_through(s(0.5), s(0.5), Vec3::zero(), Vec3::zero(), s(0.25));
    assert_eq!(ray.origin(), Vec3::zero());
    assert!(near(ray.direction(), v(0.0, 0.0, -1.0), 1e-4));
    assert_eq!(ray.time(), s(0.25));
    let corner = cam.ray_through(s(1.0), s(0.0), Vec3::zero(), Vec3::zero(), s(0.0));
    assert!(near(corner.direction(), v(1.0, -1.0, -1.0), 1e-4));
    // a quarter of a pixel to the right and down, in an image of 4 by 4:
    // the place moves the point on the image plane by 0.25 / 3 of its
    // side, and leaves the ray at the eye
    let moved = cam.ray_through(s(0.5), s(0.5), v(0.25, -0.25, 0.0), Vec3::zero(), s(0.0));
    assert_eq!(moved.origin(), Vec3::zero());
    assert!(near(moved.direction(), v(0.166666, -0.166666, -1.0), 1e-4), "{:?}", moved);
}

#[test]
fn place_in_the_pixel_moves_the_point_on_the_image_plane() {
    assert_eq!(Camera::plane_shift(s(0.25), 4), s(0.083333));
    assert_eq!(Camera::plane_shift(s(-0.25), 4), s(-0.083333));
    assert_eq!(Camera::plane_shift(s(-0.5), 5), s(-0.125));
    assert_eq!(Camera::plane_shift(s(0.5), 401), s(0.00125));
    assert_eq!(Camera::plane_shift(s(0.0), 4), s(0.0));
    let cam = camera(1, 1, 0.0, Vec3::zero());
    assert!(near(cam.plane_point(s(0.5), s(0.5)), v(0.0, 0.0, -1.0), 1e-4));
    assert!(near(cam.plane_point(s(0.0), s(1.0)), v(-1.0, 1.0, -1.0), 1e-4));
    // half a pixel is the most that a place moves the point
    let mut place = -500_000;
    while place <= 500_000 {
        let shift = Camera::plane_shift(Scalar::from_micros(place), 4);
        assert!(2 * shift.micros.abs() <= 333_333, "{:?}", shift);
        place += 12_500;
    }
}

#[test]
fn ray_through_a_wide_lens() {
    let cam = camera(1, 1, 2.0, Vec3::zero());
    assert_eq!(cam.lens_radius, s(1.0));
    let ray = cam.ray_through(s(0.5), s(0.5), Vec3::zero(), v(0.5, -0.25, 0.0), s(0.0));
    assert_eq!(ray.origin(), v(0.5, -0.25, 0.0));
    assert!(near(ray.direction(), v(-0.5, 0.25, -1.0), 1e-4));
    // the lens does not move the point in focus
    assert!(near(ray.at(s(1.0)), v(0.0, 0.0, -1.0), 1e-4));
}

#[test]
fn primary_rays_start_on_the_lens_at_a_time_of_the_frame() {
    let cam = camera(4, 1, 2.0, Vec3::zero());
    for _ in 0..200 {
        let ray = cam.get_ray(s(0.5), s(0.5), 0, 0);
        assert!(0 <= ray.time().micros && ray.time().micros < 1_000_000);
        // the lens has the radius 1 and lies in the plane of u and v
        assert!(f(ray.origin().length()) <= 1.000001, "{:?}", ray);
        assert_eq!(ray.origin().z, s(0.0));
        // whatever the point of the lens, the ray passes through its
        // place of the image plane, which is in focus
        let through = ray.at(s(1.0));
        assert!(-0.333334 <= f(through.x) && f(through.x) <= 0.000001, "{:?}", through);
        assert!(-0.333334 <= f(through.y) && f(through.y) <= 0.000001, "{:?}", through);
    }
}

#[test]
fn without_a_lens_every_primary_ray_starts_at_the_eye() {
    let eye = v(3.0, -2.0, 7.0);
    let pinhole = Camera::new(
        4,
        4,
        4,
        1,
        eye,
        v(3.0, -2.0, 6.0),
        v(0.0, 1.0, 0.0),
        s(90.0),
        s(1.0),
        s(0.0),
        s(1.0),
        Vec3::zero(),
    );
    for cell in 0..2 {
        for other in 0..2 {
            for _ in 0..100 {
                let ray = pinhole.get_ray(s(0.5), s(0.5), cell, other);
                assert_eq!(ray.origin(), eye);
                assert!(0 <= ray.time().micros && ray.time().micros < 1_000_000);
                // the sample lies in its cell of the pixel about (0.5, 0.5):
                // a pixel is 2 / 3 wide, a cell half of that
                let low_x = (cell as f64 - 1.0) / 3.0;
                let low_y = (other as f64 - 1.0) / 3.0;
                let x = f(ray.direction().x);
                let y = f(ray.direction().y);
                assert!(low_x - 1e-5 <= x && x <= low_x + 1.0 / 3.0 + 1e-5, "{:?}", ray);
                assert!(low_y - 1e-5 <= y && y <= low_y + 1.0 / 3.0 + 1e-5, "{:?}", ray);
                assert!((f(ray.direction().z) + 1.0).abs() < 1e-5);
            }
        }
    }
}

#[test]
fn plane_coordinates_of_a_pixel() {
    assert_eq!(Camera::plane_coordinate(0, s(0.0), 5), s(0.0));
    assert_eq!(Camera::plane_coordinate(2, s(0.0), 5), s(0.5));
    assert_eq!(Camera::plane_coordinate(3, s(0.5), 5), s(0.875));
    assert_eq!(Camera::plane_coordinate(4, s(0.0), 5), s(1.0));
}

#[test]
fn combining_the_light() {
    let emitted = v(1.0, 0.0, 0.5);
    let attenuation = v(0.5, 0.5, 0.5);
    let incoming = v(2.0, 4.0, 6.0);
    assert_eq!(Camera::specular(emitted, attenuation, incoming), v(2.0, 2.0, 3.5));
    // 0.5 * 0.2 * incoming / 0.4
    assert_eq!(
        Camera::weighted(emitted, attenuation, s(0.2), incoming, s(0.4)),
        v(1.5, 1.0, 2.0)
    );
    // without any density there is no light to weigh
    assert_eq!(
        Camera::weighted(emitted, attenuation, s(0.0), incoming, s(0.0)),
        emitted
    );
}

#[test]
fn no_rays_left_means_black() {
    let cam = camera(1, 5, 0.0, v(0.7, 0.8, 1.0));
    let ray = Ray::new(Vec3::zero(), v(0.0, 0.0, -1.0), s(0.0));
    let bright = Material::DiffuseLight(DiffuseLight::from_color(v(9.0, 9.0, 9.0)));
    let scenes = [
        Hittable::List(HittableList::new()),
        ball(v(0.0, 0.0, -3.0), 1.0, bright),
        ball(v(0.0, 0.0, -3.0), 1.0, Material::Dielectric(Dielectric::new(s(1.5)))),
        ball(
            v(0.0, 0.0, -3.0),
            1.0,
            Material::Lambertian(Lambertian::from_color(v(0.5, 0.5, 0.5))),
        ),
    ];
    for world in scenes.iter() {
        assert_eq!(cam.ray_color(&ray, world, &lamp(), 0), Vec3::zero());
        assert_eq!(cam.ray_color(&ray, world, &lamp(), -3), Vec3::zero());
    }
}

#[test]
fn a_miss_brings_the_background() {
    let cam = camera(1, 5, 0.0, v(0.7, 0.8, 1.0));
    let world = ball(
        v(0.0, 0.0, -3.0),
        1.0,
        Material::Lambertian(Lambertian::from_color(v(0.5, 0.5, 0.5))),
    );
    let past = Ray::new(Vec3::zero(), v(0.0, 1.0, 0.0), s(0.0));
    assert_eq!(cam.ray_color(&past, &world, &lamp(), 5), v(0.7, 0.8, 1.0));
    let empty = Hittable::List(HittableList::new());
    assert_eq!(cam.ray_color(&past, &empty, &lamp(), 1), v(0.7, 0.8, 1.0));
}

#[test]
fn a_light_brings_its_own_colour() {
    let cam = camera(1, 5, 0.0, v(0.7, 0.8, 1.0));
    let world = ball(
        v(0.0, 0.0, -3.0),
        1.0,
        Material::DiffuseLight(DiffuseLight::from_color(v(4.0, 3.0, 2.0))),
    );
    let ray = Ray::new(Vec3::zero(), v(0.0, 0.0, -1.0), s(0.0));
    assert_eq!(cam.ray_color(&ray, &world, &lamp(), 5), v(4.0, 3.0, 2.0));
    assert_eq!(cam.ray_color(&ray, &world, &lamp(), 1), v(4.0, 3.0, 2.0));
    // from inside the light shows its back, which is dark
    let inside = Ray::new(v(0.0, 0.0, -3.0), v(0.0, 0.0, -1.0), s(0.0));
    assert_eq!(cam.ray_color(&inside, &world, &lamp(), 5), Vec3::zero());
}

#[test]
fn an_absorbing_surface_is_black() {
    let cam = camera(1, 5, 0.0, v(0.7, 0.8, 1.0));
    let world = ball(v(0.0, 0.0, -3.0), 1.0, Material::Empty(Empty::new()));
    let ray = Ray::new(Vec3::zero(), v(0.0, 0.0, -1.0), s(0.0));
    assert_eq!(cam.ray_color(&ray, &world, &lamp(), 5), Vec3::zero());
}

#[test]
fn a_mirror_brings_what_it_reflects() {
    let cam = camera(1, 5, 0.0, v(0.5, 1.0, 2.0));
    let world = ball(
        v(0.0, 0.0, -3.0),
        1.0,
        Material::Metal(Metal::from_color(v(0.8, 0.5, 0.25), s(0.0))),
    );
    let ray = Ray::new(Vec3::zero(), v(0.0, 0.0, -1.0), s(0.0));
    // the ray is sent back and misses everything: attenuation times background
    assert_eq!(cam.ray_color(&ray, &world, &lamp(), 5), v(0.4, 0.5, 0.5));
    // with one ray only, the reflected ray is not followed
    assert_eq!(cam.ray_color(&ray, &world, &lamp(), 1), Vec3::zero());
}

#[test]
fn glass_passes_the_background_on() {
    let cam = camera(1, 10, 0.0, v(0.5, 1.0, 2.0));
    let world = ball(v(0.0, 0.0, -3.0), 1.0, Material::Dielectric(Dielectric::new(s(1.5))));
    let ray = Ray::new(Vec3::zero(), v(0.0, 0.0, -1.0), s(0.0));
    let mut passed = 0;
    for _ in 0..200 {
        let color = cam.ray_color(&ray, &world, &lamp(), 10);
        if color == v(0.5, 1.0, 2.0) {
            passed += 1;
        }
    }
    assert!(passed > 150, "{}", passed);
}

/// A square lamp above a matt sphere, in the dark.
fn lit_scene() -> Hittable {
    let mut world = HittableList::new();
    world.add(Hittable::Quad(Quad::new(
        v(-2.0, 3.0, -5.0),
        v(4.0, 0.0, 0.0),
        v(0.0, 0.0, 4.0),
        Arc::new(Material::DiffuseLight(DiffuseLight::from_color(v(4.0, 4.0, 4.0)))),
    )));
    world.add(ball(
        v(0.0, 0.0, -3.0),
        1.0,
        Material::Lambertian(Lambertian::from_color(v(0.5, 0.5, 0.5))),
    ));
    Hittable::List(world)
}

/// What directions are drawn toward in the lit scene: the lamp, unseen.
fn lit_scene_lights() -> Arc<Hittable> {
    let mut lights = HittableList::new();
    lights.add(Hittable::Quad(Quad::new(
        v(-2.0, 3.0, -5.0),
        v(4.0, 0.0, 0.0),
        v(0.0, 0.0, 4.0),
        Arc::new(Material::Empty(Empty::new())),
    )));
    Arc::new(Hittable::List(lights))
}

#[test]
fn ray_that_hits_only_the_lamp_brings_its_emission() {
    let cam = camera(1, 10, 0.0, Vec3::zero());
    let world = lit_scene();
    let lights = lit_scene_lights();
    // upward, past the sphere, to the underside of the lamp
    let ray = Ray::new(Vec3::zero(), v(0.0, 3.0, -3.5), s(0.0));
    for _ in 0..20 {
        assert_eq!(cam.ray_color(&ray, &world, &lights, 10), v(4.0, 4.0, 4.0));
    }
}

#[test]
fn matt_sphere_under_the_lamp_is_lit_but_dimmer_than_the_lamp() {
    let cam = camera(1, 10, 0.0, Vec3::zero());
    let world = lit_scene();
    let lights = lit_scene_lights();
    // to the upper front of the sphere, which faces the lamp
    let ray = Ray::new(Vec3::zero(), v(0.0, 0.5, -2.4), s(0.0));
    let n = 2_000;
    let mut sum = Vec3::zero();
    for _ in 0..n {
        let color = cam.ray_color(&ray, &world, &lights, 10);
        assert!(color.x.micros >= 0 && color.y.micros >= 0 && color.z.micros >= 0);
        sum = sum.add(color);
    }
    let mean = sum.shrink(Scalar::from_int(n));
    for channel in [mean.x, mean.y, mean.z] {
        assert!(channel.micros > 0, "{:?}", mean);
        assert!(channel.micros < 4_000_000, "{:?}", mean);
    }
}

#[test]
fn pixel_of_an_empty_scene_sums_the_background() {
    let cam = camera(9, 5, 0.0, v(0.25, 0.5, 1.0));
    let world = Hittable::List(HittableList::new());
    let pixel = cam.render_pixel(1, 2, &world, &lamp());
    assert_eq!(pixel, v(2.25, 4.5, 9.0));
    let sample = cam.sample(1, 2, 0, 0, &world, &lamp());
    assert_eq!(sample, v(0.25, 0.5, 1.0));
    let none = camera(0, 5, 0.0, v(0.25, 0.5, 1.0));
    assert_eq!(none.render_pixel(1, 2, &world, &lamp()), Vec3::zero());
}

#[test]
fn image_has_one_sum_for_each_pixel() {
    let cam = camera(4, 5, 0.0, v(0.25, 0.5, 1.0));
    let world = Hittable::List(HittableList::new());
    let image = cam.render(&world, &lamp());
    assert_eq!(image.len(), 16);
    for pixel in image {
        assert_eq!(pixel, v(1.0, 2.0, 4.0));
    }
}

#[test]
fn image_starts_with_the_top_row() {
    // a lamp that fills the upper half of the view, in the dark
    let cam = camera(1, 5, 0.0, Vec3::zero());
    let world = Hittable::Quad(Quad::new(
        v(-50.0, 0.3, -1.0),
        v(100.0, 0.0, 0.0),
        v(0.0, 50.0, 0.0),
        Arc::new(Material::DiffuseLight(DiffuseLight::from_color(v(1.0, 1.0, 1.0)))),
    ));
    let image = cam.render(&world, &lamp());
    assert_eq!(image.len(), 16);
    for column in 0..4 {
        assert_eq!(image[column], v(1.0, 1.0, 1.0), "top row, column {}", column);
        assert_eq!(image[12 + column], Vec3::zero(), "bottom row, column {}", column);
    }
}

#[test]
fn samples_lie_in_their_cells() {
    // three cells along a side, of the width 0.333333
    let cam = camera(9, 1, 0.0, Vec3::zero());
    assert_eq!(cam.sqrt_samples, 3);
    for cell in 0..3 {
        for other in 0..3 {
            let mut jitter = 0;
            while jitter < 1_000_000 {
                let place = cam.stratum_offset(
                    cell,
                    other,
                    Scalar::from_micros(jitter),
                    Scalar::from_micros(999_999 - jitter),
                );
                let low_x = cell as i64 * 333_333 - 500_000;
                let low_y = other as i64 * 333_333 - 500_000;
                assert!(low_x <= place.x.micros && place.x.micros <= low_x + 333_333);
                assert!(low_y <= place.y.micros && place.y.micros <= low_y + 333_333);
                assert!(-500_000 <= place.x.micros && place.x.micros <= 500_000);
                jitter += 33_331;
            }
        }
    }
}

#[test]
fn no_pixel_of_a_lit_scene_is_negative() {
    let mut cam = camera(4, 6, 0.0, v(0.1, 0.2, 0.3));
    cam.image_width = 6;
    cam.image_height = 6;
    let mut world = HittableList::new();
    world.add(lit_scene());
    world.add(ball(
        v(1.5, 0.0, -3.0),
        0.5,
        Material::Metal(Metal::from_color(v(0.8, 0.8, 0.8), s(0.3))),
    ));
    world.add(ball(v(-1.5, 0.0, -3.0), 0.5, Material::Dielectric(Dielectric::new(s(1.5)))));
    let image = cam.render(&Hittable::List(world), &lamp());
    assert_eq!(image.len(), 36);
    let mut lit = 0;
    for pixel in image {
        assert!(pixel.x.micros >= 0 && pixel.y.micros >= 0 && pixel.z.micros >= 0, "{:?}", pixel);
        if pixel.x.micros > 0 {
            lit += 1;
        }
    }
    assert!(lit > 0);
}
