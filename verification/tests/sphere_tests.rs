use ray_tracing_one_weekend::common::infinity;
use ray_tracing_one_weekend::hittable::Hittable;
use ray_tracing_one_weekend::material::{Empty, Lambertian, Material};
use ray_tracing_one_weekend::ray::Ray;
use ray_tracing_one_weekend::scalar::Scalar;
use ray_tracing_one_weekend::sphere::Sphere;
use ray_tracing_one_weekend::vec3::{dot, unit_vector, Vec3};
use std::sync::Arc;

fn s(x: f64) -> Scalar {
    Scalar::from_micros((x * 1e6).round() as i64)
}

fn v(x: f64, y: f64, z: f64) -> Vec3 {
    Vec3::new(s(x), s(y), s(z))
}

fn f(x: Scalar) -> f64 {
    x.micros as f64 / 1e6
}

fn still(center: Vec3) -> Ray {
    Ray::new(center, Vec3::zero(), s(0.0))
}

fn grey() -> Arc<Material> {
    Arc::new(Material::Lambertian(Lambertian::from_color(v(0.5, 0.5, 0.5))))
}

fn unit_sphere() -> Sphere {
    Sphere::new(still(Vec3::zero()), grey(), s(1.0))
}

#[test]
fn ray_through_the_centre_hits_the_near_side() {
    let sphere = unit_sphere();
    let ray = Ray::new(v(0.0, 0.0, -5.0), v(0.0, 0.0, 1.0), s(0.0));
    let rec = sphere.hit(&ray, s(0.001), infinity()).expect("a hit");
    assert_eq!(rec.t, s(4.0));
    assert_eq!(rec.p, v(0.0, 0.0, -1.0));
    assert_eq!(rec.normal, v(0.0, 0.0, -1.0));
    assert!(rec.front_face);
    assert!((f(rec.u) - 0.75).abs() < 1e-5, "{:?}", rec.u);
    assert!((f(rec.v) - 0.5).abs() < 1e-5, "{:?}", rec.v);
    assert!(Arc::ptr_eq(&rec.mat, &sphere.mat));
}

#[test]
fn negative_discriminant_is_a_miss() {
    let sphere = unit_sphere();
    // offset (0, 0, -5), direction (0, 1, 0): half_b = 0, c = 24, discriminant = -24
    let ray = Ray::new(v(0.0, 0.0, -5.0), v(0.0, 1.0, 0.0), s(0.0));
    assert!(sphere.hit(&ray, s(0.001), infinity()).is_none());
    assert!(sphere.hit(&ray, infinity().neg(), infinity()).is_none());
    let past = Ray::new(v(2.0, 0.0, -5.0), v(0.0, 0.0, 1.0), s(0.0));
    assert!(sphere.hit(&past, s(0.001), infinity()).is_none());
}

#[test]
fn zero_discriminant_is_one_tangent_hit() {
    let sphere = unit_sphere();
    // offset (1, 0, -5), direction (0, 0, 1): half_b = -5, c = 25, discriminant = 0
    let ray = Ray::new(v(1.0, 0.0, -5.0), v(0.0, 0.0, 1.0), s(0.0));
    let rec = sphere.hit(&ray, s(0.001), infinity()).expect("a tangent hit");
    assert_eq!(rec.t, s(5.0));
    assert_eq!(rec.p, v(1.0, 0.0, 0.0));
    // the ray runs along the surface: it does not come from outside
    assert!(!rec.front_face);
    assert_eq!(rec.normal, v(-1.0, 0.0, 0.0));
    // there is no second root beyond the first
    assert!(sphere.hit(&ray, s(5.0), infinity()).is_none());
    assert!(sphere.hit(&ray, s(0.001), s(5.0)).is_none());
}

#[test]
fn ray_from_inside_hits_the_far_side_from_behind() {
    let sphere = unit_sphere();
    let ray = Ray::new(Vec3::zero(), v(0.0, 0.0, 1.0), s(0.0));
    let rec = sphere.hit(&ray, s(0.001), infinity()).expect("a hit");
    assert_eq!(rec.t, s(1.0));
    assert!(!rec.front_face);
    assert_eq!(rec.normal, v(0.0, 0.0, -1.0));
}

#[test]
fn bounds_are_strict() {
    let sphere = unit_sphere();
    let ray = Ray::new(v(0.0, 0.0, -5.0), v(0.0, 0.0, 1.0), s(0.0));
    // the roots are 4 and 6
    assert!(sphere.hit(&ray, s(4.0), s(6.0)).is_none());
    assert_eq!(sphere.hit(&ray, s(4.0), s(6.000001)).expect("far root").t, s(6.0));
    assert_eq!(sphere.hit(&ray, s(3.999999), s(6.0)).expect("near root").t, s(4.0));
    assert!(sphere.hit(&ray, s(0.0), s(4.0)).is_none());
}

#[test]
fn normal_opposes_the_ray() {
    let sphere = unit_sphere();
    for (ox, oy) in [(0.3, 0.2), (-0.5, 0.7), (0.0, 0.99), (0.9, -0.1)] {
        let ray = Ray::new(v(ox, oy, -5.0), v(0.0, 0.0, 1.0), s(0.0));
        let rec = sphere.hit(&ray, s(0.001), infinity()).expect("a hit");
        assert!(dot(ray.direction(), rec.normal).micros <= 0);
        assert!((f(rec.normal.length()) - 1.0).abs() < 1e-5);
        let inside = Ray::new(v(ox * 0.5, oy * 0.5, 0.0), v(0.0, 0.0, 1.0), s(0.0));
        let back = sphere.hit(&inside, s(0.001), infinity()).expect("a hit");
        assert!(dot(inside.direction(), back.normal).micros <= 0);
        assert!(!back.front_face);
    }
}

#[test]
fn moving_sphere_is_where_its_centre_is_at_the_time_of_the_ray() {
    let sphere = Sphere::new(Ray::new(Vec3::zero(), v(0.0, 1.0, 0.0), s(0.0)), grey(), s(1.0));
    let late = Ray::new(v(0.0, 1.0, -5.0), v(0.0, 0.0, 1.0), s(1.0));
    let rec = sphere.hit(&late, s(0.001), infinity()).expect("a hit");
    assert_eq!(rec.t, s(4.0));
    assert_eq!(rec.p, v(0.0, 1.0, -1.0));
    // at time 0 the same ray only touches the sphere
    let early = Ray::new(v(0.0, 1.0, -5.0), v(0.0, 0.0, 1.0), s(0.0));
    assert_eq!(sphere.hit(&early, s(0.001), infinity()).expect("tangent").t, s(5.0));
    let far = Ray::new(v(0.0, 3.0, -5.0), v(0.0, 0.0, 1.0), s(0.5));
    assert!(sphere.hit(&far, s(0.001), infinity()).is_none());
}

#[test]
fn surface_coordinates() {
    let uv = Sphere::get_sphere_uv(v(1.0, 0.0, 0.0));
    assert!((f(uv.x()) - 0.5).abs() < 1e-5);
    assert!((f(uv.y()) - 0.5).abs() < 1e-5);
    let top = Sphere::get_sphere_uv(v(0.0, 1.0, 0.0));
    assert!((f(top.y()) - 1.0).abs() < 1e-5);
    let bottom = Sphere::get_sphere_uv(v(0.0, -1.0, 0.0));
    assert!(f(bottom.y()).abs() < 1e-5);
    let left = Sphere::get_sphere_uv(v(-1.0, 0.0, 0.0));
    assert!(f(left.x()).abs() < 1e-5 || (f(left.x()) - 1.0).abs() < 1e-5);
    let front = Sphere::get_sphere_uv(v(0.0, 0.0, 1.0));
    assert!((f(front.x()) - 0.25).abs() < 1e-5);
}

#[test]
fn density_is_zero_for_a_direction_that_misses() {
    let sphere = unit_sphere();
    let origin = v(0.0, 0.0, -5.0);
    assert_eq!(sphere.pdf_value(origin, v(0.0, 1.0, 0.0)), s(0.0));
    assert_eq!(sphere.pdf_value(origin, v(0.0, 0.0, -1.0)), s(0.0));
    assert_eq!(sphere.pdf_value(origin, v(1.0, 0.0, 1.0)), s(0.0));
}

#[test]
fn density_is_one_over_the_solid_angle_for_a_direction_that_hits() {
    let sphere = unit_sphere();
    let origin = v(0.0, 0.0, -5.0);
    let cos_theta_max = (1.0f64 - 1.0 / 25.0).sqrt();
    let expected = 1.0 / (2.0 * std::f64::consts::PI * (1.0 - cos_theta_max));
    let straight = sphere.pdf_value(origin, v(0.0, 0.0, 1.0));
    assert!((f(straight) - expected).abs() < 1e-3, "{:?} {}", straight, expected);
    // the density is the same all over the cone
    let aside = sphere.pdf_value(origin, v(0.1, 0.1, 1.0));
    assert_eq!(aside, straight);
    assert_eq!(Sphere::cos_theta_max(s(1.0), s(25.0)), s(0.979795));
}

#[test]
fn sampled_directions_point_into_the_cone() {
    let sphere = unit_sphere();
    let origin = v(0.0, 0.0, -5.0);
    let cos_theta_max = (1.0f64 - 1.0 / 25.0).sqrt();
    for _ in 0..500 {
        let direction = sphere.random(origin);
        let cosine = f(dot(unit_vector(direction), v(0.0, 0.0, 1.0)));
        assert!(cosine >= cos_theta_max - 1e-4, "{:?}", direction);
    }
}

#[test]
fn cone_directions_for_given_draws() {
    // u2 = 0: the axis itself
    let axis = Sphere::cone_direction(s(1.0), s(25.0), s(0.3), s(0.0));
    assert_eq!(axis, v(0.0, 0.0, 1.0));
    // u2 = 1, u1 = 0: the rim of the cone, in the x-z plane
    let rim = Sphere::cone_direction(s(1.0), s(25.0), s(0.0), s(1.0));
    assert!((f(rim.z) - 0.979795).abs() < 2e-6);
    assert!((f(rim.x) - 0.2).abs() < 1e-5, "{:?}", rim);
    assert!(f(rim.y).abs() < 1e-5);
}

#[test]
fn sphere_as_a_primitive() {
    let sphere = Hittable::Sphere(unit_sphere());
    let ray = Ray::new(v(0.0, 0.0, -5.0), v(0.0, 0.0, 1.0), s(0.0));
    assert_eq!(sphere.hit(&ray, s(0.001), infinity()).expect("a hit").t, s(4.0));
    let origin = v(0.0, 0.0, -5.0);
    assert!(sphere.pdf_value(origin, v(0.0, 0.0, 1.0)).micros > 0);
    assert_eq!(sphere.pdf_value(origin, v(0.0, 1.0, 0.0)), s(0.0));
    let direction = sphere.random(origin);
    assert!(direction.z.micros > 0);
    let unseen = Sphere::new(still(Vec3::zero()), Arc::new(Material::Empty(Empty::new())), s(1.0));
    assert!(matches!(*unseen.mat, Material::Empty(_)));
}

#[test]
fn cone_directions_lie_in_the_cone() {
    let cosine = Sphere::cos_theta_max(s(1.0), s(25.0));
    let mut k = 0;
    while k < 1_000_000 {
        let mut j = 0;
        while j < 1_000_000 {
            let d = Sphere::cone_direction(
                s(1.0),
                s(25.0),
                Scalar::from_micros(k),
                Scalar::from_micros(j),
            );
            assert!(cosine.micros <= d.z.micros && d.z.micros <= 1_000_000, "{:?}", d);
            j += 49_999;
        }
        k += 99_991;
    }
}

#[test]
fn surface_coordinates_lie_on_the_unit_square() {
    let mut k = -10;
    while k <= 10 {
        let mut j = -10;
        while j <= 10 {
            let p = unit_vector(v(k as f64 * 0.3, j as f64 * 0.2 + 0.01, 1.0 - k as f64 * 0.1));
            let uv = Sphere::get_sphere_uv(p);
            assert!(0 <= uv.x().micros && uv.x().micros <= 1_000_000, "{:?}", uv);
            assert!(0 <= uv.y().micros && uv.y().micros <= 1_000_000, "{:?}", uv);
            j += 1;
        }
        k += 1;
    }
}
