use ray_tracing_one_weekend::common::infinity;
use ray_tracing_one_weekend::hittable::Hittable;
use ray_tracing_one_weekend::material::{Lambertian, Material};
use ray_tracing_one_weekend::quad::Quad;
use ray_tracing_one_weekend::ray::Ray;
use ray_tracing_one_weekend::scalar::Scalar;
use ray_tracing_one_weekend::vec3::Vec3;
use std::sync::Arc;

fn s(x: f64) -> Scalar {
    Scalar::from_micros((x * 1e6).round() as i64)
}

fn v(x: f64, y: f64, z: f64) -> Vec3 {
    Vec3::new(s(x), s(y), s(z))
}

fn f(x: Scalar) -> f64 {
    x.micros as f64 / 1e6
}

fn grey() -> Arc<Material> {
    Arc::new(Material::Lambertian(Lambertian::from_color(v(0.5, 0.5, 0.5))))
}

fn unit_square() -> Quad {
    Quad::new(Vec3::zero(), v(1.0, 0.0, 0.0), v(0.0, 1.0, 0.0), grey())
}

#[test]
fn plane_of_the_unit_square() {
    let quad = unit_square();
    assert_eq!(quad.normal, v(0.0, 0.0, 1.0));
    assert_eq!(quad.d, s(0.0));
    assert_eq!(quad.area, s(1.0));
    let lifted = Quad::new(v(0.0, 0.0, 3.0), v(2.0, 0.0, 0.0), v(0.0, 4.0, 0.0), grey());
    assert_eq!(lifted.normal, v(0.0, 0.0, 1.0));
    assert_eq!(lifted.d, s(3.0));
    assert_eq!(lifted.area, s(8.0));
}

#[test]
fn ray_into_the_square_hits() {
    let quad = unit_square();
    let ray = Ray::new(v(0.25, 0.5, -1.0), v(0.0, 0.0, 1.0), s(0.0));
    let rec = quad.hit(&ray, s(0.001), infinity()).expect("a hit");
    assert_eq!(rec.t, s(1.0));
    assert_eq!(rec.p, v(0.25, 0.5, 0.0));
    assert_eq!(rec.u, s(0.25));
    assert_eq!(rec.v, s(0.5));
    assert!(!rec.front_face);
    assert_eq!(rec.normal, v(0.0, 0.0, -1.0));
    assert!(Arc::ptr_eq(&rec.mat, &quad.mat));
    let from_front = Ray::new(v(0.25, 0.5, 2.0), v(0.0, 0.0, -1.0), s(0.0));
    let front = quad.hit(&from_front, s(0.001), infinity()).expect("a hit");
    assert_eq!(front.t, s(2.0));
    assert!(front.front_face);
    assert_eq!(front.normal, v(0.0, 0.0, 1.0));
}

#[test]
fn ray_beside_the_square_misses() {
    let quad = unit_square();
    for (x, y) in [(1.5, 0.5), (-0.1, 0.5), (0.5, 1.1), (0.5, -0.2)] {
        let ray = Ray::new(v(x, y, -1.0), v(0.0, 0.0, 1.0), s(0.0));
        assert!(quad.hit(&ray, s(0.001), infinity()).is_none(), "{} {}", x, y);
    }
}

#[test]
fn corners_and_edges_belong_to_the_square() {
    let quad = unit_square();
    for (x, y) in [(0.0, 0.0), (1.0, 1.0), (1.0, 0.0), (0.5, 1.0)] {
        let ray = Ray::new(v(x, y, -1.0), v(0.0, 0.0, 1.0), s(0.0));
        assert!(quad.hit(&ray, s(0.001), infinity()).is_some(), "{} {}", x, y);
    }
}

#[test]
fn ray_along_the_plane_misses() {
    let quad = unit_square();
    let along = Ray::new(v(-1.0, 0.5, 0.0), v(1.0, 0.0, 0.0), s(0.0));
    assert!(quad.hit(&along, s(0.001), infinity()).is_none());
    let above = Ray::new(v(-1.0, 0.5, 1.0), v(1.0, 0.0, 0.0), s(0.0));
    assert!(quad.hit(&above, s(0.001), infinity()).is_none());
}

#[test]
fn bounds_are_strict_for_the_square() {
    let quad = unit_square();
    let ray = Ray::new(v(0.25, 0.5, -1.0), v(0.0, 0.0, 1.0), s(0.0));
    assert!(quad.hit(&ray, s(0.001), s(1.0)).is_none());
    assert!(quad.hit(&ray, s(1.0), infinity()).is_none());
    assert!(quad.hit(&ray, s(0.999999), s(1.000001)).is_some());
    let behind = Ray::new(v(0.25, 0.5, 1.0), v(0.0, 0.0, 1.0), s(0.0));
    assert!(quad.hit(&behind, s(0.001), infinity()).is_none());
}

#[test]
fn large_squares_keep_their_coordinates() {
    let wall = Quad::new(
        v(0.0, 0.0, 555.0),
        v(555.0, 0.0, 0.0),
        v(0.0, 555.0, 0.0),
        grey(),
    );
    let ray = Ray::new(v(278.0, 278.0, -800.0), v(-139.25, 138.25, 1355.0), s(0.0));
    let rec = wall.hit(&ray, s(0.001), infinity()).expect("a hit");
    assert_eq!(rec.t, s(1.0));
    assert!((f(rec.u) - 0.25).abs() < 1e-5, "{:?}", rec.u);
    assert!((f(rec.v) - 0.75).abs() < 1e-5, "{:?}", rec.v);
    let beside = Ray::new(v(278.0, 278.0, -800.0), v(300.0, 0.0, 1355.0), s(0.0));
    assert!(wall.hit(&beside, s(0.001), infinity()).is_none());
}

#[test]
fn slanted_square() {
    let quad = Quad::new(v(0.0, 0.0, 0.0), v(1.0, 0.0, 1.0), v(0.0, 1.0, 0.0), grey());
    let ray = Ray::new(v(0.5, 0.5, -2.0), v(0.0, 0.0, 1.0), s(0.0));
    let rec = quad.hit(&ray, s(0.001), infinity()).expect("a hit");
    assert!((f(rec.t) - 2.5).abs() < 1e-5);
    assert!((f(rec.u) - 0.5).abs() < 1e-5);
    assert!((f(rec.v) - 0.5).abs() < 1e-5);
}

#[test]
fn box_has_six_sides() {
    let sides = Quad::get_box(v(0.0, 0.0, 0.0), v(1.0, 2.0, 3.0), grey());
    assert_eq!(sides.objects.len(), 6);
    let corners = [
        v(0.0, 0.0, 3.0),
        v(1.0, 0.0, 3.0),
        v(1.0, 0.0, 0.0),
        v(0.0, 0.0, 0.0),
        v(0.0, 2.0, 3.0),
        v(0.0, 0.0, 0.0),
    ];
    let first_edges = [
        v(1.0, 0.0, 0.0),
        v(0.0, 0.0, -3.0),
        v(-1.0, 0.0, 0.0),
        v(0.0, 0.0, 3.0),
        v(1.0, 0.0, 0.0),
        v(1.0, 0.0, 0.0),
    ];
    let second_edges = [
        v(0.0, 2.0, 0.0),
        v(0.0, 2.0, 0.0),
        v(0.0, 2.0, 0.0),
        v(0.0, 2.0, 0.0),
        v(0.0, 0.0, -3.0),
        v(0.0, 0.0, 3.0),
    ];
    for (i, side) in sides.objects.iter().enumerate() {
        match side {
            Hittable::Quad(quad) => {
                assert_eq!(quad.q, corners[i]);
                assert_eq!(quad.u, first_edges[i]);
                assert_eq!(quad.v, second_edges[i]);
            }
            _ => panic!("a side that is no quad"),
        }
    }
}

#[test]
fn box_is_hit_on_the_side_that_faces_the_ray() {
    let cube = Hittable::List(Quad::get_box(v(0.0, 0.0, 0.0), v(1.0, 1.0, 1.0), grey()));
    let ray = Ray::new(v(0.5, 0.5, -1.0), v(0.0, 0.0, 1.0), s(0.0));
    let rec = cube.hit(&ray, s(0.001), infinity()).expect("a hit");
    assert_eq!(rec.t, s(1.0));
    assert_eq!(rec.p, v(0.5, 0.5, 0.0));
    let from_above = Ray::new(v(0.5, 5.0, 0.5), v(0.0, -1.0, 0.0), s(0.0));
    let top = cube.hit(&from_above, s(0.001), infinity()).expect("a hit");
    assert_eq!(top.t, s(4.0));
    let past = Ray::new(v(1.5, 0.5, -1.0), v(0.0, 0.0, 1.0), s(0.0));
    assert!(cube.hit(&past, s(0.001), infinity()).is_none());
}

#[test]
fn quad_is_not_sampled_toward() {
    let quad = Hittable::Quad(unit_square());
    assert_eq!(quad.pdf_value(v(0.5, 0.5, -1.0), v(0.0, 0.0, 1.0)), s(0.0));
    assert_eq!(quad.random(v(0.5, 0.5, -1.0)), v(1.0, 0.0, 0.0));
}
