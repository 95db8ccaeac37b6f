use ray_tracing_one_weekend::hittable::Hittable;
use ray_tracing_one_weekend::hittable_list::HittableList;
use ray_tracing_one_weekend::material::{Empty, Material};
use ray_tracing_one_weekend::pdf::{
    cosine_density, mix, sphere_density, CosinePdf, HittablePdf, MixturePdf, Pdf, SpherePdf,
};
use ray_tracing_one_weekend::ray::Ray;
use ray_tracing_one_weekend::scalar::Scalar;
use ray_tracing_one_weekend::sphere::Sphere;
use ray_tracing_one_weekend::vec3::{dot, unit_vector, Vec3};
use std::sync::Arc;

fn s(x: f64) -> Scalar {
    Scalar::from_micros((x * 1e6).round() as i64)
}

fn v(x: f64, y: f64, z: f64) -> Vec3 {
    Vec3::new(s(x), s(y), s(z))
}

fn f(x: Scalar) -> f64 {
    x.micros as f64 / 1e6
}

fn lamp() -> Arc<Hittable> {
    let unseen = Arc::new(Material::Empty(Empty::new()));
    Arc::new(Hittable::Sphere(Sphere::new(
        Ray::new(v(0.0, 5.0, 0.0), Vec3::zero(), s(0.0)),
        unseen,
        s(1.0),
    )))
}

#[test]
fn even_density_is_one_over_four_pi() {
    assert_eq!(sphere_density(), s(0.079577));
    let even = SpherePdf::new();
    assert_eq!(even.value(v(1.0, 0.0, 0.0)), s(0.079577));
    assert_eq!(even.value(v(0.0, -3.0, 2.0)), s(0.079577));
    assert_eq!(Pdf::Sphere(even).value(v(0.0, 1.0, 0.0)), s(0.079577));
    for _ in 0..200 {
        let d = even.generate();
        assert!((f(d.length()) - 1.0).abs() < 1e-4);
    }
}

#[test]
fn cosine_density_is_the_cosine_over_pi() {
    let about_z = CosinePdf::new(v(0.0, 0.0, 3.0));
    assert_eq!(about_z.value(v(0.0, 0.0, 1.0)), s(0.318309));
    assert_eq!(about_z.value(v(0.0, 0.0, 7.0)), s(0.318309));
    assert_eq!(about_z.value(v(0.0, 3.0, 4.0)), s(0.8).div(s(3.141593)));
    assert_eq!(about_z.value(v(1.0, 0.0, 0.0)), s(0.0));
    assert_eq!(about_z.value(v(0.0, 0.0, -1.0)), s(0.0));
    assert_eq!(cosine_density(v(0.0, 0.0, 1.0), v(0.0, 0.0, 1.0)), s(0.318309));
    for _ in 0..200 {
        let d = about_z.generate();
        assert!(d.z.micros >= 0);
        assert!(about_z.value(d).micros >= 0);
    }
}

#[test]
fn density_toward_objects_is_their_density() {
    let toward = HittablePdf::new(Vec3::zero(), lamp());
    let direct = lamp().pdf_value(Vec3::zero(), v(0.0, 1.0, 0.0));
    assert!(direct.micros > 0);
    assert_eq!(toward.value(v(0.0, 1.0, 0.0)), direct);
    assert_eq!(toward.value(v(1.0, 0.0, 0.0)), s(0.0));
    for _ in 0..200 {
        let d = unit_vector(toward.generate());
        assert!(f(dot(d, v(0.0, 1.0, 0.0))) > 0.97);
    }
    let as_kind = Pdf::Hittable(HittablePdf::new(Vec3::zero(), lamp()));
    assert_eq!(as_kind.value(v(0.0, 1.0, 0.0)), direct);
}

#[test]
fn mixture_density_is_half_of_each() {
    let directions = [
        v(0.0, 1.0, 0.0),
        v(0.0, 0.0, 1.0),
        v(0.1, 1.0, 0.05),
        v(1.0, 1.0, 1.0),
        v(0.0, -1.0, 0.0),
        v(-3.0, 0.5, 2.0),
    ];
    for d in directions {
        let p = Pdf::Hittable(HittablePdf::new(Vec3::zero(), lamp()));
        let q = Pdf::Cosine(CosinePdf::new(v(0.0, 1.0, 1.0)));
        let expected = s(0.5).mul(p.value(d)).add(s(0.5).mul(q.value(d)));
        let mixture = MixturePdf::new(p, q);
        assert_eq!(mixture.value(d), expected);
        assert_eq!(Pdf::Mixture(mixture).value(d), expected);
    }
    assert_eq!(mix(s(0.25), s(0.75)), s(0.5));
    assert_eq!(mix(s(0.0), s(1.0)), s(0.5));
    assert_eq!(mix(s(3.0), s(3.0)), s(3.0));
}

#[test]
fn mixture_of_mixtures() {
    let inner = Pdf::Mixture(MixturePdf::new(
        Pdf::Sphere(SpherePdf::new()),
        Pdf::Cosine(CosinePdf::new(v(0.0, 0.0, 1.0))),
    ));
    let outer = MixturePdf::new(inner, Pdf::Sphere(SpherePdf::new()));
    let d = v(0.0, 0.0, 1.0);
    let inner_value = s(0.5).mul(s(0.079577)).add(s(0.5).mul(s(0.318309)));
    assert_eq!(outer.value(d), s(0.5).mul(inner_value).add(s(0.5).mul(s(0.079577))));
}

#[test]
fn mixture_draws_from_both_parts() {
    let mixture = MixturePdf::new(
        Pdf::Hittable(HittablePdf::new(Vec3::zero(), lamp())),
        Pdf::Cosine(CosinePdf::new(v(0.0, -1.0, 0.0))),
    );
    let mut up = 0;
    let mut down = 0;
    for _ in 0..400 {
        let d = mixture.generate();
        if d.y.micros > 0 {
            up += 1;
        } else {
            down += 1;
        }
    }
    assert!(up > 120 && down > 120, "{} {}", up, down);
    assert!(MixturePdf::picks_first(s(0.0)));
    assert!(MixturePdf::picks_first(s(0.499999)));
    assert!(!MixturePdf::picks_first(s(0.5)));
    assert!(!MixturePdf::picks_first(s(0.999999)));
}

#[test]
fn lights_in_a_list() {
    let mut list = HittableList::new();
    list.add(Hittable::Sphere(Sphere::new(
        Ray::new(v(0.0, 5.0, 0.0), Vec3::zero(), s(0.0)),
        Arc::new(Material::Empty(Empty::new())),
        s(1.0),
    )));
    let lights = Arc::new(Hittable::List(list));
    let toward = HittablePdf::new(Vec3::zero(), lights.clone());
    assert_eq!(toward.value(v(0.0, 1.0, 0.0)), lamp().pdf_value(Vec3::zero(), v(0.0, 1.0, 0.0)));
    let d = unit_vector(toward.generate());
    assert!(f(dot(d, v(0.0, 1.0, 0.0))) > 0.97);
}
