use ray_tracing_one_weekend::common::{
    acos, atan2, cos, degrees_to_radians, infinity, ln, pi, random_double, random_double_range,
    random_int_range, sin, tan,
};
use ray_tracing_one_weekend::scalar::Scalar;

fn s(x: f64) -> Scalar {
    Scalar::from_micros((x * 1e6).round() as i64)
}

fn f(x: Scalar) -> f64 {
    x.micros as f64 / 1e6
}

fn close(a: Scalar, expected: f64, tolerance: f64) -> bool {
    (f(a) - expected).abs() <= tolerance
}

#[test]
fn pi_and_infinity() {
    assert_eq!(pi().micros, 3_141_593);
    assert_eq!(infinity(), Scalar::max_value());
}

#[test]
fn degrees_become_radians() {
    assert_eq!(degrees_to_radians(Scalar::from_int(180)), pi());
    assert!(close(degrees_to_radians(Scalar::from_int(90)), std::f64::consts::FRAC_PI_2, 2e-6));
    assert_eq!(degrees_to_radians(Scalar::zero()), Scalar::zero());
}

#[test]
fn sine_follows_the_function() {
    let mut degrees = -720;
    while degrees <= 720 {
        let x = (degrees as f64).to_radians();
        assert!(close(sin(s(x)), x.sin(), 2e-5), "sin at {} degrees: {:?}", degrees, sin(s(x)));
        degrees += 5;
    }
}

#[test]
fn cosine_follows_the_function() {
    let mut degrees = -720;
    while degrees <= 720 {
        let x = (degrees as f64).to_radians();
        assert!(close(cos(s(x)), x.cos(), 2e-5), "cos at {} degrees: {:?}", degrees, cos(s(x)));
        degrees += 5;
    }
}

#[test]
fn sine_and_cosine_at_marked_angles() {
    assert_eq!(sin(Scalar::zero()), Scalar::zero());
    assert!(close(sin(s(std::f64::consts::FRAC_PI_6)), 0.5, 1e-5));
    assert!(close(cos(Scalar::zero()), 1.0, 1e-5));
    assert!(close(sin(s(std::f64::consts::FRAC_PI_2)), 1.0, 1e-5));
}

#[test]
fn tangent_of_small_fields_of_view() {
    assert!(close(tan(s(10.0f64.to_radians())), 10.0f64.to_radians().tan(), 3e-5));
    assert!(close(tan(s(20.0f64.to_radians())), 20.0f64.to_radians().tan(), 3e-5));
    assert!(close(tan(s(40.0f64.to_radians())), 40.0f64.to_radians().tan(), 5e-5));
}

#[test]
fn arc_tangent_covers_the_quadrants() {
    let points = [
        (1.0, 0.0),
        (1.0, 1.0),
        (0.0, 1.0),
        (-1.0, 1.0),
        (-1.0, 0.0),
        (-1.0, -1.0),
        (0.0, -1.0),
        (1.0, -1.0),
        (0.3, 0.9),
        (-0.7, 0.2),
        (0.6, -0.8),
        (250.0, 3.0),
    ];
    for (x, y) in points {
        let expected = f64::atan2(y, x);
        assert!(
            close(atan2(s(y), s(x)), expected, 3e-5),
            "atan2({}, {}) = {:?}, expected {}",
            y,
            x,
            atan2(s(y), s(x)),
            expected
        );
    }
    assert_eq!(atan2(Scalar::zero(), Scalar::zero()), Scalar::zero());
}

#[test]
fn arc_cosine_follows_the_function() {
    let mut k = -10;
    while k <= 10 {
        let x = k as f64 / 10.0;
        assert!(close(acos(s(x)), x.acos(), 2e-3), "acos({}) = {:?}", x, acos(s(x)));
        k += 1;
    }
    assert!(close(acos(s(0.5)), 0.5f64.acos(), 3e-5));
    assert!(close(acos(s(2.0)), 0.0, 1e-5));
}

#[test]
fn logarithm_follows_the_function() {
    let values = [0.000001, 0.001, 0.1, 0.5, 0.999999, 1.0, 1.5, 2.0, 10.0, 12345.678];
    for x in values {
        assert!(close(ln(s(x)), x.ln(), 3e-5), "ln({}) = {:?}", x, ln(s(x)));
    }
    assert_eq!(ln(Scalar::zero()), Scalar::max_value().neg());
    assert_eq!(ln(Scalar::from_int(-1)), Scalar::max_value().neg());
}

#[test]
fn whole_draws_stay_in_range() {
    for _ in 0..1000 {
        let n = random_int_range(-3, 4);
        assert!((-3..=4).contains(&n));
    }
    assert_eq!(random_int_range(5, 5), 5);
}

#[test]
fn whole_draws_vary() {
    let first = random_int_range(0, 1_000_000);
    let mut varied = false;
    for _ in 0..100 {
        if random_int_range(0, 1_000_000) != first {
            varied = true;
        }
    }
    assert!(varied);
}

#[test]
fn unit_draws_stay_in_range() {
    for _ in 0..1000 {
        let u = random_double();
        assert!(0 <= u.micros && u.micros < 1_000_000);
        let v = random_double_range(s(-2.0), s(3.0));
        assert!(-2_000_000 <= v.micros && v.micros < 3_000_000);
    }
}

#[test]
fn logarithm_keeps_its_sign() {
    assert_eq!(ln(Scalar::one()), Scalar::zero());
    assert!(ln(s(0.999999)).micros <= 0);
    assert!(ln(s(1.000001)).micros >= 0);
    let mut raw = 1;
    while raw < 1_000_000 {
        assert!(ln(Scalar::from_micros(raw)).micros <= 0, "{}", raw);
        raw += 997;
    }
    while raw < 50_000_000 {
        assert!(ln(Scalar::from_micros(raw)).micros >= 0, "{}", raw);
        raw += 9_973;
    }
}

#[test]
fn angles_stay_in_their_ranges() {
    let mut k = -20;
    while k <= 20 {
        let mut j = -20;
        while j <= 20 {
            let angle = atan2(s(k as f64 * 0.37), s(j as f64 * 0.41));
            assert!(-3_141_593 <= angle.micros && angle.micros <= 3_141_593);
            if k >= 0 {
                assert!(angle.micros >= 0);
            }
            j += 1;
        }
        let arc = acos(s(k as f64 * 0.07));
        assert!(0 <= arc.micros && arc.micros <= 3_141_593);
        k += 1;
    }
}
