use ray_tracing_one_weekend::color::{channel_level, push_decimal, write_color, Color};
use ray_tracing_one_weekend::scalar::Scalar;

fn s(x: f64) -> Scalar {
    Scalar::from_micros((x * 1e6).round() as i64)
}

fn c(r: f64, g: f64, b: f64) -> Color {
    Color::new(s(r), s(g), s(b))
}

fn line(pixel_color: Color, samples_per_pixel: i32) -> String {
    let mut out: Vec<u8> = Vec::new();
    write_color(&mut out, pixel_color, samples_per_pixel);
    String::from_utf8(out).expect("ASCII")
}

#[test]
fn decimal_digits() {
    for (n, text) in [(0u8, "0"), (7, "7"), (10, "10"), (99, "99"), (100, "100"), (255, "255")] {
        let mut out: Vec<u8> = vec![b'>'];
        push_decimal(&mut out, n);
        assert_eq!(String::from_utf8(out).expect("ASCII"), format!(">{}", text));
    }
}

#[test]
fn all_levels_in_decimal() {
    for n in 0..=255u8 {
        let mut out: Vec<u8> = Vec::new();
        push_decimal(&mut out, n);
        assert_eq!(String::from_utf8(out).expect("ASCII"), format!("{}", n));
    }
}

#[test]
fn levels_are_gamma_corrected() {
    // sqrt(0.25) = 0.5, times 256
    assert_eq!(channel_level(s(0.25), 1), 128);
    assert_eq!(channel_level(s(0.0), 1), 0);
    // sqrt(0.09) = 0.3, times 256 = 76.8
    assert_eq!(channel_level(s(0.09), 1), 76);
    assert_eq!(channel_level(s(1.0), 1), 255);
}

#[test]
fn levels_are_held_to_the_range() {
    assert_eq!(channel_level(s(4.0), 1), 255);
    assert_eq!(channel_level(s(1000.0), 1), 255);
    assert_eq!(channel_level(Scalar::max_value(), 1), 255);
    assert_eq!(channel_level(s(-1.0), 1), 0);
    assert_eq!(channel_level(Scalar::max_value().neg(), 1), 0);
}

#[test]
fn levels_are_means_over_the_samples() {
    assert_eq!(channel_level(s(1.0), 4), 128);
    assert_eq!(channel_level(s(25.0), 100), 128);
    assert_eq!(channel_level(s(9.0), 100), 76);
    assert_eq!(channel_level(s(0.0), 0), 0);
}

#[test]
fn pixel_lines() {
    assert_eq!(line(c(1.0, 1.0, 1.0), 1), "255 255 255\n");
    assert_eq!(line(c(0.25, 0.0, 4.0), 1), "128 0 255\n");
    assert_eq!(line(c(1.0, 4.0, 0.36), 4), "128 255 76\n");
    assert_eq!(line(c(0.0, 0.0, 0.0), 100), "0 0 0\n");
    assert_eq!(line(c(-3.0, 0.01, 0.0001), 1), "0 25 2\n");
}

#[test]
fn lines_are_appended() {
    let mut out: Vec<u8> = b"header\n".to_vec();
    write_color(&mut out, c(1.0, 0.25, 0.0), 1);
    write_color(&mut out, c(0.0, 0.0, 0.09), 1);
    assert_eq!(String::from_utf8(out).expect("ASCII"), "header\n255 128 0\n0 0 76\n");
}
