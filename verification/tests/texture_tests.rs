use image::{DynamicImage, GrayImage, RgbImage, RgbaImage};
use ray_tracing_one_weekend::noise_texture::NoiseTexture;
use ray_tracing_one_weekend::perlin::Perlin;
use ray_tracing_one_weekend::scalar::Scalar;
use ray_tracing_one_weekend::texture::{CheckerTexture, SolidColor, Texture};
use ray_tracing_one_weekend::texture_image::TextureImage;
use ray_tracing_one_weekend::vec3::Vec3;

fn s(x: f64) -> Scalar {
    Scalar::from_micros((x * 1e6).round() as i64)
}

fn v(x: f64, y: f64, z: f64) -> Vec3 {
    Vec3::new(s(x), s(y), s(z))
}

/// A picture three pixels wide and two high:
/// red, green, blue above; black, grey, white below.
fn picture() -> DynamicImage {
    let raw = vec![
        255, 0, 0, 0, 255, 0, 0, 0, 255, // top row
        0, 0, 0, 128, 128, 128, 255, 255, 255, // bottom row
    ];
    DynamicImage::ImageRgb8(RgbImage::from_raw(3, 2, raw).expect("six pixels"))
}

#[test]
fn solid_colour_is_the_same_everywhere() {
    let solid = SolidColor::new(v(0.2, 0.4, 0.6));
    assert_eq!(solid.get_color(s(0.0), s(0.0), &Vec3::zero()), v(0.2, 0.4, 0.6));
    assert_eq!(solid.get_color(s(0.7), s(0.1), &v(5.0, -3.0, 2.0)), v(0.2, 0.4, 0.6));
    let from_parts = SolidColor::from_rgb(s(0.2), s(0.4), s(0.6));
    assert_eq!(from_parts.albedo, solid.albedo);
    let texture = Texture::Solid(solid);
    assert_eq!(texture.get_color(s(0.5), s(0.5), &v(1.0, 1.0, 1.0)), v(0.2, 0.4, 0.6));
}

#[test]
fn checker_alternates_between_cells() {
    let checker = CheckerTexture::from_colors(s(0.5), v(1.0, 0.0, 0.0), v(0.0, 0.0, 1.0));
    assert_eq!(checker.inv_scale, s(2.0));
    assert!(checker.is_even_cell(v(0.1, 0.1, 0.1)));
    assert!(!checker.is_even_cell(v(0.6, 0.1, 0.1)));
    assert!(checker.is_even_cell(v(0.6, 0.6, 0.1)));
    assert!(!checker.is_even_cell(v(0.6, 0.6, 0.6)));
    // below zero the cells go on: -0.1 lies in the cell -1
    assert!(!checker.is_even_cell(v(-0.1, 0.1, 0.1)));
    assert!(checker.is_even_cell(v(-0.1, -0.1, 0.1)));
    assert!(checker.is_even_cell(v(-0.6, 0.1, 0.1)));
    let texture = Texture::Checker(checker);
    assert_eq!(texture.get_color(s(0.0), s(0.0), &v(0.1, 0.1, 0.1)), v(1.0, 0.0, 0.0));
    assert_eq!(texture.get_color(s(0.0), s(0.0), &v(0.6, 0.1, 0.1)), v(0.0, 0.0, 1.0));
}

#[test]
fn checker_of_textures() {
    let fine = CheckerTexture::from_colors(s(0.1), v(1.0, 1.0, 1.0), v(0.0, 0.0, 0.0));
    let coarse = CheckerTexture::new(
        s(1.0),
        Box::new(Texture::Checker(fine)),
        Box::new(Texture::Solid(SolidColor::new(v(0.0, 1.0, 0.0)))),
    );
    let texture = Texture::Checker(coarse);
    assert_eq!(texture.get_color(s(0.0), s(0.0), &v(1.5, 0.5, 0.5)), v(0.0, 1.0, 0.0));
    assert_eq!(texture.get_color(s(0.0), s(0.0), &v(0.05, 0.05, 0.05)), v(1.0, 1.0, 1.0));
    assert_eq!(texture.get_color(s(0.0), s(0.0), &v(0.15, 0.05, 0.05)), v(0.0, 0.0, 0.0));
}

#[test]
fn picture_has_its_size() {
    let texture = TextureImage::new(picture());
    assert_eq!(texture.width(), 3);
    assert_eq!(texture.height(), 2);
    let tall = TextureImage::new(DynamicImage::ImageLuma8(GrayImage::new(5, 9)));
    assert_eq!(tall.width(), 5);
    assert_eq!(tall.height(), 9);
}

#[test]
fn picture_pixels_are_colours() {
    let texture = TextureImage::new(picture());
    assert_eq!(texture.pixel_data(0, 0), v(1.0, 0.0, 0.0));
    assert_eq!(texture.pixel_data(1, 0), v(0.0, 1.0, 0.0));
    assert_eq!(texture.pixel_data(2, 0), v(0.0, 0.0, 1.0));
    assert_eq!(texture.pixel_data(0, 1), v(0.0, 0.0, 0.0));
    assert_eq!(texture.pixel_data(1, 1), v(0.501960, 0.501960, 0.501960));
    assert_eq!(texture.pixel_data(2, 1), v(1.0, 1.0, 1.0));
    assert_eq!(TextureImage::color_of((255, 51, 0)), v(1.0, 0.2, 0.0));
}

#[test]
fn places_outside_the_picture_are_held_to_its_edge() {
    let texture = TextureImage::new(picture());
    assert_eq!(texture.pixel_data(3, 0), v(0.0, 0.0, 1.0));
    assert_eq!(texture.pixel_data(9, 9), v(1.0, 1.0, 1.0));
    assert_eq!(texture.pixel_data(0, 2), v(0.0, 0.0, 0.0));
    assert_eq!(texture.pixel_data(u32::MAX, u32::MAX), v(1.0, 1.0, 1.0));
}

#[test]
fn picture_without_pixels_is_black() {
    let none = TextureImage::new(DynamicImage::ImageRgb8(RgbImage::new(0, 0)));
    assert_eq!(none.pixel_data(0, 0), Vec3::zero());
    assert_eq!(none.get_color(s(0.5), s(0.5), &Vec3::zero()), Vec3::zero());
    let flat = TextureImage::new(DynamicImage::ImageRgb8(RgbImage::new(4, 0)));
    assert_eq!(flat.pixel_data(1, 0), Vec3::zero());
}

#[test]
fn surface_coordinates_pick_the_pixel() {
    let texture = Texture::Image(TextureImage::new(picture()));
    let anywhere = v(7.0, 8.0, 9.0);
    // v = 1 is the top row
    assert_eq!(texture.get_color(s(0.0), s(1.0), &anywhere), v(1.0, 0.0, 0.0));
    assert_eq!(texture.get_color(s(0.5), s(1.0), &anywhere), v(0.0, 1.0, 0.0));
    assert_eq!(texture.get_color(s(0.9), s(0.9), &anywhere), v(0.0, 0.0, 1.0));
    assert_eq!(texture.get_color(s(0.1), s(0.4), &anywhere), v(0.0, 0.0, 0.0));
    assert_eq!(texture.get_color(s(0.4), s(0.1), &anywhere), v(0.501960, 0.501960, 0.501960));
    // the far edges belong to the last pixels
    assert_eq!(texture.get_color(s(1.0), s(0.0), &anywhere), v(1.0, 1.0, 1.0));
    // coordinates outside [0, 1] are held to it
    assert_eq!(texture.get_color(s(-3.0), s(5.0), &anywhere), v(1.0, 0.0, 0.0));
    assert_eq!(texture.get_color(s(3.0), s(-5.0), &anywhere), v(1.0, 1.0, 1.0));
    assert_eq!(TextureImage::pixel_at(s(0.5), 3), 1);
    assert_eq!(TextureImage::pixel_at(s(1.0), 3), 3);
    assert_eq!(TextureImage::pixel_at(s(0.999999), 1000), 999);
}

#[test]
fn picture_with_transparency_keeps_its_colours() {
    let raw = vec![10, 20, 30, 0, 40, 50, 60, 255];
    let image = DynamicImage::ImageRgba8(RgbaImage::from_raw(2, 1, raw).expect("two pixels"));
    let texture = TextureImage::new(image);
    assert_eq!(texture.pixel_data(0, 0), TextureImage::color_of((10, 20, 30)));
    assert_eq!(texture.pixel_data(1, 0), TextureImage::color_of((40, 50, 60)));
}

/// A lattice whose vectors all point along `direction`, with tables that
/// scramble nothing.
fn plain_lattice(direction: Vec3) -> Perlin {
    let vectors = vec![direction; 256];
    let table: Vec<i32> = (0..256).collect();
    Perlin::from_tables(vectors, table.clone(), table.clone(), table).expect("a lattice")
}

#[test]
fn marble_is_grey() {
    let marble = NoiseTexture::new(s(4.0));
    assert_eq!(marble.scale, s(4.0));
    for k in 0..50 {
        let point = v(0.37 * k as f64, 1.0 - 0.11 * k as f64, 0.05 * k as f64);
        let color = marble.get_color(s(0.0), s(0.0), &point);
        assert_eq!(color.x, color.y);
        assert_eq!(color.y, color.z);
        assert!(0 <= color.x.micros && color.x.micros <= 1_000_000, "{:?}", color);
    }
}

#[test]
fn marble_over_a_lattice_without_noise() {
    // lattice vectors of no length give no noise:
    // the colour is 0.5 (1 + sin(scale z))
    let marble = NoiseTexture::from_noise(plain_lattice(Vec3::zero()), s(2.0));
    assert_eq!(marble.get_color(s(0.0), s(0.0), &v(3.0, 4.0, 0.0)), v(0.5, 0.5, 0.5));
    let quarter = marble.get_color(s(0.0), s(0.0), &v(3.0, 4.0, 0.785398));
    assert!((quarter.x.micros - 1_000_000).abs() <= 2, "{:?}", quarter);
    let texture = Texture::Noise(marble);
    assert_eq!(texture.get_color(s(0.3), s(0.6), &v(1.0, 1.0, 0.0)), v(0.5, 0.5, 0.5));
}
