use std::io::Write;

use tempfile::Builder;

use domain_coloring::complex::C;
use domain_coloring::domain_color;
use domain_coloring::domain_color::DCOptions;
use domain_coloring::domain_color::RenderError;
use domain_coloring::domain_color::color_bytes;
use domain_coloring::domain_color::good_arg;
use domain_coloring::domain_color::lightness;
use domain_coloring::domain_color::usize_to_string;
use domain_coloring::parser::ParseError;

fn c_f(re: f64, im: f64) -> C {
    C::new(re.to_string(), im.to_string()).expect("float renderings are valid")
}

fn viewport(xmin: f64, xmax: f64, ymin: f64, ymax: f64) -> DCOptions {
    DCOptions {
        xmin: c_f(xmin, 0.0),
        xmax: c_f(xmax, 0.0),
        ymin: c_f(ymin, 0.0),
        ymax: c_f(ymax, 0.0),
    }
}

fn re_of(v: &C) -> f64 {
    v.re().parse().unwrap()
}

#[test]
fn tests_color_bmp_test() {
    let mut img_file = Builder::new()
        .suffix(".bmp")
        .tempfile()
        .expect("Tempfile could not be created");

    let bmp = domain_color::color_bmp(1000, 1000, "z", viewport(-5.0, 5.0, -5.0, 5.0)).unwrap();

    img_file
        .write_all(&bmp)
        .expect("Could not write image data to file");

    println!("{:?}", img_file.path());
    img_file.keep().expect("Could not save file");
}

#[test]
fn domain_coloring_color_bmp_test() {
    let mut img_file = Builder::new()
        .suffix(".bmp")
        .tempfile()
        .expect("Tempfile could not be created");

    let bmp = domain_color::color_bmp(500, 500, "z", viewport(-5.0, 5.0, -5.0, 5.0)).unwrap();

    img_file
        .write_all(&bmp)
        .expect("Could not write image data to file");

    println!("{:?}", img_file.path());
    img_file.keep().expect("Could not save file");
}

fn le32_at(buf: &[u8], at: usize) -> u32 {
    u32::from_le_bytes([buf[at], buf[at + 1], buf[at + 2], buf[at + 3]])
}

#[test]
fn encoded_size_field_equals_length() {
    // an odd width, so the row needs a real padding
    for (w, h) in [(3usize, 2usize), (1, 1), (5, 4), (16, 3)] {
        let buf = domain_color::color_bmp(w, h, "z", viewport(-1.0, 1.0, -1.0, 1.0)).unwrap();
        let stride = (3 * w + 3) / 4 * 4;
        assert_eq!(stride % 4, 0);
        assert_eq!(buf.len(), 54 + stride * h);
        assert_eq!(le32_at(&buf, 2) as usize, buf.len());
    }
}

#[test]
fn encoded_header_layout() {
    let (w, h) = (3usize, 2usize);
    let buf = domain_color::color_bmp(w, h, "z", viewport(-1.0, 1.0, -1.0, 1.0)).unwrap();
    assert_eq!(&buf[0..2], b"BM");
    assert_eq!(le32_at(&buf, 6), 0); // reserved
    assert_eq!(le32_at(&buf, 10), 54); // pixel data offset
    assert_eq!(le32_at(&buf, 14), 40); // info header size
    assert_eq!(le32_at(&buf, 18) as usize, w);
    assert_eq!(le32_at(&buf, 22) as usize, h);
    assert_eq!(u16::from_le_bytes([buf[26], buf[27]]), 1); // planes
    assert_eq!(u16::from_le_bytes([buf[28], buf[29]]), 24); // bits per pixel
    assert_eq!(le32_at(&buf, 30), 0); // no compression
    // each row of 3*3 = 9 bytes is padded with three zero bytes to 12
    let stride = 12;
    for y in 0..h {
        for p in 9..stride {
            assert_eq!(buf[54 + y * stride + p], 0, "padding at row {y} byte {p}");
        }
    }
}

#[test]
fn render_errors_are_reported() {
    assert_eq!(
        domain_color::color_bmp(0, 5, "z", viewport(-1.0, 1.0, -1.0, 1.0)).unwrap_err(),
        RenderError::InvalidDimensions
    );
    assert_eq!(
        domain_color::color_bmp(5, 0, "z", viewport(-1.0, 1.0, -1.0, 1.0)).unwrap_err(),
        RenderError::InvalidDimensions
    );
    assert_eq!(
        domain_color::color_bmp(5, 5, "z", viewport(1.0, -1.0, -1.0, 1.0)).unwrap_err(),
        RenderError::InvalidViewport
    );
    assert_eq!(
        domain_color::color_bmp(5, 5, "z", viewport(-1.0, 1.0, 1.0, 1.0)).unwrap_err(),
        RenderError::InvalidViewport
    );
    assert_eq!(
        domain_color::color_bmp(5, 5, "(", viewport(-1.0, 1.0, -1.0, 1.0)).unwrap_err(),
        RenderError::Parse(ParseError::MissingClosingParen)
    );
}

#[test]
fn api_entry_point_renders() {
    let buf = domain_coloring::api::color_bmp(
        4,
        3,
        "z^2".to_string(),
        viewport(-2.0, 2.0, -2.0, 2.0),
    )
    .unwrap();
    assert_eq!(&buf[0..2], b"BM");
    assert_eq!(le32_at(&buf, 2) as usize, buf.len());
}

#[test]
fn lightness_is_zero_at_zero_and_below_hundred() {
    // at w = 0 the lightness is exactly zero
    assert_eq!(re_of(&lightness(&c_f(0.0, 0.0))), 0.0);
    // lightness grows toward one hundred without reaching it (in float
    // arithmetic that holds up to magnitudes where m + 1 still exceeds m)
    let mut last = 0.0;
    for m in [0.5, 1.0, 100.0, 1e6, 1e12] {
        let l = re_of(&lightness(&c_f(m, 0.0)));
        assert!(l < 100.0, "lightness {l} at magnitude {m}");
        assert!(l >= last, "not monotone at magnitude {m}");
        last = l;
    }
}

#[test]
fn hue_is_the_normalized_argument() {
    // a nonnegative argument: arg(-1) = pi gives exactly 180 degrees
    assert_eq!(re_of(&good_arg(&c_f(-1.0, 0.0))), 180.0);
    assert_eq!(re_of(&good_arg(&c_f(1.0, 0.0))), 0.0);
    // a negative argument is shifted by 360: arg(-i) = -pi/2 gives 270
    let h = re_of(&good_arg(&c_f(0.0, -1.0)));
    assert!((h - 270.0).abs() < 1e-9, "got {h}");
    let h = re_of(&good_arg(&c_f(1.0, 1.0)));
    assert!((h - 45.0).abs() < 1e-9, "got {h}");
}

#[test]
fn color_of_zero_is_black_and_colors_vary() {
    let black = color_bytes(&c_f(0.0, 0.0));
    assert_eq!((black.r, black.g, black.b), (0, 0, 0));
    let lit = color_bytes(&c_f(1.0, 0.0));
    assert_ne!((lit.r, lit.g, lit.b), (0, 0, 0));
    // different arguments with one magnitude give different hues
    let other = color_bytes(&c_f(-1.0, 0.0));
    assert_ne!((lit.r, lit.g, lit.b), (other.r, other.g, other.b));
}

#[test]
fn decimal_renderings_of_indices() {
    assert_eq!(usize_to_string(0), "0");
    assert_eq!(usize_to_string(7), "7");
    assert_eq!(usize_to_string(10), "10");
    assert_eq!(usize_to_string(12345), "12345");
}
