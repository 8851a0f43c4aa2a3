//! The scalar, vector and color algebra, and the text parsing helpers.

use rustraylib::color::ColorVector;
use rustraylib::fixed::FX_ONE;
use rustraylib::fixed::fx_add;
use rustraylib::fixed::fx_div;
use rustraylib::fixed::fx_mul;
use rustraylib::fixed::fx_sqrt;
use rustraylib::fixed::fx_sub;
use rustraylib::nffparsing::as_u32;
use rustraylib::nffparsing::parse_fixed_bytes;
use rustraylib::nffparsing::parse_u32_bytes;
use rustraylib::posvector::PosVector;
use rustraylib::renderer::create_output_file_path;

#[test]
fn fixed_multiply_descales() {
    // 2.0 * 3.0 == 6.0
    assert_eq!(fx_mul(2 * FX_ONE, 3 * FX_ONE), 6 * FX_ONE);
    // 0.5 * 0.5 == 0.25
    assert_eq!(fx_mul(32768, 32768), 16384);
    // signs
    assert_eq!(fx_mul(-2 * FX_ONE, 3 * FX_ONE), -6 * FX_ONE);
    assert_eq!(fx_mul(-2 * FX_ONE, -3 * FX_ONE), 6 * FX_ONE);
}

#[test]
fn fixed_divide_rescales() {
    assert_eq!(fx_div(6 * FX_ONE, 3 * FX_ONE), 2 * FX_ONE);
    assert_eq!(fx_div(FX_ONE, 2 * FX_ONE), 32768);
    assert_eq!(fx_div(-FX_ONE, 2 * FX_ONE), -32768);
}

#[test]
fn fixed_add_saturates() {
    assert_eq!(fx_add(i64::MAX, 1), i64::MAX);
    assert_eq!(fx_sub(i64::MIN, 1), i64::MIN);
    assert_eq!(fx_add(1, 2), 3);
}

#[test]
fn fixed_sqrt_exact_squares() {
    // sqrt(4.0) == 2.0
    assert_eq!(fx_sqrt(4 * FX_ONE), 2 * FX_ONE);
    // sqrt(1.0) == 1.0
    assert_eq!(fx_sqrt(FX_ONE), FX_ONE);
    // sqrt of a negative argument is guarded to zero
    assert_eq!(fx_sqrt(-FX_ONE), 0);
}

#[test]
fn vector_cross_and_dot() {
    let x = PosVector::new_unit_x();
    let y = PosVector::new_unit_y();
    let z = PosVector::new_unit_z();
    assert_eq!(x.cross(y), z);
    assert_eq!(x.dot_product(y), 0);
    assert_eq!(x.dot_product(x), FX_ONE);
}

#[test]
fn normalize_magnitude_near_one() {
    // a 3-4-5 vector: the normalized magnitude stays within a few
    // quanta of one
    let v = PosVector::new(3 * FX_ONE, 4 * FX_ONE, 0);
    assert_eq!(v.magnitude(), 5 * FX_ONE);
    let n = v.normalize();
    assert_eq!(n, PosVector::new(39321, 52428, 0));
    let m = n.magnitude();
    assert!((m - FX_ONE).abs() <= 4, "magnitude {m}");
}

#[test]
fn normalize_axis_exact() {
    // along an axis the normalized magnitude is exactly one
    let v = PosVector::new(7 * FX_ONE, 0, 0);
    assert_eq!(v.normalize().magnitude(), FX_ONE);
}

#[test]
fn normalize_zero_vector_stays_zero() {
    let v = PosVector::new_default();
    assert_eq!(v.normalize(), PosVector::new_default());
}

#[test]
fn color_clamp_bounds() {
    let c = ColorVector::new(-5, 2 * FX_ONE, 1234);
    let k = c.clamp();
    assert_eq!(k, ColorVector::new(0, FX_ONE, 1234));
}

#[test]
fn color_blend_scales_both_sides() {
    // blend with weight 0.25 scales both colors by 0.75
    let a = ColorVector::new(FX_ONE, 0, 0);
    let b = ColorVector::new(0, FX_ONE, 0);
    let r = a.blend(b, 16384);
    assert_eq!(r, ColorVector::new(49152, 49152, 0));
}

#[test]
fn color_multiply_channelwise() {
    let a = ColorVector::new(FX_ONE, 32768, 0);
    let b = ColorVector::new(32768, 32768, FX_ONE);
    assert_eq!(a.multiply(b), ColorVector::new(32768, 16384, 0));
}

#[test]
fn parse_u32_accepts_digits() {
    assert_eq!(parse_u32_bytes(b"42"), Some(42));
    assert_eq!(parse_u32_bytes(b"0"), Some(0));
    assert_eq!(parse_u32_bytes(b"4294967295"), Some(u32::MAX));
}

#[test]
fn parse_u32_rejects_junk() {
    assert_eq!(parse_u32_bytes(b""), None);
    assert_eq!(parse_u32_bytes(b"4x"), None);
    assert_eq!(parse_u32_bytes(b"-4"), None);
    assert_eq!(parse_u32_bytes(b"4294967296"), None);
}

#[test]
fn as_u32_parses() {
    assert_eq!(as_u32("1000"), 1000);
}

#[test]
fn parse_fixed_integer_and_fraction() {
    assert_eq!(parse_fixed_bytes(b"1"), Some(FX_ONE));
    assert_eq!(parse_fixed_bytes(b"3.14"), Some(205783));
    assert_eq!(parse_fixed_bytes(b"-2.5"), Some(-163840));
    assert_eq!(parse_fixed_bytes(b"0.3"), Some(19660));
    assert_eq!(parse_fixed_bytes(b".5"), Some(32768));
    assert_eq!(parse_fixed_bytes(b"2."), Some(2 * FX_ONE));
}

#[test]
fn parse_fixed_rejects_junk() {
    assert_eq!(parse_fixed_bytes(b""), None);
    assert_eq!(parse_fixed_bytes(b"."), None);
    assert_eq!(parse_fixed_bytes(b"-"), None);
    assert_eq!(parse_fixed_bytes(b"1.2.3"), None);
    assert_eq!(parse_fixed_bytes(b"abc"), None);
}

#[test]
fn output_file_path_formats_frame_number() {
    assert_eq!(create_output_file_path(7), "render_7.png");
    assert_eq!(create_output_file_path(0), "render_0.png");
    assert_eq!(create_output_file_path(123), "render_123.png");
}
