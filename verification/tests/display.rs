use smallpt::display::{pack_rgb, saturate};
use smallpt::scalar::Scalar;
use smallpt::vector::Float3;

fn scalar(value: f32) -> Scalar {
    Scalar::from_bits(value.to_bits())
}

fn vector(x: f32, y: f32, z: f32) -> Float3 {
    Float3::new(scalar(x), scalar(y), scalar(z))
}

#[test]
fn saturate_keeps_what_is_in_range() {
    assert_eq!(saturate(vector(0.0, 0.5, 1.0)), vector(0.0, 0.5, 1.0));
    assert_eq!(saturate(vector(0.25, 0.75, 1e-6)), vector(0.25, 0.75, 1e-6));
}

#[test]
fn saturate_clamps_what_is_out_of_range() {
    assert_eq!(saturate(vector(-1.0, 2.0, 12.0)), vector(0.0, 1.0, 1.0));
    assert_eq!(saturate(vector(f32::NEG_INFINITY, f32::INFINITY, -1e-6)), vector(0.0, 1.0, 0.0));
    assert_eq!(saturate(vector(f32::NAN, 0.5, f32::NAN)), vector(0.0, 0.5, 0.0));
}

#[test]
fn saturate_agrees_with_the_machine() {
    for x in [-3.0f32, -0.5, 0.0, 0.1, 0.5, 0.999, 1.0, 1.001, 7.0, f32::NAN] {
        let clamped = saturate(vector(x, x, x));
        let expected = x.max(0.0).min(1.0);
        assert_eq!(clamped, vector(expected, expected, expected), "{x}");
    }
}

#[test]
fn pack_rgb_places_the_channels() {
    assert_eq!(pack_rgb(0, 0, 0), 0);
    assert_eq!(pack_rgb(255, 255, 255), 0x00ff_ffff);
    assert_eq!(pack_rgb(0xaa, 0xaa, 0xaa), 0x00aa_aaaa);
    assert_eq!(pack_rgb(1, 2, 3), 0x0001_0203);
    assert_eq!(pack_rgb(255, 0, 0), 0x00ff_0000);
    assert_eq!(pack_rgb(0, 255, 0), 0x0000_ff00);
    assert_eq!(pack_rgb(0, 0, 255), 0x0000_00ff);
}
