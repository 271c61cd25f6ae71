use smallpt::camera::Camera;
use smallpt::hit::Hit;
use smallpt::material::{Material, BSDF};
use smallpt::ray::Ray;
use smallpt::scalar::Scalar;
use smallpt::scene::PrimitiveType;
use smallpt::vector::{float3, Float3};

fn scalar(value: f32) -> Scalar {
    Scalar::from_bits(value.to_bits())
}

fn vector(x: f32, y: f32, z: f32) -> Float3 {
    Float3::new(scalar(x), scalar(y), scalar(z))
}

#[test]
fn float3_holds_its_components() {
    let v = vector(1.0, 2.0, 3.0);
    assert_eq!(v.get_x(), scalar(1.0));
    assert_eq!(v.get_y(), scalar(2.0));
    assert_eq!(v.get_z(), scalar(3.0));
    assert_eq!(v.unwrap(), (scalar(1.0), scalar(2.0), scalar(3.0)));
    assert_eq!(float3(scalar(1.0), scalar(2.0), scalar(3.0)), v);
    assert_eq!(Float3::zero(), vector(0.0, 0.0, 0.0));
}

#[test]
fn float3_setters_change_one_component() {
    let mut v = vector(1.0, 2.0, 3.0);
    v.set_x(scalar(4.0));
    assert_eq!(v, vector(4.0, 2.0, 3.0));
    v.set_y(scalar(5.0));
    assert_eq!(v, vector(4.0, 5.0, 3.0));
    v.set_z(scalar(6.0));
    assert_eq!(v, vector(4.0, 5.0, 6.0));
}

#[test]
fn float3_swizzles_rotate() {
    let v = vector(1.0, 2.0, 3.0);
    assert_eq!(v.yzx(), vector(2.0, 3.0, 1.0));
    assert_eq!(v.zxy(), vector(3.0, 1.0, 2.0));
    assert_eq!(v.yzx().zxy(), v);
}

#[test]
fn float3_neg_flips_every_sign() {
    assert_eq!(vector(1.0, -2.0, 0.0).neg(), vector(-1.0, 2.0, -0.0));
    assert_eq!(vector(1.0, -2.0, 0.0).neg().neg(), vector(1.0, -2.0, 0.0));
}

#[test]
fn facing_turns_a_normal_against_the_ray() {
    let normal = vector(0.0, 1.0, 0.0);
    // The ray comes down on the surface: the normal already faces it.
    assert_eq!(normal.facing(scalar(-1.0)), normal);
    // The ray comes from below: the normal is flipped.
    assert_eq!(normal.facing(scalar(1.0)), vector(-0.0, -1.0, -0.0));
    // A grazing ray, and one whose cosine is no number, flip it too.
    assert_eq!(normal.facing(scalar(0.0)), normal.neg());
    assert_eq!(normal.facing(scalar(-0.0)), normal.neg());
    assert_eq!(normal.facing(scalar(f32::NAN)), normal.neg());
}

#[test]
fn materials_black_and_white() {
    let black = Material::black();
    assert_eq!(black.emission, Float3::zero());
    assert_eq!(black.albedo, Float3::zero());
    assert_eq!(black.bsdf, BSDF::Diffuse);
    let white = Material::white();
    assert_eq!(white.emission, Float3::zero());
    assert_eq!(white.albedo, vector(1.0, 1.0, 1.0));
    assert_eq!(white.bsdf, BSDF::Diffuse);
    let glass = Material::new(vector(12.0, 12.0, 12.0), vector(0.75, 0.25, 0.25), BSDF::Glass);
    assert_eq!(glass.emission, vector(12.0, 12.0, 12.0));
    assert_eq!(glass.albedo, vector(0.75, 0.25, 0.25));
    assert_eq!(glass.bsdf, BSDF::Glass);
}

#[test]
fn hit_init_is_infinitely_far() {
    let hit = Hit::init();
    assert_eq!(hit.t.to_bits(), f32::INFINITY.to_bits());
    assert_eq!(hit.p, Float3::zero());
    assert_eq!(hit.n, Float3::zero());
    assert_eq!(hit.b, Float3::zero());
    assert_eq!(hit.material, Material::black());
}

#[test]
fn hit_new_keeps_its_fields() {
    let hit = Hit::new(
        vector(1.0, 2.0, 3.0),
        vector(0.0, 1.0, 0.0),
        scalar(4.5),
        vector(0.6, 0.2, 0.2),
        Material::white(),
    );
    assert_eq!(hit.p, vector(1.0, 2.0, 3.0));
    assert_eq!(hit.n, vector(0.0, 1.0, 0.0));
    assert_eq!(hit.t, scalar(4.5));
    assert_eq!(hit.b, vector(0.6, 0.2, 0.2));
    assert_eq!(hit.material, Material::white());
}

#[test]
fn ray_and_camera_keep_their_fields() {
    let ray = Ray::new(vector(50.0, 50.0, 300.0), vector(0.0, -0.05, -1.0));
    assert_eq!(ray.origin, vector(50.0, 50.0, 300.0));
    assert_eq!(ray.direction, vector(0.0, -0.05, -1.0));
    let camera = Camera::new(
        vector(50.0, 50.0, 200.0),
        vector(0.0, -0.05, -1.0),
        vector(1.0, 0.0, 0.0),
        vector(0.0, 1.0, 0.0),
    );
    assert_eq!(camera.origin, vector(50.0, 50.0, 200.0));
    assert_eq!(camera.forward, vector(0.0, -0.05, -1.0));
    assert_eq!(camera.right, vector(1.0, 0.0, 0.0));
    assert_eq!(camera.up, vector(0.0, 1.0, 0.0));
}

#[test]
fn primitive_types_have_their_codes() {
    assert_eq!(PrimitiveType::Triangle.code(), 0);
    assert_eq!(PrimitiveType::Plane.code(), 1);
    assert_eq!(PrimitiveType::Rectangle.code(), 2);
    assert_eq!(PrimitiveType::Sphere.code(), 3);
}
