use smallpt::hit::Hit;
use smallpt::material::{Material, BSDF};
use smallpt::plane::Plane;
use smallpt::rectangle::Rectangle;
use smallpt::scalar::Scalar;
use smallpt::scene::EPSILON_BITS;
use smallpt::sphere::{Sphere, SPHERE_OFFSET_BITS};
use smallpt::triangle::{Bounds, Triangle, NEG_INFINITY_BITS};
use smallpt::vector::Float3;

type V = [f32; 3];

fn scalar(value: f32) -> Scalar {
    Scalar::from_bits(value.to_bits())
}

fn value(s: Scalar) -> f32 {
    f32::from_bits(s.to_bits())
}

fn vector(v: V) -> Float3 {
    Float3::new(scalar(v[0]), scalar(v[1]), scalar(v[2]))
}

fn sub(a: V, b: V) -> V {
    [a[0] - b[0], a[1] - b[1], a[2] - b[2]]
}

fn dot(a: V, b: V) -> f32 {
    a[0] * b[0] + a[1] * b[1] + a[2] * b[2]
}

fn cross(a: V, b: V) -> V {
    [a[1] * b[2] - a[2] * b[1], a[2] * b[0] - a[0] * b[2], a[0] * b[1] - a[1] * b[0]]
}

fn along(origin: V, direction: V, t: f32) -> V {
    [origin[0] + direction[0] * t, origin[1] + direction[1] * t, origin[2] + direction[2] * t]
}

fn lamp() -> Material {
    Material::new(vector([12.0, 12.0, 12.0]), vector([0.0, 0.0, 0.0]), BSDF::Diffuse)
}

/// The distance at which a ray meets a sphere, with the arithmetic done here
/// and the choice of the root left to the library.
fn sphere_distance(center: V, radius: f32, origin: V, direction: V) -> Option<f32> {
    let op = sub(center, origin);
    let b = dot(op, direction);
    let det_sqrd = b * b - dot(op, op) + radius * radius;
    let det = det_sqrd.sqrt();
    Sphere::hit_distance(scalar(det_sqrd), scalar(b - det), scalar(b + det)).map(value)
}

/// The distance at which a ray meets a plane.
fn plane_distance(point: V, normal: V, origin: V, direction: V) -> Option<f32> {
    let reversed = [-normal[0], -normal[1], -normal[2]];
    let denom = dot(reversed, direction);
    if Plane::faces(scalar(denom)) {
        Some(dot(reversed, sub(point, origin)) / denom)
    } else {
        None
    }
}

#[test]
fn thresholds_are_the_machine_numbers() {
    assert_eq!(EPSILON_BITS, 1e-6f32.to_bits());
    assert_eq!(SPHERE_OFFSET_BITS, 0.01f32.to_bits());
}

#[test]
fn ray_from_outside_hits_the_near_side_of_a_sphere() {
    let t = sphere_distance([0.0, 0.0, 10.0], 2.0, [0.0, 0.0, 0.0], [0.0, 0.0, 1.0]);
    assert_eq!(t, Some(8.0));
}

#[test]
fn ray_from_inside_hits_the_far_side_of_a_sphere() {
    let t = sphere_distance([0.0, 0.0, 0.0], 2.0, [0.0, 0.0, 1.0], [0.0, 0.0, 1.0]);
    assert_eq!(t, Some(1.0));
    let centred = sphere_distance([0.0, 0.0, 0.0], 16.5, [0.0, 0.0, 0.0], [1.0, 0.0, 0.0]);
    assert_eq!(centred, Some(16.5));
}

#[test]
fn ray_tangent_to_a_sphere_misses() {
    // The ray runs along x at height 2 past a sphere of radius 2: b = 5,
    // op.op = 29, so the discriminant is 25 - 29 + 4 = 0 exactly.
    let t = sphere_distance([5.0, 0.0, 0.0], 2.0, [0.0, 2.0, 0.0], [1.0, 0.0, 0.0]);
    assert_eq!(t, None);
    assert_eq!(Sphere::hit_distance(scalar(0.0), scalar(5.0), scalar(5.0)), None);
    assert_eq!(Sphere::hit_distance(scalar(-0.0), scalar(5.0), scalar(5.0)), None);
}

#[test]
fn ray_past_a_sphere_misses() {
    let t = sphere_distance([5.0, 0.0, 0.0], 2.0, [0.0, 3.0, 0.0], [1.0, 0.0, 0.0]);
    assert_eq!(t, None);
    assert_eq!(Sphere::hit_distance(scalar(-5.0), scalar(f32::NAN), scalar(f32::NAN)), None);
}

#[test]
fn sphere_behind_the_ray_misses() {
    let t = sphere_distance([0.0, 0.0, -10.0], 2.0, [0.0, 0.0, 0.0], [0.0, 0.0, 1.0]);
    assert_eq!(t, None);
}

#[test]
fn sphere_roots_at_the_offset_do_not_count() {
    let offset = 0.01f32;
    assert_eq!(Sphere::hit_distance(scalar(1.0), scalar(offset), scalar(3.0)), Some(scalar(3.0)));
    assert_eq!(Sphere::hit_distance(scalar(1.0), scalar(-1.0), scalar(offset)), None);
    let above = f32::from_bits(offset.to_bits() + 1);
    assert_eq!(
        Sphere::hit_distance(scalar(1.0), scalar(above), scalar(3.0)),
        Some(scalar(above))
    );
    // A discriminant that is no number leaves roots that are none either.
    assert_eq!(Sphere::hit_distance(scalar(f32::NAN), scalar(f32::NAN), scalar(f32::NAN)), None);
}

#[test]
fn sphere_record_fills_the_hit() {
    let sphere = Sphere::new(scalar(2.0), vector([0.0, 0.0, 10.0]), lamp());
    assert_eq!(sphere.radius, scalar(2.0));
    assert_eq!(sphere.position, vector([0.0, 0.0, 10.0]));
    let mut hit = Hit::init();
    hit.b = vector([0.5, 0.25, 0.25]);
    // At the near side the vector from the point to the centre points along
    // the ray, so the normal is flipped.
    sphere.record(
        scalar(8.0),
        vector([0.0, 0.0, 8.0]),
        vector([0.0, 0.0, 1.0]),
        scalar(1.0),
        &mut hit,
    );
    assert_eq!(hit.t, scalar(8.0));
    assert_eq!(hit.p, vector([0.0, 0.0, 8.0]));
    assert_eq!(hit.n, vector([-0.0, -0.0, -1.0]));
    assert_eq!(hit.b, vector([0.5, 0.25, 0.25]));
    assert_eq!(hit.material, lamp());
}

#[test]
fn ray_towards_a_plane_hits_it() {
    let t = plane_distance([0.0, 0.0, 0.0], [0.0, 1.0, 0.0], [0.0, 5.0, 0.0], [0.0, -1.0, 0.0]);
    assert_eq!(t, Some(5.0));
}

#[test]
fn ray_parallel_to_a_plane_misses() {
    let t = plane_distance([0.0, 0.0, 0.0], [0.0, 1.0, 0.0], [0.0, 5.0, 0.0], [1.0, 0.0, 0.0]);
    assert_eq!(t, None);
    assert!(!Plane::faces(scalar(0.0)));
    assert!(!Plane::faces(scalar(1e-6)));
    assert!(!Plane::faces(scalar(1e-7)));
    assert!(!Plane::faces(scalar(f32::NAN)));
    assert!(Plane::faces(scalar(f32::from_bits(1e-6f32.to_bits() + 1))));
}

#[test]
fn ray_away_from_a_plane_misses() {
    let t = plane_distance([0.0, 0.0, 0.0], [0.0, 1.0, 0.0], [0.0, 5.0, 0.0], [0.0, 1.0, 0.0]);
    assert_eq!(t, None);
    assert!(!Plane::faces(scalar(-1.0)));
}

#[test]
fn plane_record_fills_the_hit() {
    let plane = Plane::new(vector([0.0, 0.0, 0.0]), vector([0.0, 1.0, 0.0]), lamp());
    let mut hit = Hit::init();
    plane.record(scalar(5.0), vector([0.0, 0.0, 0.0]), scalar(-1.0), &mut hit);
    assert_eq!(hit.t, scalar(5.0));
    assert_eq!(hit.p, vector([0.0, 0.0, 0.0]));
    assert_eq!(hit.n, vector([0.0, 1.0, 0.0]));
    assert_eq!(hit.b, Float3::zero());
    assert_eq!(hit.material, lamp());
}

fn ceiling_light() -> Rectangle {
    Rectangle::new(
        vector([50.0, 81.5, 50.0]),
        vector([0.0, -1.0, 0.0]),
        vector([1.0, 0.0, 0.0]),
        vector([0.0, 0.0, 1.0]),
        scalar(33.0),
        scalar(33.0),
        lamp(),
    )
}

/// Whether a ray meets the ceiling light, with the arithmetic done here.
fn meets_ceiling_light(origin: V, direction: V) -> bool {
    let center = [50.0, 81.5, 50.0];
    match plane_distance(center, [0.0, -1.0, 0.0], origin, direction) {
        None => false,
        Some(t) => {
            let v = sub(along(origin, direction, t), center);
            Rectangle::within(
                scalar(dot(v, [1.0, 0.0, 0.0])),
                scalar(dot(v, [0.0, 0.0, 1.0])),
                scalar(33.0 * 0.5),
                scalar(33.0 * 0.5),
            )
        }
    }
}

#[test]
fn ray_into_a_rectangle_hits_it() {
    assert!(meets_ceiling_light([50.0, 0.0, 50.0], [0.0, 1.0, 0.0]));
    assert!(meets_ceiling_light([66.5, 0.0, 33.5], [0.0, 1.0, 0.0]));
}

#[test]
fn ray_past_the_bounds_of_a_rectangle_misses() {
    // The supporting plane is hit, the point lies beyond half the width.
    assert!(!meets_ceiling_light([67.0, 0.0, 50.0], [0.0, 1.0, 0.0]));
    assert!(!meets_ceiling_light([33.0, 0.0, 50.0], [0.0, 1.0, 0.0]));
    // Beyond half the height.
    assert!(!meets_ceiling_light([50.0, 0.0, 67.0], [0.0, 1.0, 0.0]));
    assert!(!meets_ceiling_light([50.0, 0.0, 33.0], [0.0, 1.0, 0.0]));
}

#[test]
fn rectangle_bounds_are_inclusive_and_reject_what_is_no_number() {
    assert!(Rectangle::within(scalar(16.5), scalar(-16.5), scalar(16.5), scalar(16.5)));
    assert!(!Rectangle::within(scalar(16.6), scalar(0.0), scalar(16.5), scalar(16.5)));
    assert!(!Rectangle::within(scalar(0.0), scalar(-16.6), scalar(16.5), scalar(16.5)));
    assert!(!Rectangle::within(scalar(f32::NAN), scalar(0.0), scalar(16.5), scalar(16.5)));
    assert!(!Rectangle::within(scalar(0.0), scalar(0.0), scalar(f32::NAN), scalar(16.5)));
}

#[test]
fn rectangle_lies_in_its_plane() {
    let light = ceiling_light();
    let plane = light.plane();
    assert_eq!(plane.position, light.position);
    assert_eq!(plane.normal, light.normal);
    assert_eq!(plane.material, light.material);
    assert_eq!(light.left, vector([1.0, 0.0, 0.0]));
    assert_eq!(light.up, vector([0.0, 0.0, 1.0]));
    assert_eq!(light.width, scalar(33.0));
    assert_eq!(light.height, scalar(33.0));
}

#[test]
fn rectangle_record_keeps_the_distance() {
    let light = ceiling_light();
    let mut hit = Hit::init();
    light.plane().record(scalar(81.5), vector([50.0, 81.5, 50.0]), scalar(-1.0), &mut hit);
    light.record(vector([50.0, 81.5, 50.0]), scalar(-1.0), &mut hit);
    assert_eq!(hit.t, scalar(81.5));
    assert_eq!(hit.p, vector([50.0, 81.5, 50.0]));
    assert_eq!(hit.n, vector([0.0, -1.0, 0.0]));
    assert_eq!(hit.material, lamp());
}

/// The barycentric coordinates and the distance at which a ray meets the
/// plane of a triangle, after Moeller and Trumbore.
fn barycentric(p0: V, p1: V, p2: V, origin: V, direction: V) -> (f32, f32, f32) {
    let p0p1 = sub(p1, p0);
    let p0p2 = sub(p2, p0);
    let pvec = cross(direction, p0p2);
    let det = dot(p0p1, pvec).abs();
    let tvec = sub(origin, p0);
    let u = dot(tvec, pvec) / det;
    let qvec = cross(tvec, p0p1);
    let v = dot(direction, qvec) / det;
    let t = dot(p0p2, qvec) / det;
    (u, v, t)
}

#[test]
fn ray_into_a_triangle_hits_it() {
    let (u, v, t) = barycentric(
        [0.0, 0.0, 0.0],
        [1.0, 0.0, 0.0],
        [0.0, 1.0, 0.0],
        [0.2, 0.2, 1.0],
        [0.0, 0.0, -1.0],
    );
    assert!(Triangle::inside(scalar(u), scalar(v), scalar(u + v)));
    assert_eq!(t.abs(), 1.0);
    assert!(u >= 0.0 && v >= 0.0 && u + v <= 1.0);
}

#[test]
fn ray_past_a_triangle_misses() {
    let (u, v, _) = barycentric(
        [0.0, 0.0, 0.0],
        [1.0, 0.0, 0.0],
        [0.0, 1.0, 0.0],
        [0.8, 0.8, 1.0],
        [0.0, 0.0, -1.0],
    );
    assert!(!Triangle::inside(scalar(u), scalar(v), scalar(u + v)));
}

#[test]
fn triangle_bounds() {
    assert!(Triangle::inside(scalar(0.0), scalar(0.0), scalar(0.0)));
    assert!(Triangle::inside(scalar(1.0), scalar(0.0), scalar(1.0)));
    assert!(Triangle::inside(scalar(0.0), scalar(1.0), scalar(1.0)));
    assert!(Triangle::inside(scalar(-0.0), scalar(-0.0), scalar(-0.0)));
    assert!(!Triangle::inside(scalar(-0.1), scalar(0.5), scalar(0.4)));
    assert!(!Triangle::inside(scalar(1.1), scalar(0.0), scalar(1.1)));
    assert!(!Triangle::inside(scalar(0.5), scalar(-0.1), scalar(0.4)));
    assert!(!Triangle::inside(scalar(0.6), scalar(0.6), scalar(1.2)));
    // A first coordinate that is no number is rejected; the second is only
    // compared against its bounds, which what is no number never breaks.
    assert!(!Triangle::inside(scalar(f32::NAN), scalar(0.1), scalar(f32::NAN)));
    assert!(Triangle::inside(scalar(0.1), scalar(f32::NAN), scalar(f32::NAN)));
}

#[test]
fn triangle_constructors() {
    let p0 = vector([0.0, 0.0, 0.0]);
    let p1 = vector([1.0, 0.0, 0.0]);
    let p2 = vector([0.0, 1.0, 0.0]);
    let face = vector([0.0, 0.0, -1.0]);
    let flat = Triangle::new(p0, p1, p2, face, lamp());
    assert_eq!((flat.p0, flat.p1, flat.p2), (p0, p1, p2));
    assert_eq!((flat.n0, flat.n1, flat.n2), (face, face, face));
    assert_eq!(flat.normal, face);
    assert_eq!(flat.material, lamp());
    let n0 = vector([1.0, 0.0, 0.0]);
    let n1 = vector([0.0, 1.0, 0.0]);
    let n2 = vector([0.0, 0.0, 1.0]);
    let smooth = Triangle::new_ext(p0, p1, p2, n0, n1, n2, face, lamp());
    assert_eq!((smooth.n0, smooth.n1, smooth.n2), (n0, n1, n2));
    assert_eq!(smooth.normal, face);
    assert_eq!(smooth.bounds, flat.bounds);
    assert_eq!(smooth.node_index, 0);
}

#[test]
fn triangle_owns_the_box_around_its_corners() {
    let triangle = Triangle::new(
        vector([20.0, 10.5, 47.0]),
        vector([52.0, 10.5, 47.0]),
        vector([20.0, 42.5, 10.0]),
        vector([0.0, 0.0, 1.0]),
        lamp(),
    );
    assert_eq!(triangle.aabb().min, vector([20.0, 10.5, 10.0]));
    assert_eq!(triangle.aabb().max, vector([52.0, 42.5, 47.0]));
    assert_eq!(triangle.aabb(), triangle.bounds);
}

#[test]
fn triangle_keeps_its_node_index() {
    let mut triangle = Triangle::new(
        vector([0.0, 0.0, 0.0]),
        vector([1.0, 0.0, 0.0]),
        vector([0.0, 1.0, 0.0]),
        vector([0.0, 0.0, 1.0]),
        lamp(),
    );
    assert_eq!(triangle.bh_node_index(), 0);
    let before = triangle;
    triangle.set_bh_node_index(17);
    assert_eq!(triangle.bh_node_index(), 17);
    assert_eq!(triangle.p0, before.p0);
    assert_eq!(triangle.bounds, before.bounds);
    assert_eq!(triangle.material, before.material);
}

#[test]
fn empty_box_lies_inside_out() {
    assert_eq!(NEG_INFINITY_BITS, f32::NEG_INFINITY.to_bits());
    let empty = Bounds::empty();
    assert_eq!(empty.min, vector([f32::INFINITY, f32::INFINITY, f32::INFINITY]));
    assert_eq!(empty.max, vector([f32::NEG_INFINITY, f32::NEG_INFINITY, f32::NEG_INFINITY]));
}

#[test]
fn box_grows_as_the_machine_takes_minimum_and_maximum() {
    let points: Vec<V> = vec![
        [1.0, -2.0, 3.0],
        [-4.0, 5.0, 0.5],
        [0.25, 0.0, -7.0],
        [1e-6, 81.6, 170.0],
        [f32::MAX, f32::MIN, 1.0],
    ];
    let mut grown = Bounds::empty();
    let mut least = [f32::INFINITY; 3];
    let mut greatest = [f32::NEG_INFINITY; 3];
    for point in points {
        grown = grown.grow(&vector(point));
        for axis in 0..3 {
            least[axis] = least[axis].min(point[axis]);
            greatest[axis] = greatest[axis].max(point[axis]);
        }
        assert_eq!(grown.min, vector(least));
        assert_eq!(grown.max, vector(greatest));
    }
    assert_eq!(grown.min, vector([-4.0, f32::MIN, -7.0]));
    assert_eq!(grown.max, vector([f32::MAX, 81.6, 170.0]));
}

#[test]
fn box_ignores_what_is_no_number() {
    let grown = Bounds::empty().grow(&vector([1.0, 2.0, 3.0])).grow(&vector([
        f32::NAN,
        5.0,
        f32::NAN,
    ]));
    assert_eq!(grown.min, vector([1.0, 2.0, 3.0]));
    assert_eq!(grown.max, vector([1.0, 5.0, 3.0]));
}

#[test]
fn triangle_record_fills_the_hit() {
    let face = vector([0.0, 0.0, 1.0]);
    let triangle = Triangle::new(
        vector([0.0, 0.0, 0.0]),
        vector([1.0, 0.0, 0.0]),
        vector([0.0, 1.0, 0.0]),
        face,
        lamp(),
    );
    let mut hit = Hit::init();
    triangle.record(
        scalar(1.0),
        vector([0.2, 0.2, 0.0]),
        vector([0.6, 0.2, 0.2]),
        face,
        scalar(-1.0),
        &mut hit,
    );
    assert_eq!(hit.t, scalar(1.0));
    assert_eq!(hit.p, vector([0.2, 0.2, 0.0]));
    assert_eq!(hit.b, vector([0.6, 0.2, 0.2]));
    assert_eq!(hit.n, face);
    assert_eq!(hit.material, lamp());
    // Seen from behind, the normal is turned round.
    triangle.record(
        scalar(1.0),
        vector([0.2, 0.2, 0.0]),
        vector([0.6, 0.2, 0.2]),
        face,
        scalar(1.0),
        &mut hit,
    );
    assert_eq!(hit.n, vector([-0.0, -0.0, -1.0]));
}
