use raytracer::hit::{face_axis, nearest_root_in_range};

/// The two roots of a ray's meeting with a sphere, nearer first, if the ray meets it at all.
fn sphere_roots(
    origin: [f64; 3],
    direction: [f64; 3],
    center: [f64; 3],
    radius: f64,
) -> Option<(f64, f64)> {
    let oc = [origin[0] - center[0], origin[1] - center[1], origin[2] - center[2]];
    let a = direction[0] * direction[0] + direction[1] * direction[1] + direction[2] * direction[2];
    let half_b = direction[0] * oc[0] + direction[1] * oc[1] + direction[2] * oc[2];
    let c = oc[0] * oc[0] + oc[1] * oc[1] + oc[2] * oc[2] - radius * radius;
    let discriminant = half_b * half_b - a * c;
    if discriminant < 0.0 {
        return None;
    }
    let sqrtd = discriminant.sqrt();
    Some(((-half_b - sqrtd) / a, (-half_b + sqrtd) / a))
}

#[test]
fn test_root_of_a_ray_through_a_sphere() {
    let (nearer, farther) = sphere_roots([0.0, 0.0, 1.0], [0.0, 0.0, -1.0], [0.0, 0.0, 0.0], 0.5).unwrap();
    assert_eq!((nearer, farther), (0.5, 1.5));
    assert_eq!(nearest_root_in_range(nearer, farther, 0.0, f64::INFINITY), Some(0.5));
}

#[test]
fn test_root_of_a_ray_that_touches_a_sphere() {
    let (nearer, farther) = sphere_roots([0.0, 0.0, 1.0], [0.0, 0.0, -1.0], [0.0, -0.5, 0.0], 0.5).unwrap();
    assert_eq!((nearer, farther), (1.0, 1.0));
    assert_eq!(nearest_root_in_range(nearer, farther, 0.0, f64::INFINITY), Some(1.0));
}

#[test]
fn test_root_of_a_ray_from_inside_a_sphere() {
    let (nearer, farther) = sphere_roots([0.0, 0.0, 0.0], [0.0, 0.0, -1.0], [0.0, 0.0, 0.0], 0.5).unwrap();
    assert_eq!((nearer, farther), (-0.5, 0.5));
    assert_eq!(nearest_root_in_range(nearer, farther, 0.0, f64::INFINITY), Some(0.5));
}

#[test]
fn test_root_of_a_ray_from_the_surface_of_the_unit_sphere() {
    let (nearer, farther) = sphere_roots([0.0, 0.0, 1.0], [0.0, 0.0, -1.0], [0.0, 0.0, 0.0], 1.0).unwrap();
    assert_eq!((nearer, farther), (0.0, 2.0));
    // With no margin the ray meets the sphere where it starts.
    assert_eq!(nearest_root_in_range(nearer, farther, 0.0, f64::INFINITY), Some(0.0));
    // With a margin it meets the far side.
    assert_eq!(nearest_root_in_range(nearer, farther, 0.001, f64::INFINITY), Some(2.0));
}

#[test]
fn test_no_root_behind_the_ray() {
    let (nearer, farther) = sphere_roots([0.0, 0.0, 1.0], [0.0, 0.0, 1.0], [0.0, 0.0, 0.0], 0.5).unwrap();
    assert_eq!((nearer, farther), (-1.5, -0.5));
    assert_eq!(nearest_root_in_range(nearer, farther, 0.0, f64::INFINITY), None);
}

#[test]
fn test_root_beyond_the_nearest_hit_so_far() {
    assert_eq!(nearest_root_in_range(0.5, 1.5, 0.0, 0.4), None);
    assert_eq!(nearest_root_in_range(0.5, 1.5, 0.0, 1.0), Some(0.5));
    assert_eq!(nearest_root_in_range(0.5, 1.5, 0.6, 1.0), None);
    assert_eq!(nearest_root_in_range(0.5, 1.5, 0.6, 2.0), Some(1.5));
    assert_eq!(nearest_root_in_range(0.5, 1.5, 1.6, 2.0), None);
}

#[test]
fn test_root_on_a_bound_is_in_range() {
    assert_eq!(nearest_root_in_range(0.5, 1.5, 0.5, 1.0), Some(0.5));
    assert_eq!(nearest_root_in_range(0.5, 1.5, 0.0, 0.5), Some(0.5));
    assert_eq!(nearest_root_in_range(0.5, 1.5, 1.0, 1.5), Some(1.5));
    assert_eq!(nearest_root_in_range(0.5, 1.5, 1.5, 1.5), Some(1.5));
}

#[test]
fn test_root_prefers_the_nearer_one() {
    assert_eq!(nearest_root_in_range(2, 5, 0, 10), Some(2));
    assert_eq!(nearest_root_in_range(2, 5, 3, 10), Some(5));
    assert_eq!(nearest_root_in_range(2, 5, 6, 10), None);
    assert_eq!(nearest_root_in_range(2, 5, 0, 1), None);
    // The roots are taken as they are named, whatever their order.
    assert_eq!(nearest_root_in_range(5, 2, 0, 10), Some(5));
}

#[test]
fn test_root_that_compares_with_nothing_is_not_outside() {
    let root = nearest_root_in_range(f64::NAN, 1.5, 0.0, f64::INFINITY);
    assert!(root.is_some());
    assert!(root.unwrap().is_nan());
    assert_eq!(nearest_root_in_range(-1.0, f64::INFINITY, 0.0, f64::INFINITY), Some(f64::INFINITY));
}

#[test]
fn test_face_axis_of_a_point_on_one_face() {
    assert_eq!(face_axis([true, false, false]), Some(0));
    assert_eq!(face_axis([false, true, false]), Some(1));
    assert_eq!(face_axis([false, false, true]), Some(2));
}

#[test]
fn test_face_axis_on_edges_and_corners() {
    assert_eq!(face_axis([true, true, false]), Some(0));
    assert_eq!(face_axis([true, false, true]), Some(0));
    assert_eq!(face_axis([false, true, true]), Some(1));
    assert_eq!(face_axis([true, true, true]), Some(0));
}

#[test]
fn test_face_axis_off_the_surface() {
    assert_eq!(face_axis([false, false, false]), None);
}

#[test]
fn test_face_axis_of_points_of_a_box() {
    // The box from (-1, -1, -1) to (1, 1, 1).
    let on_face = |point: [f64; 3]| {
        let near = |x: f64| (x - -1.0).abs() < 0.000001 || (x - 1.0).abs() < 0.000001;
        [near(point[0]), near(point[1]), near(point[2])]
    };
    assert_eq!(face_axis(on_face([0.0, 0.5, 1.0])), Some(2));
    assert_eq!(face_axis(on_face([0.0, 0.5, -1.0])), Some(2));
    assert_eq!(face_axis(on_face([0.0, 1.0, 0.5])), Some(1));
    assert_eq!(face_axis(on_face([0.0, -1.0, 0.5])), Some(1));
    assert_eq!(face_axis(on_face([1.0, 0.0, 0.5])), Some(0));
    assert_eq!(face_axis(on_face([-1.0, 0.0, 0.5])), Some(0));
    assert_eq!(face_axis(on_face([1.0, 1.0, 1.0])), Some(0));
    assert_eq!(face_axis(on_face([0.0, 0.0, 0.0])), None);
}
