use raytrace::bits::{clamp, le, lt, order_key};
use raytrace::geometry::{closest_hit, front_face, pick_root, Root};
use raytrace::material::{dielectric_bend, metal_scatters, Bend};
use raytrace::trace::{next, start, Bounce, Step};
use raytrace::vector::near_zero;

fn b(x: f32) -> u32 {
    x.to_bits()
}

#[test]
fn order_key_values() {
    assert_eq!(order_key(b(0.0)), 0x8000_0000);
    assert_eq!(order_key(b(-0.0)), 0x8000_0000);
    assert_eq!(order_key(b(1.0)), 0x8000_0000 + 0x3f80_0000);
    assert_eq!(order_key(b(-1.0)), 0x8000_0000 - 0x3f80_0000);
    assert!(order_key(b(-2.0)) < order_key(b(-1.0)));
    assert!(order_key(b(0.25)) < order_key(b(f32::INFINITY)));
}

#[test]
fn comparisons_follow_the_number_line() {
    assert!(lt(b(1.0), b(2.0)));
    assert!(!lt(b(2.0), b(1.0)));
    assert!(lt(b(-3.0), b(-2.5)));
    assert!(lt(b(-1.0), b(1e-30)));
    assert!(!lt(b(0.0), b(-0.0)));
    assert!(le(b(0.0), b(-0.0)));
    assert!(!lt(b(f32::NAN), b(1.0)));
    assert!(!lt(b(1.0), b(f32::NAN)));
    assert!(!le(b(f32::NAN), b(f32::NAN)));
    assert!(lt(b(f32::NEG_INFINITY), b(f32::MIN)));
}

#[test]
fn near_zero_thresholds() {
    assert!(near_zero(b(1e-9), b(0.0), b(0.0)));
    assert!(!near_zero(b(1e-3), b(0.0), b(0.0)));
    assert!(near_zero(b(-1e-9), b(-0.0), b(5e-9)));
    assert!(!near_zero(b(0.0), b(0.0), b(-2e-8)));
    assert!(!near_zero(b(1e-8), b(0.0), b(0.0)));
    assert!(!near_zero(b(f32::NAN), b(0.0), b(0.0)));
}

#[test]
fn near_root_kept_when_in_range() {
    assert_eq!(pick_root(b(0.5), b(1.5), b(0.001), b(f32::INFINITY)), Some(Root::Near));
    assert_eq!(pick_root(b(0.001), b(1.5), b(0.001), b(2.0)), Some(Root::Near));
    assert_eq!(pick_root(b(2.0), b(3.0), b(0.001), b(2.0)), Some(Root::Near));
}

#[test]
fn far_root_when_near_is_behind() {
    assert_eq!(pick_root(b(-0.5), b(0.5), b(0.001), b(f32::INFINITY)), Some(Root::Far));
    assert_eq!(pick_root(b(0.0005), b(4.0), b(0.001), b(10.0)), Some(Root::Far));
}

#[test]
fn no_root_in_range() {
    assert_eq!(pick_root(b(-2.0), b(-1.0), b(0.001), b(f32::INFINITY)), None);
    assert_eq!(pick_root(b(3.0), b(4.0), b(0.001), b(2.5)), None);
}

#[test]
fn front_face_by_sign_of_dot() {
    assert!(front_face(b(-0.5)));
    assert!(!front_face(b(0.5)));
    assert!(!front_face(b(0.0)));
    assert!(!front_face(b(-0.0)));
    assert!(!front_face(b(f32::NAN)));
}

#[test]
fn closest_hit_of_empty_scene() {
    assert_eq!(closest_hit(&vec![]), None);
    assert_eq!(closest_hit(&vec![None, None]), None);
}

#[test]
fn closest_hit_takes_smallest_distance() {
    let hits = vec![Some(b(3.0)), None, Some(b(0.75)), Some(b(1.25))];
    assert_eq!(closest_hit(&hits), Some(2));
    assert_eq!(closest_hit(&vec![None, Some(b(7.0))]), Some(1));
}

#[test]
fn closest_hit_keeps_earliest_of_equal_distances() {
    let hits = vec![None, Some(b(2.0)), Some(b(0.5)), Some(b(0.5)), Some(b(0.6))];
    assert_eq!(closest_hit(&hits), Some(2));
}

#[test]
fn metal_absorbs_rays_fuzzed_into_the_surface() {
    assert!(metal_scatters(b(0.3)));
    assert!(!metal_scatters(b(-0.3)));
    assert!(!metal_scatters(b(0.0)));
    assert!(!metal_scatters(b(f32::NAN)));
}

#[test]
fn clamp_to_interval() {
    assert_eq!(clamp(b(2.0), b(0.0), b(1.0)), b(1.0));
    assert_eq!(clamp(b(-0.5), b(0.0), b(1.0)), b(0.0));
    assert_eq!(clamp(b(0.3), b(0.0), b(1.0)), b(0.3));
    assert_eq!(clamp(b(1.0), b(0.0), b(0.999)), b(0.999));
    assert_eq!(clamp(b(0.5), b(0.0), b(0.999)), b(0.5));
    assert!(f32::from_bits(clamp(b(f32::NAN), b(0.0), b(1.0))).is_nan());
}

#[test]
fn dielectric_reflects_on_total_internal_reflection() {
    assert_eq!(dielectric_bend(b(1.2), b(0.04), b(0.9)), Bend::Reflect);
}

#[test]
fn dielectric_refracts_or_reflects_by_draw() {
    assert_eq!(dielectric_bend(b(0.5), b(0.04), b(0.5)), Bend::Refract);
    assert_eq!(dielectric_bend(b(0.5), b(0.04), b(0.01)), Bend::Reflect);
    assert_eq!(dielectric_bend(b(1.0), b(0.04), b(0.04)), Bend::Refract);
}

#[test]
fn path_with_no_depth_is_black() {
    assert_eq!(start(0), Step::Black);
}

#[test]
fn path_steps() {
    assert_eq!(start(3), Step::Cast { depth: 3 });
    assert_eq!(next(3, Bounce::Missed), Step::Background);
    assert_eq!(next(3, Bounce::Absorbed), Step::Black);
    assert_eq!(next(3, Bounce::Scattered), Step::Cast { depth: 2 });
    assert_eq!(next(1, Bounce::Scattered), Step::Black);
    assert_eq!(next(1, Bounce::Missed), Step::Background);
}

#[test]
fn path_ends_within_its_depth() {
    let mut step = start(4);
    let mut casts = 0;
    while let Step::Cast { depth } = step {
        casts += 1;
        step = next(depth, Bounce::Scattered);
    }
    assert_eq!(casts, 4);
    assert_eq!(step, Step::Black);
}

#[test]
fn sphere_in_front_of_the_camera_is_hit_at_half() {
    // Sphere of radius 0.5 at (0, 0, -1), ray from the origin along -z.
    let (ox, oy, oz) = (0.0f32, 0.0f32, 1.0f32);
    let (dx, dy, dz) = (0.0f32, 0.0f32, -1.0f32);
    let a = dx * dx + dy * dy + dz * dz;
    let half_b = ox * dx + oy * dy + oz * dz;
    let c = ox * ox + oy * oy + oz * oz - 0.25;
    let sqrtd = (half_b * half_b - a * c).sqrt();
    let near = (-half_b - sqrtd) / a;
    let far = (-half_b + sqrtd) / a;
    assert_eq!(pick_root(b(near), b(far), b(0.001), b(f32::INFINITY)), Some(Root::Near));
    assert_eq!(near, 0.5);
    // The hit point (0, 0, -0.5) has outward normal (0, 0, 1), met head-on.
    assert!(front_face(b(dz * 1.0)));
    assert_eq!(closest_hit(&vec![Some(b(near))]), Some(0));
}

#[test]
fn empty_scene_shows_the_background() {
    let step = start(50);
    assert_eq!(step, Step::Cast { depth: 50 });
    let bounce = match closest_hit(&vec![]) {
        None => Bounce::Missed,
        Some(_) => Bounce::Scattered,
    };
    assert_eq!(next(50, bounce), Step::Background);
}
