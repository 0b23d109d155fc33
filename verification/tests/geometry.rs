//! Projection, rotation and vector arithmetic on concrete values.

use esparia::camera::Camera;
use esparia::camera::pointer_angles;
use esparia::math::Angle;
use esparia::math::Euler;
use esparia::math::div_trunc_i64;
use esparia::math::isqrt;
use esparia::math::mat_rotation;
use esparia::math::vec3_add;
use esparia::math::vec3_cross;
use esparia::math::vec3_dot;
use esparia::math::vec3_len;
use esparia::math::vec3_normalized;
use esparia::math::vec3_rotate_around;
use esparia::math::vec3_sub;
use esparia::types::ONE;
use esparia::types::Point2;
use esparia::types::Vec3;

#[test]
fn projection_sanity_golden() {
    // Camera at the origin, no rotation, screen 300, 200x200 viewport:
    // a point 300 ahead lands exactly at the viewport centre.
    let mut camera = Camera::default();
    camera.orient(Euler::identity());
    camera.put(Vec3::new(0, 0, 0));
    let projected = camera.projected(Vec3::new(0, 0, 300));
    assert_eq!(projected, Some(Point2 { x: 100, y: 100 }));
}

#[test]
fn projection_scales_off_centre_points() {
    let mut camera = Camera::default();
    camera.orient(Euler::identity());
    camera.put(Vec3::new(0, 0, 0));
    // At depth 300 the scale is one: x carries over, offset by 100.
    let projected = camera.projected(Vec3::new(40, -20, 300));
    assert_eq!(projected, Some(Point2 { x: 140, y: 80 }));
    // At depth 600 the scale is one half.
    let projected = camera.projected(Vec3::new(40, -20, 600));
    assert_eq!(projected, Some(Point2 { x: 120, y: 90 }));
}

#[test]
fn projection_behind_camera_is_none() {
    let mut camera = Camera::default();
    camera.orient(Euler::identity());
    camera.put(Vec3::new(0, 0, 0));
    assert_eq!(camera.projected(Vec3::new(0, 0, -5)), None);
    // A point exactly on the camera plane has no projection either.
    assert_eq!(camera.projected(Vec3::new(7, 7, 0)), None);
}

#[test]
fn known_rotation_quarter_turn_about_z() {
    // Rotating (1, 0, 0) by a quarter turn about Z gives (0, 1, 0):
    // the axis convention and sign, pinned on integers.
    let theta = Euler {
        x: Angle::identity(),
        y: Angle::identity(),
        z: Angle::quarter_turn(),
    };
    let m = mat_rotation(theta);
    let turned = vec3_rotate_around(Vec3::new(1, 0, 0), m, Vec3::zero());
    assert_eq!(turned, Vec3::new(0, 1, 0));
}

#[test]
fn quarter_turns_compose_to_half_turn() {
    let q = Angle::quarter_turn();
    let half = q.plus(q);
    assert_eq!(half, Angle { sin: 0, cos: -ONE });
    let theta = Euler {
        x: Angle::identity(),
        y: Angle::identity(),
        z: half,
    };
    let m = mat_rotation(theta);
    let turned = vec3_rotate_around(Vec3::new(1, 0, 0), m, Vec3::zero());
    assert_eq!(turned, Vec3::new(-1, 0, 0));
}

#[test]
fn rotation_about_off_origin_pivot() {
    let theta = Euler {
        x: Angle::identity(),
        y: Angle::identity(),
        z: Angle::quarter_turn(),
    };
    let m = mat_rotation(theta);
    // (2, 0, 0) about pivot (1, 0, 0): offset (1,0,0) turns to (0,1,0),
    // so the point lands at (1, 1, 0).
    let turned = vec3_rotate_around(Vec3::new(2, 0, 0), m, Vec3::new(1, 0, 0));
    assert_eq!(turned, Vec3::new(1, 1, 0));
}

#[test]
fn vector_operations_on_concrete_values() {
    let a = Vec3::new(1, 2, 3);
    let b = Vec3::new(4, -5, 6);
    assert_eq!(vec3_add(a, b), Vec3::new(5, -3, 9));
    assert_eq!(vec3_sub(a, b), Vec3::new(-3, 7, -3));
    assert_eq!(vec3_dot(a, b), 1 * 4 + 2 * -5 + 3 * 6);
    assert_eq!(vec3_cross(Vec3::new(1, 0, 0), Vec3::new(0, 1, 0)), Vec3::new(0, 0, 1));
}

#[test]
fn scale_by_fixed_point_factor() {
    // Scaling by ONE/2 halves each component, truncating toward zero.
    assert_eq!(
        esparia::math::vec3_scale(Vec3::new(10, 20, 30), ONE / 2),
        Vec3::new(5, 10, 15)
    );
    assert_eq!(
        esparia::math::vec3_scale(Vec3::new(3, -3, 0), ONE / 2),
        Vec3::new(1, -1, 0)
    );
    assert_eq!(
        esparia::math::vec3_scale(Vec3::new(7, 7, 7), ONE),
        Vec3::new(7, 7, 7)
    );
}

#[test]
fn length_is_rounded_down_euclidean_norm() {
    assert_eq!(vec3_len(Vec3::new(3, 4, 0)), 5);
    assert_eq!(vec3_len(Vec3::new(0, 0, 0)), 0);
    // sqrt(1 + 1 + 1) rounds down to 1.
    assert_eq!(vec3_len(Vec3::new(1, 1, 1)), 1);
    assert_eq!(vec3_len(Vec3::new(-3, 0, -4)), 5);
}

#[test]
fn normalize_gives_one_scaled_unit_vectors() {
    assert_eq!(vec3_normalized(Vec3::new(0, 0, 7)), Vec3::new(0, 0, ONE));
    assert_eq!(vec3_normalized(Vec3::new(-5, 0, 0)), Vec3::new(-ONE, 0, 0));
    assert_eq!(vec3_normalized(Vec3::new(0, 0, 0)), Vec3::new(0, 0, 0));
    // (3, 4, 0): components 3/5 and 4/5 of ONE.
    assert_eq!(
        vec3_normalized(Vec3::new(3, 4, 0)),
        Vec3::new(600_000, 800_000, 0)
    );
}

#[test]
fn integer_square_root_rounds_down() {
    assert_eq!(isqrt(0), 0);
    assert_eq!(isqrt(1), 1);
    assert_eq!(isqrt(8), 2);
    assert_eq!(isqrt(9), 3);
    assert_eq!(isqrt(1_000_000_000_000_000_000), 1_000_000_000);
    assert_eq!(isqrt(u64::MAX as u128), 4_294_967_295);
}

#[test]
fn truncating_division_rounds_toward_zero() {
    assert_eq!(div_trunc_i64(7, 2), 3);
    assert_eq!(div_trunc_i64(-7, 2), -3);
    assert_eq!(div_trunc_i64(6, 3), 2);
    assert_eq!(div_trunc_i64(-6, 3), -2);
}

#[test]
fn camera_mutators_keep_projection_fresh() {
    let mut camera = Camera::default();
    let theta_before = camera.theta;
    let before = camera.projection;
    // Turning the camera recomputes the projection matrix at once.
    camera.rotate(Euler {
        x: Angle::identity(),
        y: Angle::identity(),
        z: Angle::quarter_turn(),
    });
    assert_ne!(camera.projection, before);
    // Setting the old orientation back restores it.
    camera.orient(theta_before);
    assert_eq!(camera.projection, before);
}

#[test]
fn camera_translate_moves_position() {
    let mut camera = Camera::default();
    camera.put(Vec3::new(10, 20, 30));
    camera.trans(Vec3::new(-10, 5, 0));
    assert_eq!(camera.r, Vec3::new(0, 25, 30));
}

#[test]
fn pointer_mapping_spans_six_by_two_radians() {
    // The centre of the viewport looks straight ahead.
    assert_eq!(pointer_angles(400, 400, 800, 800), (0, 0));
    // The right edge yaws 3 radians; the top edge pitches up 1 radian.
    assert_eq!(pointer_angles(800, 0, 800, 800), (ONE, 3 * ONE));
    // The left edge yaws -3; the bottom edge pitches down 1.
    assert_eq!(pointer_angles(0, 800, 800, 800), (-ONE, -3 * ONE));
}

#[test]
fn camera_resize_sets_viewport() {
    let mut camera = Camera::default();
    camera.resize(800, 600);
    assert_eq!(camera.width, 800);
    assert_eq!(camera.height, 600);
}
