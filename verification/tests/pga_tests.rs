use d6_core::pga::Pivot;
use d6_core::pga::PivotalMotion;
use d6_core::pga::PivotalMotionTrajectory;
use d6_core::pga::ARC_UNITS_PER_LENGTH;

fn mat4_close(a: glam::Mat4, b: glam::Mat4, tolerance: f32) -> bool {
    let av = a.to_cols_array();
    let bv = b.to_cols_array();
    av.iter().zip(bv.iter()).all(|(x, y)| (x - y).abs() < tolerance)
}

fn length_units(length: f64) -> u64 {
    (length * ARC_UNITS_PER_LENGTH as f64) as u64
}

#[test]
fn motor_chain_stays_rigid() {
    let mut pivots = Vec::new();
    for i in 0..20 {
        match i % 3 {
            0 => pivots.push(Pivot::from_rotation_matrix(glam::Mat3::from_rotation_z(0.3))),
            1 => pivots.push(Pivot::from_rotation_matrix(glam::Mat3::from_rotation_x(-0.7))),
            _ => pivots.push(Pivot::from_translation_vector(glam::Vec3::new(0.5, -0.25, 1.0))),
        }
    }
    let pose = PivotalMotion::from_pivots(pivots).target();
    let rotation = glam::Mat3::from_mat4(pose);
    let product = rotation.transpose() * rotation;
    let identity = glam::Mat3::IDENTITY;
    for c in 0..3 {
        for r in 0..3 {
            assert!(
                (product.col(c)[r] - identity.col(c)[r]).abs() < 1e-5,
                "rotation part drifted from orthonormal: {:?}",
                product
            );
        }
    }
    assert!((rotation.determinant() - 1.0).abs() < 1e-5);
    let bottom = pose.row(3);
    assert!(mat4_close(
        glam::Mat4::from_cols(pose.col(0), pose.col(1), pose.col(2), pose.col(3)),
        pose,
        1e-6
    ));
    assert!((bottom.x).abs() < 1e-5 && (bottom.y).abs() < 1e-5 && (bottom.z).abs() < 1e-5);
    assert!((bottom.w - 1.0).abs() < 1e-5);
}

#[test]
fn pose_composition_is_associative() {
    let p1 = Pivot::from_rotation_matrix(glam::Mat3::from_rotation_z(0.4));
    let p2 = Pivot::from_translation_vector(glam::Vec3::new(1.0, 2.0, -0.5));
    let p3 = Pivot::from_rotation_matrix(glam::Mat3::from_rotation_y(-0.9));
    let m123 = PivotalMotion::from_pivots(vec![p1, p2, p3]).target();
    let m12 = PivotalMotion::from_pivots(vec![p1, p2]).target();
    let m23 = PivotalMotion::from_pivots(vec![p2, p3]).target();
    let m1 = PivotalMotion::from_pivots(vec![p1]).target();
    let m3 = PivotalMotion::from_pivots(vec![p3]).target();
    assert!(mat4_close(m123, m12 * m3, 1e-5));
    assert!(mat4_close(m123, m1 * m23, 1e-5));
    assert!(mat4_close(m12 * m3, m1 * m23, 1e-5));
}

#[test]
fn rewind_twice_restores_target() {
    let p1 = Pivot::from_rotation_matrix(glam::Mat3::from_rotation_z(0.8));
    let p2 = Pivot::from_translation_vector(glam::Vec3::new(0.5, 1.5, 0.0));
    let motion = PivotalMotion::from_pivots(vec![p1, p2])
        .pivotal_local_transform(Pivot::from_rotation_matrix(glam::Mat3::from_rotation_x(0.3)))
        .pivotal_global_transform(Pivot::from_translation_vector(glam::Vec3::new(0.0, 2.0, 0.0)));
    let original_target = motion.duplicate().target();
    let rewound_twice_target = motion.rewind().rewind().target();
    assert!(mat4_close(original_target, rewound_twice_target, 1e-4));
}

#[test]
fn consume_distance_is_exhaustive_and_monotonic() {
    let hop1 = PivotalMotion::from_pivots(vec![Pivot::from_translation_vector(glam::Vec3::new(
        2.0, 0.0, 0.0,
    ))]);
    let hop2 = PivotalMotion::from_pivots(vec![Pivot::from_translation_vector(glam::Vec3::new(
        0.0, 1.0, 0.0,
    ))]);
    let final_target = hop2.duplicate().target();
    let mut trajectory = PivotalMotionTrajectory::from_pivotal_motions(vec![hop1, hop2]);
    let total = trajectory.remaining_units().expect("total fits in u64");
    let expected_total = length_units(3.0);
    assert!(
        (total as i128 - expected_total as i128).abs() < length_units(0.001) as i128,
        "total {} far from {}",
        total,
        expected_total
    );

    let step = length_units(0.4);
    let mut consumed: u64 = 0;
    let mut last_pose = None;
    while consumed + step <= total {
        let before = trajectory.remaining_units().expect("fits");
        let pose = trajectory.consume_distance(step);
        assert!(pose.is_some(), "within the total, a pose is owed");
        last_pose = pose;
        let after = trajectory.remaining_units().expect("fits");
        assert_eq!(before - after, step, "progress must be exactly what was consumed");
        consumed += step;
    }
    let rest = total - consumed;
    let pose = trajectory.consume_distance(rest);
    assert!(pose.is_some(), "consuming exactly the remainder is owed a pose");
    last_pose = pose;
    assert_eq!(trajectory.remaining_units(), Some(0));
    assert!(mat4_close(last_pose.unwrap(), final_target, 1e-3));
    assert!(trajectory.consume_distance(1).is_none(), "beyond the total there is no pose");
    assert!(trajectory.consume_distance(step).is_none());
}

#[test]
fn consume_distance_on_empty_trajectory() {
    let mut empty = PivotalMotionTrajectory::from_pivotal_motions(Vec::new());
    assert_eq!(empty.remaining_units(), Some(0));
    assert!(empty.consume_distance(0).is_none());
    assert!(empty.consume_distance(1).is_none());
}

#[test]
fn zero_arc_pivots_keep_zero_length_segments() {
    // The traveling point sits on the rotation axis, so the measured arc
    // length is zero; the pivot still yields its segment, which playback
    // passes through: a zero request returns the entry pose, any positive
    // request exhausts the trajectory.
    let spin_in_place = PivotalMotion::from_pivots(vec![Pivot::from_rotation_matrix(
        glam::Mat3::from_rotation_z(1.0),
    )]);
    let mut trajectory = PivotalMotionTrajectory::from_pivotal_motions(vec![spin_in_place]);
    assert_eq!(trajectory.remaining_units(), Some(0));
    let entry_pose = trajectory.consume_distance(0).expect("zero progress is within bounds");
    assert!(mat4_close(entry_pose, glam::Mat4::IDENTITY, 1e-6));
    assert!(trajectory.consume_distance(1).is_none());
    assert!(trajectory.consume_distance(0).is_none(), "the trajectory is exhausted");
}

#[test]
fn zero_pivot_is_identity() {
    let pose = PivotalMotion::from_pivots(vec![Pivot::zero()]).target();
    assert!(mat4_close(pose, glam::Mat4::IDENTITY, 1e-6));
}

#[test]
fn translation_pivot_translates() {
    let pose = PivotalMotion::from_pivots(vec![Pivot::from_translation_vector(glam::Vec3::new(
        1.0, -2.0, 3.0,
    ))])
    .target();
    let moved = pose.transform_point3(glam::Vec3::ZERO);
    assert!((moved - glam::Vec3::new(1.0, -2.0, 3.0)).length() < 1e-5);
}

#[test]
fn rotation_pivot_rotates() {
    let matrix = glam::Mat3::from_rotation_z(0.7);
    let pose = PivotalMotion::from_pivots(vec![Pivot::from_rotation_matrix(matrix)]).target();
    let image = pose.transform_point3(glam::Vec3::X);
    let expected = matrix * glam::Vec3::X;
    assert!((image - expected).length() < 1e-5);
}

#[test]
fn plucker_pivot_matches_translation() {
    let via_plucker =
        PivotalMotion::from_pivots(vec![Pivot::from_plucker(glam::Vec3::ZERO, glam::Vec3::Y)])
            .target();
    let via_translation = PivotalMotion::from_pivots(vec![Pivot::from_translation_vector(
        glam::Vec3::Y,
    )])
    .target();
    assert!(mat4_close(via_plucker, via_translation, 1e-6));
}

#[test]
fn corrections_compose_in_application_order() {
    // Later corrections are applied after earlier ones, for both the local
    // (pre) and the global (post) side; the rotations chosen do not commute.
    let p1 = Pivot::from_rotation_matrix(glam::Mat3::from_rotation_z(0.5));
    let p2 = Pivot::from_rotation_matrix(glam::Mat3::from_rotation_x(0.3));
    let expected = glam::Mat4::from_mat3(
        glam::Mat3::from_rotation_x(0.3) * glam::Mat3::from_rotation_z(0.5),
    );

    let local = PivotalMotion::from_pivots(Vec::new())
        .pivotal_local_transform(p1)
        .pivotal_local_transform(p2)
        .target();
    assert!(mat4_close(local, expected, 1e-5), "local: {:?}", local);

    let global = PivotalMotion::from_pivots(Vec::new())
        .pivotal_global_transform(p1)
        .pivotal_global_transform(p2)
        .target();
    assert!(mat4_close(global, expected, 1e-5), "global: {:?}", global);
}
