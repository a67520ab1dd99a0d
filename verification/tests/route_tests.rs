use d6_core::d6::D6;
use d6_core::route::RouteMotionPrimitive;
use d6_core::world::rotation_matrix_from_action;

fn mat4_close(a: glam::Mat4, b: glam::Mat4, tolerance: f32) -> bool {
    let av = a.to_cols_array();
    let bv = b.to_cols_array();
    av.iter().zip(bv.iter()).all(|(x, y)| (x - y).abs() < tolerance)
}

fn mat3_close(a: glam::Mat3, b: glam::Mat3, tolerance: f32) -> bool {
    let av = a.to_cols_array();
    let bv = b.to_cols_array();
    av.iter().zip(bv.iter()).all(|(x, y)| (x - y).abs() < tolerance)
}

#[test]
fn plane_stem_is_a_unit_advance() {
    // Flat slope and no bend: the canonical stem is a pure unit translation
    // along Y.
    let pose = RouteMotionPrimitive::Plane.pivot_motion(false, false).target();
    let expected = glam::Mat4::from_translation(glam::Vec3::new(0.0, 1.0, 0.0));
    assert!(mat4_close(pose, expected, 1e-5), "pose: {:?}", pose);
}

#[test]
fn ladder_stem_rises_while_advancing() {
    // Unit slope and no bend: the canonical stem translates one unit along Y
    // and one along Z.
    let pose = RouteMotionPrimitive::Ladder.pivot_motion(false, false).target();
    let expected = glam::Mat4::from_translation(glam::Vec3::new(0.0, 1.0, 1.0));
    assert!(mat4_close(pose, expected, 1e-5), "pose: {:?}", pose);
}

#[test]
fn arch_stem_bends_by_the_authored_angle() {
    // The arch bends pi/4 around X while advancing: the pose must stay rigid
    // and rotate the Y axis halfway toward Z.
    let pose = RouteMotionPrimitive::Arch.pivot_motion(false, false).target();
    let rotation = glam::Mat3::from_mat4(pose);
    assert!((rotation.determinant() - 1.0).abs() < 1e-4);
    let turned = rotation * glam::Vec3::Y;
    let expected = glam::Vec3::new(0.0, 0.5_f32.sqrt(), 0.5_f32.sqrt());
    assert!((turned - expected).length() < 1e-4, "turned: {:?}", turned);
    let origin_image = pose.transform_point3(glam::Vec3::ZERO);
    assert!(origin_image.length() > 0.5, "the arch must advance the origin");
}

#[test]
fn extended_primitives_lead_with_a_branch_translation() {
    let plain = RouteMotionPrimitive::Plane.pivot_motion(false, false).target();
    let extended = RouteMotionPrimitive::PlaneExt.pivot_motion(false, false).target();
    // The extended variant adds one more unit translation along Y.
    let expected = glam::Mat4::from_translation(glam::Vec3::new(0.0, 1.0, 0.0)) * plain;
    assert!(mat4_close(extended, expected, 1e-5));
}

#[test]
fn identity_action_keeps_authored_frames() {
    let m = rotation_matrix_from_action(D6::R0);
    assert!(mat3_close(m, glam::Mat3::IDENTITY, 1e-6));
}

#[test]
fn reflecting_actions_compose_the_fixed_reflection() {
    // R1 maps through the reflection times the PosZPosXPosY axis matrix.
    let reflection = glam::Mat3::from_cols_array_2d(&[
        [-1.0 / 3.0, 2.0 / 3.0, 2.0 / 3.0],
        [2.0 / 3.0, -1.0 / 3.0, 2.0 / 3.0],
        [2.0 / 3.0, 2.0 / 3.0, -1.0 / 3.0],
    ]);
    let axis = glam::Mat3::from_cols(glam::Vec3::Z, glam::Vec3::X, glam::Vec3::Y);
    let expected = reflection * axis;
    let m = rotation_matrix_from_action(D6::R1);
    assert!(mat3_close(m, expected, 1e-6), "got {:?}, expected {:?}", m, expected);

    // S0 is a plain axis permutation: the negated transposition frame.
    let s0 = rotation_matrix_from_action(D6::S0);
    let expected_s0 =
        glam::Mat3::from_cols(-glam::Vec3::Y, -glam::Vec3::X, -glam::Vec3::Z);
    assert!(mat3_close(s0, expected_s0, 1e-6));

    // S4 is also a plain (unreflected) frame.
    let s4 = rotation_matrix_from_action(D6::S4);
    let expected_s4 =
        glam::Mat3::from_cols(-glam::Vec3::X, -glam::Vec3::Z, -glam::Vec3::Y);
    assert!(mat3_close(s4, expected_s4, 1e-6));

    // S1 and S3 go through the reflection.
    let s3 = rotation_matrix_from_action(D6::S3);
    let expected_s3 = reflection * expected_s0;
    assert!(mat3_close(s3, expected_s3, 1e-6));
}

#[test]
fn all_action_matrices_are_orthogonal() {
    let elements = [
        D6::R0,
        D6::R1,
        D6::R2,
        D6::R3,
        D6::R4,
        D6::R5,
        D6::S0,
        D6::S1,
        D6::S2,
        D6::S3,
        D6::S4,
        D6::S5,
    ];
    for &action in elements.iter() {
        let m = rotation_matrix_from_action(action);
        let product = m.transpose() * m;
        assert!(mat3_close(product, glam::Mat3::IDENTITY, 1e-5), "action {:?}", action);
        let det = m.determinant();
        assert!((det - 1.0).abs() < 1e-5, "tile symmetries are proper rotations: {:?}", action);
    }
}
