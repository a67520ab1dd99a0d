use d6_core::d6::AxisSystem;
use d6_core::d6::Direction;
use d6_core::d6::D6;

const ELEMENTS: [D6; 12] = [
    D6::R0,
    D6::R1,
    D6::R2,
    D6::R3,
    D6::R4,
    D6::R5,
    D6::S0,
    D6::S1,
    D6::S2,
    D6::S3,
    D6::S4,
    D6::S5,
];

const MULTIPLICATION_TABLE: [[D6; 12]; 12] = [
    [D6::R0, D6::R1, D6::R2, D6::R3, D6::R4, D6::R5, D6::S0, D6::S1, D6::S2, D6::S3, D6::S4, D6::S5],
    [D6::R1, D6::R2, D6::R3, D6::R4, D6::R5, D6::R0, D6::S1, D6::S2, D6::S3, D6::S4, D6::S5, D6::S0],
    [D6::R2, D6::R3, D6::R4, D6::R5, D6::R0, D6::R1, D6::S2, D6::S3, D6::S4, D6::S5, D6::S0, D6::S1],
    [D6::R3, D6::R4, D6::R5, D6::R0, D6::R1, D6::R2, D6::S3, D6::S4, D6::S5, D6::S0, D6::S1, D6::S2],
    [D6::R4, D6::R5, D6::R0, D6::R1, D6::R2, D6::R3, D6::S4, D6::S5, D6::S0, D6::S1, D6::S2, D6::S3],
    [D6::R5, D6::R0, D6::R1, D6::R2, D6::R3, D6::R4, D6::S5, D6::S0, D6::S1, D6::S2, D6::S3, D6::S4],
    [D6::S0, D6::S5, D6::S4, D6::S3, D6::S2, D6::S1, D6::R0, D6::R5, D6::R4, D6::R3, D6::R2, D6::R1],
    [D6::S1, D6::S0, D6::S5, D6::S4, D6::S3, D6::S2, D6::R1, D6::R0, D6::R5, D6::R4, D6::R3, D6::R2],
    [D6::S2, D6::S1, D6::S0, D6::S5, D6::S4, D6::S3, D6::R2, D6::R1, D6::R0, D6::R5, D6::R4, D6::R3],
    [D6::S3, D6::S2, D6::S1, D6::S0, D6::S5, D6::S4, D6::R3, D6::R2, D6::R1, D6::R0, D6::R5, D6::R4],
    [D6::S4, D6::S3, D6::S2, D6::S1, D6::S0, D6::S5, D6::R4, D6::R3, D6::R2, D6::R1, D6::R0, D6::R5],
    [D6::S5, D6::S4, D6::S3, D6::S2, D6::S1, D6::S0, D6::R5, D6::R4, D6::R3, D6::R2, D6::R1, D6::R0],
];

#[test]
fn compose_matches_table() {
    for (i, &a) in ELEMENTS.iter().enumerate() {
        for (j, &b) in ELEMENTS.iter().enumerate() {
            assert_eq!(a.compose(b), MULTIPLICATION_TABLE[i][j]);
        }
    }
}

#[test]
fn compose_is_associative() {
    for &a in ELEMENTS.iter() {
        for &b in ELEMENTS.iter() {
            for &c in ELEMENTS.iter() {
                assert_eq!(a.compose(b).compose(c), a.compose(b.compose(c)));
            }
        }
    }
}

#[test]
fn identity_and_inverses() {
    for &a in ELEMENTS.iter() {
        assert_eq!(D6::R0.compose(a), a);
        assert_eq!(a.compose(D6::R0), a);
        assert_eq!(a.compose(a.inverse()), D6::R0);
        assert_eq!(a.inverse().compose(a), D6::R0);
        let mut inverse_count = 0;
        for &b in ELEMENTS.iter() {
            if a.compose(b) == D6::R0 {
                assert_eq!(b, a.inverse());
                inverse_count += 1;
            }
        }
        assert_eq!(inverse_count, 1);
    }
}

#[test]
fn into_triplet_samples() {
    assert_eq!(
        AxisSystem::PosXPosYPosZ.into_triplet(),
        (Direction::PosX, Direction::PosY, Direction::PosZ)
    );
    assert_eq!(
        AxisSystem::NegZPosYPosX.into_triplet(),
        (Direction::NegZ, Direction::PosY, Direction::PosX)
    );
    assert_eq!(
        AxisSystem::PosYNegXPosZ.into_triplet(),
        (Direction::PosY, Direction::NegX, Direction::PosZ)
    );
}

#[test]
fn direction_vectors() {
    assert_eq!(Direction::PosX.into_vec3(), glam::Vec3::X);
    assert_eq!(Direction::PosY.into_vec3(), glam::Vec3::Y);
    assert_eq!(Direction::PosZ.into_vec3(), glam::Vec3::Z);
    assert_eq!(Direction::NegX.into_vec3(), glam::Vec3::NEG_X);
    assert_eq!(Direction::NegY.into_vec3(), glam::Vec3::NEG_Y);
    assert_eq!(Direction::NegZ.into_vec3(), glam::Vec3::NEG_Z);
}

const AXIS_SYSTEMS: [AxisSystem; 24] = [
    AxisSystem::PosXPosYPosZ,
    AxisSystem::NegXNegYPosZ,
    AxisSystem::PosXNegYNegZ,
    AxisSystem::NegXPosYNegZ,
    AxisSystem::PosXPosZNegY,
    AxisSystem::NegXNegZNegY,
    AxisSystem::PosXNegZPosY,
    AxisSystem::NegXPosZPosY,
    AxisSystem::PosYPosZPosX,
    AxisSystem::NegYNegZPosX,
    AxisSystem::PosYNegZNegX,
    AxisSystem::NegYPosZNegX,
    AxisSystem::PosYPosXNegZ,
    AxisSystem::NegYNegXNegZ,
    AxisSystem::PosYNegXPosZ,
    AxisSystem::NegYPosXPosZ,
    AxisSystem::PosZPosXPosY,
    AxisSystem::NegZNegXPosY,
    AxisSystem::PosZNegXNegY,
    AxisSystem::NegZPosXNegY,
    AxisSystem::PosZPosYNegX,
    AxisSystem::NegZNegYNegX,
    AxisSystem::PosZNegYPosX,
    AxisSystem::NegZPosYPosX,
];

#[test]
fn axis_system_matrices_are_orthogonal() {
    for &axis_system in AXIS_SYSTEMS.iter() {
        let m = axis_system.into_mat3();
        let product = m.transpose() * m;
        let identity = glam::Mat3::IDENTITY;
        for c in 0..3 {
            for r in 0..3 {
                assert!(
                    (product.col(c)[r] - identity.col(c)[r]).abs() < 1e-6,
                    "not orthogonal: {:?}",
                    axis_system
                );
            }
        }
        let det = m.determinant();
        assert!(
            (det - 1.0).abs() < 1e-6 || (det + 1.0).abs() < 1e-6,
            "determinant of {:?} is {}",
            axis_system,
            det
        );
    }
}

#[test]
fn axis_system_matrix_columns_are_direction_vectors() {
    for &axis_system in AXIS_SYSTEMS.iter() {
        let m = axis_system.into_mat3();
        let (d0, d1, d2) = axis_system.into_triplet();
        assert_eq!(m.col(0), d0.into_vec3());
        assert_eq!(m.col(1), d1.into_vec3());
        assert_eq!(m.col(2), d2.into_vec3());
    }
}
