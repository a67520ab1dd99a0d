use d6_core::anchor::TileAnchor;
use d6_core::anchor::TileAnchorPositionAxis;
use d6_core::anchor::TileAnchorSign;
use d6_core::anchor::TileExternalAnchorAxis;
use d6_core::anchor::TileExternalAnchorPosition;
use d6_core::anchor::TileInternalAnchorPositionAxis;
use d6_core::d6::Direction;
use d6_core::d6::D6;
use d6_core::anchor::TileExternalAnchorPosition as P;

const ELEMENTS: [D6; 12] = [
    D6::R0,
    D6::R1,
    D6::R2,
    D6::R3,
    D6::R4,
    D6::R5,
    D6::S0,
    D6::S1,
    D6::S2,
    D6::S3,
    D6::S4,
    D6::S5,
];

const POSITIONS: [TileExternalAnchorPosition; 6] = [
    TileExternalAnchorPosition::ForeLeft,
    TileExternalAnchorPosition::ForeRight,
    TileExternalAnchorPosition::SideLeft,
    TileExternalAnchorPosition::SideRight,
    TileExternalAnchorPosition::RearLeft,
    TileExternalAnchorPosition::RearRight,
];

const DIRECTIONS: [Direction; 6] = [
    Direction::PosX,
    Direction::PosY,
    Direction::PosZ,
    Direction::NegX,
    Direction::NegY,
    Direction::NegZ,
];

const POSITION_ACTION_TABLE: [[P; 6]; 12] = {
    [
        [P::ForeLeft, P::ForeRight, P::SideLeft, P::SideRight, P::RearLeft, P::RearRight],
        [P::ForeRight, P::SideRight, P::ForeLeft, P::RearRight, P::SideLeft, P::RearLeft],
        [P::SideRight, P::RearRight, P::ForeRight, P::RearLeft, P::ForeLeft, P::SideLeft],
        [P::RearRight, P::RearLeft, P::SideRight, P::SideLeft, P::ForeRight, P::ForeLeft],
        [P::RearLeft, P::SideLeft, P::RearRight, P::ForeLeft, P::SideRight, P::ForeRight],
        [P::SideLeft, P::ForeLeft, P::RearLeft, P::ForeRight, P::RearRight, P::SideRight],
        [P::RearLeft, P::RearRight, P::SideLeft, P::SideRight, P::ForeLeft, P::ForeRight],
        [P::SideLeft, P::RearLeft, P::ForeLeft, P::RearRight, P::ForeRight, P::SideRight],
        [P::ForeLeft, P::SideLeft, P::ForeRight, P::RearLeft, P::SideRight, P::RearRight],
        [P::ForeRight, P::ForeLeft, P::SideRight, P::SideLeft, P::RearRight, P::RearLeft],
        [P::SideRight, P::ForeRight, P::RearRight, P::ForeLeft, P::RearLeft, P::SideLeft],
        [P::RearRight, P::SideRight, P::RearLeft, P::ForeRight, P::SideLeft, P::ForeLeft],
    ]
};

const DIRECTION_ACTION_TABLE: [[Direction; 6]; 12] = {
    [
        [Direction::PosX, Direction::PosY, Direction::PosZ, Direction::NegX, Direction::NegY, Direction::NegZ],
        [Direction::NegZ, Direction::NegX, Direction::NegY, Direction::PosZ, Direction::PosX, Direction::PosY],
        [Direction::PosY, Direction::PosZ, Direction::PosX, Direction::NegY, Direction::NegZ, Direction::NegX],
        [Direction::NegX, Direction::NegY, Direction::NegZ, Direction::PosX, Direction::PosY, Direction::PosZ],
        [Direction::PosZ, Direction::PosX, Direction::PosY, Direction::NegZ, Direction::NegX, Direction::NegY],
        [Direction::NegY, Direction::NegZ, Direction::NegX, Direction::PosY, Direction::PosZ, Direction::PosX],
        [Direction::NegY, Direction::NegX, Direction::NegZ, Direction::PosY, Direction::PosX, Direction::PosZ],
        [Direction::PosX, Direction::PosZ, Direction::PosY, Direction::NegX, Direction::NegZ, Direction::NegY],
        [Direction::NegZ, Direction::NegY, Direction::NegX, Direction::PosZ, Direction::PosY, Direction::PosX],
        [Direction::PosY, Direction::PosX, Direction::PosZ, Direction::NegY, Direction::NegX, Direction::NegZ],
        [Direction::NegX, Direction::NegZ, Direction::NegY, Direction::PosX, Direction::PosZ, Direction::PosY],
        [Direction::PosZ, Direction::PosY, Direction::PosX, Direction::NegZ, Direction::NegY, Direction::NegX],
    ]
};

fn external_anchor(
    position: TileExternalAnchorPosition,
    direction: Direction,
    stationary: bool,
) -> TileAnchor {
    let (sign, axis) = direction.into_tuple();
    TileAnchor {
        position_axis: TileAnchorPositionAxis::External(position, axis),
        sign,
        stationary,
    }
}

#[test]
fn act_matches_position_table() {
    for (gi, &g) in ELEMENTS.iter().enumerate() {
        for (pi, &position) in POSITIONS.iter().enumerate() {
            let anchor = external_anchor(position, Direction::PosZ, false);
            let acted = anchor.act(g);
            let expected_position = POSITION_ACTION_TABLE[gi][pi];
            match acted.position_axis {
                TileAnchorPositionAxis::External(p, _) => assert_eq!(p, expected_position),
                _ => panic!("external anchor became internal"),
            }
        }
    }
}

#[test]
fn act_matches_direction_table() {
    for (gi, &g) in ELEMENTS.iter().enumerate() {
        for (di, &direction) in DIRECTIONS.iter().enumerate() {
            let anchor = external_anchor(TileExternalAnchorPosition::ForeLeft, direction, true);
            let acted = anchor.act(g);
            let expected = DIRECTION_ACTION_TABLE[gi][di];
            match acted.position_axis {
                TileAnchorPositionAxis::External(_, axis) => {
                    assert_eq!(Direction::from_tuple((acted.sign, axis)), expected);
                },
                _ => panic!("external anchor became internal"),
            }
            assert!(acted.stationary);
        }
    }
}

#[test]
fn act_identity_fixes_all_anchors() {
    for &position in POSITIONS.iter() {
        for &direction in DIRECTIONS.iter() {
            let anchor = external_anchor(position, direction, false);
            assert_eq!(anchor.act(D6::R0), anchor);
        }
    }
    let internal = TileAnchor {
        position_axis: TileAnchorPositionAxis::Internal(
            TileInternalAnchorPositionAxis::ArchMajorFaceXY,
        ),
        sign: TileAnchorSign::Neg,
        stationary: true,
    };
    assert_eq!(internal.act(D6::R0), internal);
}

#[test]
fn act_is_a_group_action() {
    for &position in POSITIONS.iter() {
        for &direction in DIRECTIONS.iter() {
            let anchor = external_anchor(position, direction, false);
            for &g in ELEMENTS.iter() {
                for &h in ELEMENTS.iter() {
                    assert_eq!(anchor.act(g).act(h), anchor.act(h.compose(g)));
                }
            }
        }
    }
}

#[test]
fn act_fixes_internal_anchors() {
    for &g in ELEMENTS.iter() {
        let internal = TileAnchor {
            position_axis: TileAnchorPositionAxis::Internal(
                TileInternalAnchorPositionAxis::LadderMinorFaceY,
            ),
            sign: TileAnchorSign::Pos,
            stationary: false,
        };
        assert_eq!(internal.act(g), internal);
    }
}

#[test]
fn direction_tuple_roundtrip() {
    for &direction in DIRECTIONS.iter() {
        assert_eq!(Direction::from_tuple(direction.into_tuple()), direction);
    }
    for &sign in [TileAnchorSign::Pos, TileAnchorSign::Neg].iter() {
        for &axis in [
            TileExternalAnchorAxis::X,
            TileExternalAnchorAxis::Y,
            TileExternalAnchorAxis::Z,
        ]
        .iter()
        {
            assert_eq!(Direction::from_tuple((sign, axis)).into_tuple(), (sign, axis));
        }
    }
}

#[test]
fn sign_xor() {
    assert_eq!(TileAnchorSign::Pos.xor(false), TileAnchorSign::Pos);
    assert_eq!(TileAnchorSign::Pos.xor(true), TileAnchorSign::Neg);
    assert_eq!(TileAnchorSign::Neg.xor(false), TileAnchorSign::Neg);
    assert_eq!(TileAnchorSign::Neg.xor(true), TileAnchorSign::Pos);
}

#[test]
fn offsets_roundtrip_and_negate() {
    for &position in POSITIONS.iter() {
        let offset = position.into_offset();
        assert_eq!(TileExternalAnchorPosition::from_offset(offset), position);
        let opposite = TileExternalAnchorPosition::from_offset((-offset.0, -offset.1, -offset.2));
        let back = opposite.into_offset();
        assert_eq!((-back.0, -back.1, -back.2), offset);
    }
}
