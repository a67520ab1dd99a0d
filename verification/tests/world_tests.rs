use d6_core::anchor::TileAnchor;
use d6_core::anchor::TileAnchorPositionAxis;
use d6_core::anchor::TileAnchorSign;
use d6_core::anchor::TileExternalAnchorAxis;
use d6_core::anchor::TileExternalAnchorPosition;
use d6_core::anchor::TileInternalAnchorPositionAxis;
use d6_core::d6::D6;
use d6_core::fragment::TileFragment;
use d6_core::pga::PivotalMotionTrajectory;
use d6_core::pga::ARC_UNITS_PER_LENGTH;
use d6_core::route::route_list;
use d6_core::route::RouteFamilyInfo;
use d6_core::route::RouteMotionPrimitive;
use d6_core::world::movement_state_synonym;
use d6_core::world::MovementState;
use d6_core::world::Tile;
use d6_core::world::World;
use d6_core::world::WorldCoord;

fn coord(x: i32, y: i32, z: i32) -> WorldCoord {
    WorldCoord { x, y, z }
}

fn tile(fragments: Vec<TileFragment>, action: D6) -> Tile {
    Tile { fragments, action }
}

fn full_plane_fragments() -> Vec<TileFragment> {
    vec![
        TileFragment::TriangleZForeLeft,
        TileFragment::TriangleZForeRight,
        TileFragment::TriangleZSideLeft,
        TileFragment::TriangleZSideRight,
        TileFragment::TriangleZRearLeft,
        TileFragment::TriangleZRearRight,
    ]
}

fn internal_anchor(position: TileInternalAnchorPositionAxis) -> TileAnchor {
    TileAnchor {
        position_axis: TileAnchorPositionAxis::Internal(position),
        sign: TileAnchorSign::Pos,
        stationary: true,
    }
}

fn external_state(
    c: WorldCoord,
    position: TileExternalAnchorPosition,
    stationary: bool,
) -> MovementState {
    MovementState {
        world_coord: c,
        anchor: TileAnchor {
            position_axis: TileAnchorPositionAxis::External(position, TileExternalAnchorAxis::Z),
            sign: TileAnchorSign::Pos,
            stationary,
        },
    }
}

/// The hex-like cluster of plane tiles: the origin plus its six neighbours,
/// each providing all six flat triangles, unrotated.
fn hex_world() -> World {
    let coords = [
        coord(0, 0, 0),
        coord(-1, 1, 0),
        coord(0, -1, 1),
        coord(1, 0, -1),
        coord(0, 1, -1),
        coord(-1, 0, 1),
        coord(1, -1, 0),
    ];
    let mut dict = Vec::new();
    for &c in coords.iter() {
        dict.push((c, tile(full_plane_fragments(), D6::R0)));
    }
    let movement_state = MovementState {
        world_coord: coord(0, 0, 0),
        anchor: internal_anchor(TileInternalAnchorPositionAxis::PlaneForeZ),
    };
    World::new(
        dict,
        movement_state,
        glam::Mat4::from_translation(glam::Vec3::new(1.0, 1.0, 0.0)),
    )
    .expect("in-bounds level data")
}

/// The tiles of the second sample level: a descent over a ladder and arches.
fn adventure_dict() -> Vec<(WorldCoord, Tile)> {
    vec![
        (
            coord(0, 0, 0),
            tile(
                vec![
                    TileFragment::TriangleZSideLeft,
                    TileFragment::TriangleZRearLeft,
                    TileFragment::TriangleZRearRight,
                ],
                D6::R0,
            ),
        ),
        (coord(-1, 0, 1), tile(vec![TileFragment::LadderMajorFace], D6::R1)),
        (
            coord(-2, 0, 2),
            tile(
                vec![
                    TileFragment::TriangleZForeLeft,
                    TileFragment::TriangleZForeRight,
                    TileFragment::TriangleZSideLeft,
                ],
                D6::R0,
            ),
        ),
        (
            coord(-1, -1, 2),
            tile(
                vec![
                    TileFragment::TriangleZSideRight,
                    TileFragment::TriangleZRearLeft,
                    TileFragment::TriangleZRearRight,
                ],
                D6::R0,
            ),
        ),
        (
            coord(-1, -2, 3),
            tile(
                vec![
                    TileFragment::TriangleZForeLeft,
                    TileFragment::TriangleZForeRight,
                    TileFragment::TriangleZSideLeft,
                ],
                D6::R0,
            ),
        ),
        (
            coord(0, -3, 3),
            tile(
                vec![
                    TileFragment::TriangleXRear,
                    TileFragment::TriangleYFore,
                    TileFragment::ArchMinorFace,
                ],
                D6::R2,
            ),
        ),
        (
            coord(1, -3, 2),
            tile(
                vec![
                    TileFragment::TriangleZSideRight,
                    TileFragment::TriangleZRearLeft,
                    TileFragment::TriangleZRearRight,
                ],
                D6::R5,
            ),
        ),
        (coord(1, -2, 1), tile(vec![TileFragment::ArchMajorFace], D6::R2)),
        (
            coord(1, -1, 0),
            tile(
                vec![
                    TileFragment::TriangleZSideRight,
                    TileFragment::TriangleZRearLeft,
                    TileFragment::TriangleZRearRight,
                ],
                D6::R0,
            ),
        ),
    ]
}

/// The second sample level with its authored start anchor.
fn adventure_world() -> World {
    let movement_state = MovementState {
        world_coord: coord(0, 0, 0),
        anchor: internal_anchor(TileInternalAnchorPositionAxis::PlaneForeZ),
    };
    World::new(
        adventure_dict(),
        movement_state,
        glam::Mat4::from_translation(glam::Vec3::new(1.0, 1.0, 0.0)),
    )
    .expect("in-bounds level data")
}

#[test]
fn hex_cluster_exposes_expected_leaves() {
    let world = hex_world();
    let targets = world.next_movement_targets();
    let states: Vec<MovementState> =
        targets.iter().map(|target| target.movement_state).collect();
    let expected = [
        external_state(coord(0, 0, 0), TileExternalAnchorPosition::SideLeft, true),
        external_state(coord(0, 0, 0), TileExternalAnchorPosition::SideRight, true),
        MovementState {
            world_coord: coord(1, 0, -1),
            anchor: internal_anchor(TileInternalAnchorPositionAxis::PlaneRearZ),
        },
        MovementState {
            world_coord: coord(0, 1, -1),
            anchor: internal_anchor(TileInternalAnchorPositionAxis::PlaneRearZ),
        },
    ];
    assert_eq!(states.len(), expected.len(), "states: {:?}", states);
    for e in expected.iter() {
        assert!(states.contains(e), "missing {:?} in {:?}", e, states);
    }
    for target in targets.iter() {
        assert!(target.movement_state.anchor.stationary);
        assert!(!target.pivotal_motions.is_empty());
    }
}

#[test]
fn adventure_world_start_has_no_moves() {
    let world = adventure_world();
    let targets = world.next_movement_targets();
    let states: Vec<MovementState> =
        targets.iter().map(|target| target.movement_state).collect();
    assert_eq!(states.len(), 0, "states: {:?}", states);
}

#[test]
fn adventure_world_rear_anchor_reaches_the_ladder() {
    let rear_start = MovementState {
        world_coord: coord(0, 0, 0),
        anchor: internal_anchor(TileInternalAnchorPositionAxis::PlaneRearZ),
    };
    let world = World::new(adventure_dict(), rear_start, glam::Mat4::IDENTITY)
        .expect("in-bounds level data");
    let targets = world.next_movement_targets();
    let states: Vec<MovementState> =
        targets.iter().map(|target| target.movement_state).collect();
    let expected_leaf_on_ladder = MovementState {
        world_coord: coord(-1, 0, 1),
        anchor: internal_anchor(TileInternalAnchorPositionAxis::LadderMajorFaceX),
    };
    let expected_side_rest =
        external_state(coord(0, 0, 0), TileExternalAnchorPosition::SideLeft, true);
    assert_eq!(states.len(), 2, "states: {:?}", states);
    assert!(states.contains(&expected_leaf_on_ladder), "states: {:?}", states);
    assert!(states.contains(&expected_side_rest), "states: {:?}", states);
}

#[test]
fn synonym_of_external_state() {
    let state = external_state(coord(2, 3, -5), TileExternalAnchorPosition::ForeLeft, false);
    let synonym = movement_state_synonym(state).expect("external anchors have a synonym");
    assert_eq!(synonym.world_coord, coord(3, 3, -6));
    match synonym.anchor.position_axis {
        TileAnchorPositionAxis::External(p, axis) => {
            assert_eq!(p, TileExternalAnchorPosition::RearRight);
            assert_eq!(axis, TileExternalAnchorAxis::Z);
        },
        _ => panic!("synonym must stay external"),
    }
    assert_eq!(synonym.anchor.sign, TileAnchorSign::Pos);
    assert!(!synonym.anchor.stationary);
}

#[test]
fn synonym_of_internal_state_is_none() {
    let state = MovementState {
        world_coord: coord(0, 0, 0),
        anchor: internal_anchor(TileInternalAnchorPositionAxis::PlaneForeZ),
    };
    assert!(movement_state_synonym(state).is_none());
}

#[test]
fn world_new_rejects_out_of_bounds_coordinates() {
    let dict = vec![(coord(2_000_000, 0, 0), tile(full_plane_fragments(), D6::R0))];
    let movement_state = MovementState {
        world_coord: coord(0, 0, 0),
        anchor: internal_anchor(TileInternalAnchorPositionAxis::PlaneForeZ),
    };
    assert!(World::new(dict, movement_state, glam::Mat4::IDENTITY).is_none());

    let far_state = MovementState {
        world_coord: coord(0, -9_999_999, 0),
        anchor: internal_anchor(TileInternalAnchorPositionAxis::PlaneForeZ),
    };
    assert!(World::new(Vec::new(), far_state, glam::Mat4::IDENTITY).is_none());
}

/// A level with exactly one legal move: the start tile's fore-left triangle
/// leads across the edge onto the neighbour's rear docking point.
fn single_move_world() -> World {
    let dict = vec![
        (coord(0, 0, 0), tile(vec![TileFragment::TriangleZForeLeft], D6::R0)),
        (coord(1, 0, -1), tile(vec![TileFragment::TriangleZRearRight], D6::R0)),
    ];
    let movement_state = MovementState {
        world_coord: coord(0, 0, 0),
        anchor: internal_anchor(TileInternalAnchorPositionAxis::PlaneForeZ),
    };
    World::new(
        dict,
        movement_state,
        glam::Mat4::from_translation(glam::Vec3::new(1.0, 1.0, 0.0)),
    )
    .expect("in-bounds level data")
}

/// The conformal projection used by the cursor measurement.
fn conformal(v: glam::Vec3) -> glam::Vec2 {
    let p = glam::Mat3::from_cols(
        glam::Vec3::new(-1.0, 1.0, 0.0).normalize(),
        glam::Vec3::new(-1.0, -1.0, 2.0).normalize(),
        glam::Vec3::new(1.0, 1.0, 1.0).normalize(),
    )
    .transpose();
    let w = p * v;
    glam::Vec2::new(w.x, w.y)
}

#[test]
fn motion_with_cursor_on_player_is_none() {
    let mut world = single_move_world();
    let before = world.movement_state();
    let player_coord = conformal(world.player_transform().transform_point3(glam::Vec3::ZERO));
    assert!(world.motion(player_coord).is_none(), "inside the dead radius there is no move");
    assert_eq!(world.movement_state(), before);
}

#[test]
fn motion_behind_the_player_is_none() {
    let mut world = single_move_world();
    let before = world.movement_state();
    let targets = world.next_movement_targets();
    assert_eq!(targets.len(), 1);
    let player_coord = conformal(world.player_transform().transform_point3(glam::Vec3::ZERO));
    let target_coord = conformal(targets[0].transform.transform_point3(glam::Vec3::ZERO));
    let behind = player_coord + (player_coord - target_coord);
    assert!((behind - player_coord).length() > 1.0, "the fixture cursor is past the dead radius");
    assert!(world.motion(behind).is_none(), "a cursor behind the player selects nothing");
    assert_eq!(world.movement_state(), before);
}

#[test]
fn motion_toward_the_target_commits_it() {
    let mut world = single_move_world();
    let targets = world.next_movement_targets();
    assert_eq!(targets.len(), 1);
    let expected_state = targets[0].movement_state;
    let target_coord = conformal(targets[0].transform.transform_point3(glam::Vec3::ZERO));
    let mut trajectory = world.motion(target_coord).expect("pointing at the move selects it");
    assert_eq!(world.movement_state(), expected_state);
    let total = trajectory.remaining_units().expect("total fits");
    assert!(total > 0);
    assert!(trajectory.consume_distance(total).is_some());
    assert!(trajectory.consume_distance(1).is_none());
}

#[test]
fn depth_limit_is_configurable() {
    let mut world = hex_world();
    world.set_search_depth_limit(0);
    assert_eq!(world.next_movement_targets().len(), 0, "a zero limit disables the search");
    world.set_search_depth_limit(32);
    assert_eq!(world.next_movement_targets().len(), 4);
}

#[test]
fn world_new_rejects_duplicate_coordinates() {
    let dict = vec![
        (coord(0, 0, 0), tile(full_plane_fragments(), D6::R0)),
        (coord(1, 0, -1), tile(full_plane_fragments(), D6::R0)),
        (coord(0, 0, 0), tile(vec![TileFragment::LadderMajorFace], D6::R1)),
    ];
    let movement_state = MovementState {
        world_coord: coord(0, 0, 0),
        anchor: internal_anchor(TileInternalAnchorPositionAxis::PlaneForeZ),
    };
    assert!(World::new(dict, movement_state, glam::Mat4::IDENTITY).is_none());
}

#[test]
fn iter_coords_lists_every_tile() {
    let world = hex_world();
    let coords = world.iter_coords();
    assert_eq!(coords.len(), 7);
    assert!(coords.contains(&coord(0, 0, 0)));
    assert!(coords.contains(&coord(1, -1, 0)));
}

#[test]
fn commit_updates_the_movement_state() {
    let mut world = hex_world();
    let pose_before = world.player_transform();
    let targets = world.next_movement_targets();
    assert!(!targets.is_empty());
    let chosen_state = targets[0].movement_state;
    let mut trajectory = world.commit_movement_target(targets.into_iter().next().unwrap());
    assert_eq!(world.movement_state(), chosen_state);
    assert_eq!(world.player_transform(), pose_before);
    // The committed trajectory plays back to completion.
    let total = trajectory.remaining_units().expect("total fits");
    assert!(total > 0);
    assert!(trajectory.consume_distance(total).is_some());
    assert!(trajectory.consume_distance(1).is_none());
}

#[test]
fn route_table_has_all_variants() {
    let routes = route_list();
    assert_eq!(routes.len(), 80);
    let mut stationary_initial = 0;
    for route in routes.iter() {
        if route.initial_anchor.stationary {
            stationary_initial += 1;
        }
    }
    // The 40 backward variants start at internal (always resting) anchors;
    // the forward variants of the ten extended families (two flips each)
    // start at resting external anchors.
    assert_eq!(stationary_initial, 40 + 20);
}

#[test]
fn route_of_a_family_resolves_the_anchors() {
    let family = RouteFamilyInfo {
        motion_primitive: RouteMotionPrimitive::Plane,
        axis_system: d6_core::d6::AxisSystem::PosYNegXPosZ,
        external_position: TileExternalAnchorPosition::ForeLeft,
        internal_position_axis: TileInternalAnchorPositionAxis::PlaneForeZ,
        fragments_requirement: vec![TileFragment::TriangleZForeLeft],
    };
    let forward = family.route(false, false);
    assert_eq!(
        forward.initial_anchor,
        TileAnchor {
            position_axis: TileAnchorPositionAxis::External(
                TileExternalAnchorPosition::ForeLeft,
                TileExternalAnchorAxis::Z,
            ),
            sign: TileAnchorSign::Pos,
            stationary: false,
        }
    );
    assert_eq!(
        forward.terminal_anchor,
        TileAnchor {
            position_axis: TileAnchorPositionAxis::Internal(
                TileInternalAnchorPositionAxis::PlaneForeZ,
            ),
            sign: TileAnchorSign::Pos,
            stationary: true,
        }
    );
    let backward_flipped = family.route(true, true);
    assert_eq!(backward_flipped.initial_anchor.sign, TileAnchorSign::Neg);
    assert!(backward_flipped.initial_anchor.stationary);
    assert_eq!(
        backward_flipped.terminal_anchor.position_axis,
        TileAnchorPositionAxis::External(
            TileExternalAnchorPosition::ForeLeft,
            TileExternalAnchorAxis::Z,
        )
    );
    assert_eq!(backward_flipped.fragments_requirement, vec![TileFragment::TriangleZForeLeft]);
}

#[test]
fn test() {
    let world = hex_world();
    world.next_movement_targets().into_iter().for_each(|movement_target| {
        println!("{:?}", movement_target.movement_state);
        let mut pivotal_motion_path =
            PivotalMotionTrajectory::from_pivotal_motions(movement_target.pivotal_motions);
        let step = (0.4 * ARC_UNITS_PER_LENGTH as f64) as u64;
        while let Some(transform) = pivotal_motion_path.consume_distance(step) {
            println!("{:?}", transform.transform_point3(glam::Vec3::ZERO));
        }
    });
}
