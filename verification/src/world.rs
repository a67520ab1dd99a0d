//! The tile dictionary, the recursive movement search, and the session state.
//!
//! The planner enumerates, from the player's current anchor, every legal next
//! resting anchor together with the corrected motion chain to reach it. The
//! search is bounded by an explicit depth limit (`SEARCH_DEPTH_LIMIT`), which
//! guarantees termination even on tile data that chains transient anchors in
//! a cycle; authored levels stay far below the limit.

use vstd::prelude::*;

use glam::Vec3Swizzles;

use crate::anchor::spec_from_offset;
use crate::anchor::spec_into_offset;
use crate::anchor::TileAnchor;
use crate::anchor::TileAnchorPositionAxis;
use crate::anchor::TileExternalAnchorPosition;
use crate::d6::AxisSystem;
use crate::d6::D6;
use crate::fragment::fragments_subset;
use crate::fragment::TileFragment;
use crate::geom::axis_cols;
use crate::geom::mat3_of;
use crate::geom::vec3_of;
use crate::pga::Pivot;
use crate::pga::PivotalMotion;
use crate::pga::PivotalMotionTrajectory;
use crate::route::route_block_matches;
use crate::route::route_list;
use crate::route::Route;

verus! {

/// Coordinates of authored tiles stay within this bound; the search may
/// drift at most `SEARCH_DEPTH_LIMIT` steps beyond it.
pub const COORD_LIMIT: i32 = 1048576;

/// Default and upper cap of a session's search depth limit: the number of
/// chained transient anchors the search will follow. Levels are trusted to
/// be acyclic and shallow; the explicit bound makes termination
/// unconditional even on cyclic tile data. Each session carries its own
/// configurable limit up to this cap (`World::set_search_depth_limit`).
pub const SEARCH_DEPTH_LIMIT: u32 = 32;

/// An integer three-axis "cube" coordinate of a tile.
#[derive(Clone, Copy, Debug, PartialEq, Eq, Structural)]
pub struct WorldCoord {
    pub x: i32,
    pub y: i32,
    pub z: i32,
}

/// Whether every component of the coordinate is within `COORD_LIMIT` plus
/// the given slack.
pub open spec fn coord_in_bounds(c: WorldCoord, slack: int) -> bool {
    &&& -(COORD_LIMIT as int) - slack <= c.x as int <= COORD_LIMIT as int + slack
    &&& -(COORD_LIMIT as int) - slack <= c.y as int <= COORD_LIMIT as int + slack
    &&& -(COORD_LIMIT as int) - slack <= c.z as int <= COORD_LIMIT as int + slack
}

/// One tile of the world: the fragments it provides and its orientation.
pub struct Tile {
    pub fragments: Vec<TileFragment>,
    pub action: D6,
}

/// The player's discrete position: a tile coordinate and an anchor on it.
#[derive(Clone, Copy, Debug, PartialEq, Eq, Structural)]
pub struct MovementState {
    pub world_coord: WorldCoord,
    pub anchor: TileAnchor,
}

/// One fully resolved candidate move: the resting state reached, the final
/// pose, and the chain of motions animating the move.
pub struct MovementTarget {
    pub movement_state: MovementState,
    pub transform: glam::Mat4,
    pub pivotal_motions: Vec<PivotalMotion>,
}

/// The same physical attach point seen from the neighbouring tile across the
/// edge: defined for external anchors only; the coordinate moves by the
/// slot's offset and the slot is relabelled to the opposite one.
pub open spec fn spec_synonym(s: MovementState) -> Option<MovementState> {
    match s.anchor.position_axis {
        TileAnchorPositionAxis::Internal(_) => None,
        TileAnchorPositionAxis::External(pos, axis) => {
            let off = spec_into_offset(pos);
            Some(
                MovementState {
                    world_coord: WorldCoord {
                        x: (s.world_coord.x + off.0) as i32,
                        y: (s.world_coord.y + off.1) as i32,
                        z: (s.world_coord.z + off.2) as i32,
                    },
                    anchor: TileAnchor {
                        position_axis: TileAnchorPositionAxis::External(
                            spec_from_offset((-off.0, -off.1, -off.2)),
                            axis,
                        ),
                        sign: s.anchor.sign,
                        stationary: s.anchor.stationary,
                    },
                },
            )
        },
    }
}

/// The synonym of a movement state, or `None` for internal anchors.
pub fn movement_state_synonym(movement_state: MovementState) -> (r: Option<MovementState>)
    requires
        coord_in_bounds(movement_state.world_coord, 2 * SEARCH_DEPTH_LIMIT as int),
    ensures
        r == spec_synonym(movement_state),
{
    match movement_state.anchor.position_axis {
        TileAnchorPositionAxis::Internal(_) => None,
        TileAnchorPositionAxis::External(pos, axis) => {
            let off = pos.into_offset();
            proof {
                crate::anchor::lemma_opposite_offset(pos);
            }
            let opposite = TileExternalAnchorPosition::from_offset((-off.0, -off.1, -off.2));
            Some(
                MovementState {
                    world_coord: WorldCoord {
                        x: movement_state.world_coord.x + off.0,
                        y: movement_state.world_coord.y + off.1,
                        z: movement_state.world_coord.z + off.2,
                    },
                    anchor: TileAnchor {
                        position_axis: TileAnchorPositionAxis::External(opposite, axis),
                        sign: movement_state.anchor.sign,
                        stationary: movement_state.anchor.stationary,
                    },
                },
            )
        },
    }
}

/// Whether every tile coordinate of the dictionary is within `COORD_LIMIT`.
pub open spec fn dict_coords_bounded(dict: Seq<(WorldCoord, Tile)>) -> bool {
    forall|i: int| 0 <= i < dict.len() ==> coord_in_bounds((#[trigger] dict[i]).0, 0)
}

/// Whether no two entries of the dictionary share a coordinate.
pub open spec fn dict_keys_distinct(dict: Seq<(WorldCoord, Tile)>) -> bool {
    forall|i: int, j: int|
        0 <= i < j < dict.len() ==> (#[trigger] dict[i]).0 != (#[trigger] dict[j]).0
}

/// Whether some entry of the dictionary has the given coordinate.
pub open spec fn dict_has(dict: Seq<(WorldCoord, Tile)>, c: WorldCoord) -> bool {
    exists|i: int| 0 <= i < dict.len() && (#[trigger] dict[i]).0 == c
}

/// The tile at the given coordinate: the first entry that matches.
pub open spec fn spec_lookup(dict: Seq<(WorldCoord, Tile)>, c: WorldCoord) -> Option<Tile>
    decreases dict.len(),
{
    if dict.len() == 0 {
        None
    } else if dict[0].0 == c {
        Some(dict[0].1)
    } else {
        spec_lookup(dict.drop_first(), c)
    }
}

proof fn lemma_spec_lookup_skip(dict: Seq<(WorldCoord, Tile)>, c: WorldCoord, i: int)
    requires
        0 <= i < dict.len(),
        dict[i].0 != c,
    ensures
        spec_lookup(dict.skip(i), c) == spec_lookup(dict.skip(i + 1), c),
{
    assert(dict.skip(i).len() > 0);
    assert(dict.skip(i)[0] == dict[i]);
    assert(dict.skip(i).drop_first() =~= dict.skip(i + 1));
}

/// The tile at the given coordinate: the first entry that matches.
fn lookup_tile<'a>(dict: &'a Vec<(WorldCoord, Tile)>, c: WorldCoord) -> (r: Option<&'a Tile>)
    ensures
        r is Some <==> dict_has(dict@, c),
        r matches Some(t) ==> spec_lookup(dict@, c) == Some(*t),
        r is None ==> spec_lookup(dict@, c) is None,
{
    proof {
        assert(dict@.skip(0) =~= dict@);
    }
    let mut i: usize = 0;
    while i < dict.len()
        invariant
            i <= dict@.len(),
            forall|k: int| 0 <= k < i ==> (#[trigger] dict@[k]).0 != c,
            spec_lookup(dict@, c) == spec_lookup(dict@.skip(i as int), c),
        decreases dict@.len() - i,
    {
        if dict[i].0 == c {
            proof {
                assert(dict@.skip(i as int)[0] == dict@[i as int]);
            }
            return Some(&dict[i].1);
        }
        proof {
            lemma_spec_lookup_skip(dict@, c, i as int);
        }
        i = i + 1;
    }
    proof {
        assert(dict@.skip(dict@.len() as int).len() == 0);
    }
    None
}

/// The axis system and reflection flag whose product is the rotation matrix
/// of a tile symmetry.
pub open spec fn spec_action_frame(action: D6) -> (AxisSystem, bool) {
    match action {
        D6::R0 => (AxisSystem::PosXPosYPosZ, false),
        D6::R1 => (AxisSystem::PosZPosXPosY, true),
        D6::R2 => (AxisSystem::PosYPosZPosX, false),
        D6::R3 => (AxisSystem::PosXPosYPosZ, true),
        D6::R4 => (AxisSystem::PosZPosXPosY, false),
        D6::R5 => (AxisSystem::PosYPosZPosX, true),
        D6::S0 => (AxisSystem::NegYNegXNegZ, false),
        D6::S1 => (AxisSystem::NegXNegZNegY, true),
        D6::S2 => (AxisSystem::NegZNegYNegX, false),
        D6::S3 => (AxisSystem::NegYNegXNegZ, true),
        D6::S4 => (AxisSystem::NegXNegZNegY, false),
        D6::S5 => (AxisSystem::NegZNegYNegX, true),
    }
}

/// The column-major entries of the fixed reflection matrix (entries of
/// `2*J - 3*I`, where `J` is all ones) multiplied with the given column-major
/// integer matrix.
pub open spec fn refl_times(b: Seq<int>) -> Seq<int> {
    seq![
        2 * (b[0] + b[1] + b[2]) - 3 * b[0],
        2 * (b[0] + b[1] + b[2]) - 3 * b[1],
        2 * (b[0] + b[1] + b[2]) - 3 * b[2],
        2 * (b[3] + b[4] + b[5]) - 3 * b[3],
        2 * (b[3] + b[4] + b[5]) - 3 * b[4],
        2 * (b[3] + b[4] + b[5]) - 3 * b[5],
        2 * (b[6] + b[7] + b[8]) - 3 * b[6],
        2 * (b[6] + b[7] + b[8]) - 3 * b[7],
        2 * (b[6] + b[7] + b[8]) - 3 * b[8],
    ]
}

/// The column-major integer entries of the rotation matrix of a tile
/// symmetry, over the denominator `spec_action_den`.
pub open spec fn spec_action_cols(action: D6) -> Seq<int> {
    let (axis_system, reflect) = spec_action_frame(action);
    if reflect {
        refl_times(axis_cols(axis_system))
    } else {
        axis_cols(axis_system)
    }
}

/// The denominator of the rotation matrix of a tile symmetry.
pub open spec fn spec_action_den(action: D6) -> int {
    if spec_action_frame(action).1 {
        3
    } else {
        1
    }
}

/// The axis system and reflection flag of a tile symmetry.
fn action_frame(action: D6) -> (r: (AxisSystem, bool))
    ensures
        r == spec_action_frame(action),
{
    match action {
        D6::R0 => (AxisSystem::PosXPosYPosZ, false),
        D6::R1 => (AxisSystem::PosZPosXPosY, true),
        D6::R2 => (AxisSystem::PosYPosZPosX, false),
        D6::R3 => (AxisSystem::PosXPosYPosZ, true),
        D6::R4 => (AxisSystem::PosZPosXPosY, false),
        D6::R5 => (AxisSystem::PosYPosZPosX, true),
        D6::S0 => (AxisSystem::NegYNegXNegZ, false),
        D6::S1 => (AxisSystem::NegXNegZNegY, true),
        D6::S2 => (AxisSystem::NegZNegYNegX, false),
        D6::S3 => (AxisSystem::NegYNegXNegZ, true),
        D6::S4 => (AxisSystem::NegXNegZNegY, false),
        D6::S5 => (AxisSystem::NegZNegYNegX, true),
    }
}

/// The rotation matrix by which a tile's symmetry orients authored geometry:
/// the axis-system matrix of the symmetry's frame, composed with the fixed
/// reflection for the reflecting elements.
#[verifier::rlimit(50)]
pub fn rotation_matrix_from_action(action: D6) -> (r: glam::Mat3)
    ensures
        r == mat3_of(spec_action_cols(action), spec_action_den(action)),
{
    let (axis_system, reflect) = action_frame(action);
    let (d0, d1, d2) = axis_system.into_triplet();
    let (c0, c1, c2) = (d0.components(), d1.components(), d2.components());
    let b: [i32; 9] = [c0.0, c0.1, c0.2, c1.0, c1.1, c1.2, c2.0, c2.1, c2.2];
    proof {
        assert(b@.map_values(|c: i32| c as int) =~= axis_cols(axis_system));
    }
    if reflect {
        let s0 = b[0] + b[1] + b[2];
        let s1 = b[3] + b[4] + b[5];
        let s2 = b[6] + b[7] + b[8];
        let arr: [i32; 9] = [
            2 * s0 - 3 * b[0],
            2 * s0 - 3 * b[1],
            2 * s0 - 3 * b[2],
            2 * s1 - 3 * b[3],
            2 * s1 - 3 * b[4],
            2 * s1 - 3 * b[5],
            2 * s2 - 3 * b[6],
            2 * s2 - 3 * b[7],
            2 * s2 - 3 * b[8],
        ];
        let r = crate::geom::mat3_from_rational(&arr, 3);
        proof {
            assert(arr@.map_values(|c: i32| c as int) =~= refl_times(axis_cols(axis_system)));
        }
        r
    } else {
        crate::geom::mat3_from_rational(&b, 1)
    }
}

/// The world-space position of a tile coordinate: each tile spans two units.
pub fn world_coord_as_vec3(c: WorldCoord) -> (r: glam::Vec3)
    requires
        coord_in_bounds(c, 2 * SEARCH_DEPTH_LIMIT as int),
    ensures
        r == vec3_of(2 * c.x as int, 2 * c.y as int, 2 * c.z as int),
{
    crate::geom::vec3_from_i32(2 * c.x, 2 * c.y, 2 * c.z)
}

/// What the planner guarantees of every candidate move it returns from the
/// state `from`: the reached anchor is a resting anchor, the move is not a
/// no-op back to `from` or its synonym, at least one motion animates it, and
/// its coordinate is a tile coordinate, so it is within `COORD_LIMIT`.
pub open spec fn target_ok(t: MovementTarget, from: MovementState) -> bool {
    &&& t.movement_state.anchor.stationary
    &&& t.movement_state != from
    &&& (spec_synonym(from) matches Some(s) ==> t.movement_state != s)
    &&& t.pivotal_motions@.len() >= 1
    &&& coord_in_bounds(t.movement_state.world_coord, 0)
}

/// Whether the route applies on the given tile to the given initial state,
/// producing the given terminal state: the tile provides the required
/// fragments, the route's initial anchor oriented by the tile's symmetry is
/// the state's anchor, and the terminal state is the oriented terminal anchor
/// at the same coordinate.
pub open spec fn route_applies(
    route: Route,
    tile: Tile,
    initial: MovementState,
    terminal: MovementState,
) -> bool {
    &&& crate::fragment::spec_fragments_subset(route.fragments_requirement@, tile.fragments@)
    &&& crate::anchor::spec_anchor_act(route.initial_anchor, tile.action) == initial.anchor
    &&& terminal.world_coord == initial.world_coord
    &&& terminal.anchor == crate::anchor::spec_anchor_act(route.terminal_anchor, tile.action)
}

/// Whether one hop of the search leads from `initial` to `terminal`: the
/// dictionary has a tile at `initial`'s coordinate and some route applies.
pub open spec fn hop_to(
    dict: Seq<(WorldCoord, Tile)>,
    routes: Seq<Route>,
    initial: MovementState,
    terminal: MovementState,
) -> bool {
    match spec_lookup(dict, initial.world_coord) {
        None => false,
        Some(tile) => exists|ri: int|
            0 <= ri < routes.len() && route_applies(#[trigger] routes[ri], tile, initial, terminal),
    }
}

/// Whether `initial` is one of the states the search starts a hop from when
/// standing at `from`: the state itself or its synonym.
pub open spec fn from_initial(from: MovementState, initial: MovementState) -> bool {
    initial == from || spec_synonym(from) == Some(initial)
}

/// Whether a found leaf survives the no-op filter at `from`: it is neither
/// `from` itself nor `from`'s synonym.
pub open spec fn passes_filter(from: MovementState, leaf: MovementState) -> bool {
    leaf != from && (spec_synonym(from) matches Some(y) ==> leaf != y)
}

/// The search relation of the planner: `leaf` is among the resting states
/// that the bounded search reports from `from`. One hop is taken from `from`
/// or its synonym; a resting terminal anchor is a leaf, a transient one is
/// searched further with one unit of fuel less; leaves equal to `from` or
/// its synonym are dropped.
pub open spec fn reaches(
    dict: Seq<(WorldCoord, Tile)>,
    routes: Seq<Route>,
    from: MovementState,
    leaf: MovementState,
    fuel: nat,
) -> bool
    decreases fuel,
{
    &&& fuel > 0
    &&& passes_filter(from, leaf)
    &&& exists|initial: MovementState, terminal: MovementState|
        {
            &&& #[trigger] hop_to(dict, routes, initial, terminal)
            &&& from_initial(from, initial)
            &&& if terminal.anchor.stationary {
                leaf == terminal
            } else {
                reaches(dict, routes, terminal, leaf, (fuel - 1) as nat)
            }
        }
}

/// Whether `leaf` is reported for a hop that ended at `terminal`: a resting
/// terminal is itself the leaf, a transient one is searched further.
pub open spec fn leaf_via(
    dict: Seq<(WorldCoord, Tile)>,
    routes: Seq<Route>,
    terminal: MovementState,
    leaf: MovementState,
    subfuel: nat,
) -> bool {
    if terminal.anchor.stationary {
        leaf == terminal
    } else {
        reaches(dict, routes, terminal, leaf, subfuel)
    }
}

/// Whether one hop of the search leads from `initial` to `terminal` by the
/// specific route `ri`.
pub open spec fn hop_with_route(
    dict: Seq<(WorldCoord, Tile)>,
    routes: Seq<Route>,
    ri: int,
    initial: MovementState,
    terminal: MovementState,
) -> bool {
    &&& 0 <= ri < routes.len()
    &&& match spec_lookup(dict, initial.world_coord) {
        None => false,
        Some(tile) => route_applies(routes[ri], tile, initial, terminal),
    }
}

/// Whether the motion list animates a hop path of the search from `from` to
/// the resting state `leaf`, first hop to last: the head motion carries the
/// pivot list and pre-correction of the route of the first hop, and the tail
/// animates the rest of the path from that hop's terminal state.
pub open spec fn chain_from(
    dict: Seq<(WorldCoord, Tile)>,
    routes: Seq<Route>,
    from: MovementState,
    motions: Seq<PivotalMotion>,
    leaf: MovementState,
    fuel: nat,
) -> bool
    decreases fuel,
{
    &&& fuel > 0
    &&& motions.len() >= 1
    &&& exists|initial: MovementState, terminal: MovementState, ri: int|
        {
            &&& #[trigger] hop_with_route(dict, routes, ri, initial, terminal)
            &&& from_initial(from, initial)
            &&& motions[0].spec_pivots() == routes[ri].pivotal_motion.spec_pivots()
            &&& motions[0].spec_pre() == routes[ri].pivotal_motion.spec_pre()
            &&& if terminal.anchor.stationary {
                motions.len() == 1 && leaf == terminal
            } else {
                chain_from(dict, routes, terminal, motions.drop_first(), leaf, (fuel - 1) as nat)
            }
        }
}

/// `chain_from` reads only the pivot lists and pre-corrections of the
/// motions, so it carries over to an elementwise copy of the chain.
proof fn lemma_chain_from_congruent(
    dict: Seq<(WorldCoord, Tile)>,
    routes: Seq<Route>,
    from: MovementState,
    m1: Seq<PivotalMotion>,
    m2: Seq<PivotalMotion>,
    leaf: MovementState,
    fuel: nat,
)
    requires
        m1.len() == m2.len(),
        forall|i: int|
            0 <= i < m1.len() ==> (#[trigger] m1[i]).spec_pivots() == m2[i].spec_pivots()
                && m1[i].spec_pre() == m2[i].spec_pre(),
        chain_from(dict, routes, from, m1, leaf, fuel),
    ensures
        chain_from(dict, routes, from, m2, leaf, fuel),
    decreases fuel,
{
    let (initial, terminal, ri) = choose|initial: MovementState, terminal: MovementState, ri: int|
        {
            &&& #[trigger] hop_with_route(dict, routes, ri, initial, terminal)
            &&& from_initial(from, initial)
            &&& m1[0].spec_pivots() == routes[ri].pivotal_motion.spec_pivots()
            &&& m1[0].spec_pre() == routes[ri].pivotal_motion.spec_pre()
            &&& if terminal.anchor.stationary {
                m1.len() == 1 && leaf == terminal
            } else {
                chain_from(dict, routes, terminal, m1.drop_first(), leaf, (fuel - 1) as nat)
            }
        };
    if !terminal.anchor.stationary {
        assert(forall|i: int|
            0 <= i < m1.drop_first().len() ==> (#[trigger] m1.drop_first()[i]).spec_pivots()
                == m2.drop_first()[i].spec_pivots() && m1.drop_first()[i].spec_pre()
                == m2.drop_first()[i].spec_pre());
        lemma_chain_from_congruent(
            dict,
            routes,
            terminal,
            m1.drop_first(),
            m2.drop_first(),
            leaf,
            (fuel - 1) as nat,
        );
    }
    assert(hop_with_route(dict, routes, ri, initial, terminal) && from_initial(from, initial)
        && m2[0].spec_pivots() == routes[ri].pivotal_motion.spec_pivots() && m2[0].spec_pre()
        == routes[ri].pivotal_motion.spec_pre() && (if terminal.anchor.stationary {
        m2.len() == 1 && leaf == terminal
    } else {
        chain_from(dict, routes, terminal, m2.drop_first(), leaf, (fuel - 1) as nat)
    }));
}

/// Whether the candidate hop entry is justified: some allowed initial state
/// hops by some route to the candidate's terminal state, and the candidate's
/// stored motion carries that route's pivot list and pre-correction.
pub open spec fn cand_hop_ok(
    dict: Seq<(WorldCoord, Tile)>,
    routes: Seq<Route>,
    initials: Seq<MovementState>,
    c: (MovementState, PivotalMotion),
) -> bool {
    exists|j: int, ri: int|
        0 <= j < initials.len() && #[trigger] hop_with_route(dict, routes, ri, initials[j], c.0)
            && c.1.spec_pivots() == routes[ri].pivotal_motion.spec_pivots() && c.1.spec_pre()
            == routes[ri].pivotal_motion.spec_pre()
}

/// What a continuation found for a hop ending at `terminal` satisfies: a
/// resting terminal is itself the result with no further motions; a
/// transient one is animated by a chain from `terminal`.
pub open spec fn sub_chain_ok(
    dict: Seq<(WorldCoord, Tile)>,
    routes: Seq<Route>,
    terminal: MovementState,
    t: MovementTarget,
    subfuel: nat,
) -> bool {
    if terminal.anchor.stationary {
        t.movement_state == terminal && t.pivotal_motions@.len() == 0
    } else {
        chain_from(dict, routes, terminal, t.pivotal_motions@, t.movement_state, subfuel)
    }
}

/// Whether some candidate hop in the list ends at `terminal`.
pub open spec fn cand_contains(c: Seq<(MovementState, PivotalMotion)>, t: MovementState) -> bool {
    exists|k: int| 0 <= k < c.len() && (#[trigger] c[k]).0 == t
}

/// Whether some reported target rests at `leaf`.
pub open spec fn targets_contain(r: Seq<MovementTarget>, leaf: MovementState) -> bool {
    exists|i: int| 0 <= i < r.len() && (#[trigger] r[i]).movement_state == leaf
}

/// The motion chain of one result: the hop's own motion followed by the
/// continuation's motions, all duplicated.
fn build_chain_motions(motion: &PivotalMotion, sub_motions: &Vec<PivotalMotion>) -> (r: Vec<
    PivotalMotion,
>)
    ensures
        r@.len() == 1 + sub_motions@.len(),
        r@[0].spec_pivots() == motion.spec_pivots(),
        r@[0].spec_pre() == motion.spec_pre(),
        forall|t: int|
            1 <= t < r@.len() ==> (#[trigger] r@[t]).spec_pivots() == sub_motions@[
                t - 1
            ].spec_pivots() && r@[t].spec_pre() == sub_motions@[t - 1].spec_pre(),
{
    let mut motions: Vec<PivotalMotion> = Vec::new();
    motions.push(motion.duplicate());
    let mut k: usize = 0;
    while k < sub_motions.len()
        invariant
            motions@.len() == k + 1,
            k <= sub_motions@.len(),
            motions@[0].spec_pivots() == motion.spec_pivots(),
            motions@[0].spec_pre() == motion.spec_pre(),
            forall|t: int|
                1 <= t < motions@.len() ==> (#[trigger] motions@[t]).spec_pivots() == sub_motions@[
                    t - 1
                ].spec_pivots() && motions@[t].spec_pre() == sub_motions@[t - 1].spec_pre(),
        decreases sub_motions@.len() - k,
    {
        motions.push(sub_motions[k].duplicate());
        k = k + 1;
    }
    motions
}

/// All leaves reachable from the given state: for the state and its synonym,
/// every route of a matching tile whose initial anchor (oriented by the
/// tile's symmetry) equals the state's anchor is followed; resting terminal
/// anchors are leaves, transient ones are searched further with less fuel,
/// and moves resolving back to the start or its synonym are dropped. The
/// reported resting states are exactly those of the `reaches` relation.
#[verifier::loop_isolation(false)]
#[verifier::rlimit(100)]
fn next_movement_targets_from(
    movement_state: MovementState,
    tile_dict: &Vec<(WorldCoord, Tile)>,
    routes: &Vec<Route>,
    fuel: u32,
) -> (r: Vec<MovementTarget>)
    requires
        fuel <= SEARCH_DEPTH_LIMIT,
        coord_in_bounds(movement_state.world_coord, SEARCH_DEPTH_LIMIT as int),
        dict_coords_bounded(tile_dict@),
    ensures
        forall|i: int| 0 <= i < r@.len() ==> target_ok(#[trigger] r@[i], movement_state),
        forall|i: int|
            0 <= i < r@.len() ==> reaches(
                tile_dict@,
                routes@,
                movement_state,
                (#[trigger] r@[i]).movement_state,
                fuel as nat,
            ),
        forall|leaf: MovementState|
            #[trigger] reaches(tile_dict@, routes@, movement_state, leaf, fuel as nat)
                ==> targets_contain(r@, leaf),
        forall|i: int|
            0 <= i < r@.len() ==> chain_from(
                tile_dict@,
                routes@,
                movement_state,
                (#[trigger] r@[i]).pivotal_motions@,
                r@[i].movement_state,
                fuel as nat,
            ),
    decreases fuel,
{
    let mut results: Vec<MovementTarget> = Vec::new();
    if fuel == 0 {
        return results;
    }
    let synonym = movement_state_synonym(movement_state);
    let mut initials: Vec<MovementState> = Vec::new();
    initials.push(movement_state);
    match synonym {
        None => {},
        Some(s) => { initials.push(s) },
    }
    assert(forall|k: int|
        0 <= k < initials@.len() ==> coord_in_bounds(
            (#[trigger] initials@[k]).world_coord,
            SEARCH_DEPTH_LIMIT as int + 1,
        ));
    proof {
        assert forall|initial: MovementState| #[trigger]
            from_initial(movement_state, initial) implies exists|j: int|
                0 <= j < initials@.len() && initials@[j] == initial by {
            if initial == movement_state {
                assert(initials@[0] == initial);
            } else {
                assert(initials@[1] == initial);
            }
        }
    }
    let mut candidates: Vec<(MovementState, PivotalMotion)> = Vec::new();
    let mut ii: usize = 0;
    while ii < initials.len()
        invariant
            ii <= initials@.len(),
            forall|k: int|
                0 <= k < candidates@.len() ==> dict_has(
                    tile_dict@,
                    (#[trigger] candidates@[k]).0.world_coord,
                ),
            forall|k: int|
                0 <= k < candidates@.len() ==> exists|j: int|
                    0 <= j < initials@.len() && hop_to(
                        tile_dict@,
                        routes@,
                        initials@[j],
                        (#[trigger] candidates@[k]).0,
                    ),
            forall|k: int|
                0 <= k < candidates@.len() ==> cand_hop_ok(
                    tile_dict@,
                    routes@,
                    initials@,
                    (#[trigger] candidates@[k]),
                ),
            forall|j: int, terminal: MovementState|
                0 <= j < ii && #[trigger] hop_to(tile_dict@, routes@, initials@[j], terminal)
                    ==> cand_contains(candidates@, terminal),
        decreases initials@.len() - ii,
    {
        let initial = initials[ii];
        let ghost candidates_at_entry = candidates@;
        match lookup_tile(tile_dict, initial.world_coord) {
            None => {
                proof {
                    assert forall|terminal: MovementState|
                        #[trigger] hop_to(tile_dict@, routes@, initial, terminal)
                            implies cand_contains(candidates@, terminal) by {
                        assert(spec_lookup(tile_dict@, initial.world_coord) is None);
                    }
                }
            },
            Some(tile) => {
                let mut ri: usize = 0;
                while ri < routes.len()
                    invariant
                        ri <= routes@.len(),
                        spec_lookup(tile_dict@, initial.world_coord) == Some(*tile),
                        candidates_at_entry.len() <= candidates@.len(),
                        forall|k: int|
                            0 <= k < candidates_at_entry.len() ==> candidates@[k] == (
                            #[trigger] candidates_at_entry[k]),
                        forall|k: int|
                            0 <= k < candidates@.len() ==> dict_has(
                                tile_dict@,
                                (#[trigger] candidates@[k]).0.world_coord,
                            ),
                        forall|k: int|
                            0 <= k < candidates@.len() ==> exists|j: int|
                                0 <= j < initials@.len() && hop_to(
                                    tile_dict@,
                                    routes@,
                                    initials@[j],
                                    (#[trigger] candidates@[k]).0,
                                ),
                        forall|k: int|
                            0 <= k < candidates@.len() ==> cand_hop_ok(
                                tile_dict@,
                                routes@,
                                initials@,
                                (#[trigger] candidates@[k]),
                            ),
                        forall|j: int, terminal: MovementState|
                            0 <= j < ii && #[trigger] hop_to(
                                tile_dict@,
                                routes@,
                                initials@[j],
                                terminal,
                            ) ==> cand_contains(candidates@, terminal),
                        forall|ri2: int, terminal: MovementState|
                            0 <= ri2 < ri && #[trigger] route_applies(
                                routes@[ri2],
                                *tile,
                                initial,
                                terminal,
                            ) ==> cand_contains(candidates@, terminal),
                    decreases routes@.len() - ri,
                {
                    let route = &routes[ri];
                    let ghost before = candidates@;
                    if fragments_subset(&route.fragments_requirement, &tile.fragments)
                        && route.initial_anchor.act(tile.action) == initial.anchor {
                        let terminal = MovementState {
                            world_coord: initial.world_coord,
                            anchor: route.terminal_anchor.act(tile.action),
                        };
                        let motion = route.pivotal_motion.duplicate().pivotal_global_transform(
                            Pivot::from_rotation_matrix(rotation_matrix_from_action(tile.action)),
                        ).pivotal_global_transform(
                            Pivot::from_translation_vector(
                                world_coord_as_vec3(initial.world_coord),
                            ),
                        );
                        candidates.push((terminal, motion));
                        proof {
                            assert(candidates@[candidates@.len() - 1].0 == terminal);
                            assert(hop_to(tile_dict@, routes@, initial, terminal)) by {
                                assert(route_applies(routes@[ri as int], *tile, initial, terminal));
                            }
                            assert(hop_with_route(tile_dict@, routes@, ri as int, initial, terminal))
                                by {
                                assert(route_applies(routes@[ri as int], *tile, initial, terminal));
                            }
                            assert(exists|j: int|
                                0 <= j < initials@.len() && initials@[j] == initial);
                            let pushed = candidates@[candidates@.len() - 1];
                            assert(pushed.1.spec_pivots() == routes@[
                                ri as int
                            ].pivotal_motion.spec_pivots());
                            assert(pushed.1.spec_pre() == routes@[
                                ri as int
                            ].pivotal_motion.spec_pre());
                            assert(cand_hop_ok(tile_dict@, routes@, initials@, pushed)) by {
                                let j = choose|j: int|
                                    0 <= j < initials@.len() && initials@[j] == initial;
                                assert(hop_with_route(
                                    tile_dict@,
                                    routes@,
                                    ri as int,
                                    initials@[j],
                                    pushed.0,
                                ));
                            }
                            assert forall|k: int|
                                0 <= k < candidates@.len() implies cand_hop_ok(
                                tile_dict@,
                                routes@,
                                initials@,
                                (#[trigger] candidates@[k]),
                            ) by {
                                if k < before.len() {
                                    assert(candidates@[k] == before[k]);
                                }
                            }
                            assert forall|k: int|
                                0 <= k < candidates@.len() implies exists|j: int|
                                    0 <= j < initials@.len() && hop_to(
                                        tile_dict@,
                                        routes@,
                                        initials@[j],
                                        (#[trigger] candidates@[k]).0,
                                    ) by {
                                if k < before.len() {
                                    assert(candidates@[k] == before[k]);
                                } else {
                                    let j = choose|j: int|
                                        0 <= j < initials@.len() && initials@[j] == initial;
                                    assert(hop_to(
                                        tile_dict@,
                                        routes@,
                                        initials@[j],
                                        candidates@[k].0,
                                    ));
                                }
                            }
                        }
                    }
                    proof {
                        assert forall|terminal: MovementState|
                            #[trigger] cand_contains(before, terminal) implies cand_contains(
                            candidates@,
                            terminal,
                        ) by {
                            let k = choose|k: int|
                                0 <= k < before.len() && (#[trigger] before[k]).0 == terminal;
                            assert(candidates@[k] == before[k]);
                        }
                        assert forall|ri2: int, terminal: MovementState|
                            0 <= ri2 < ri + 1 && #[trigger] route_applies(
                                routes@[ri2],
                                *tile,
                                initial,
                                terminal,
                            ) implies cand_contains(candidates@, terminal) by {
                            if ri2 == ri {
                                assert(terminal.anchor == crate::anchor::spec_anchor_act(
                                    routes@[ri2].terminal_anchor,
                                    tile.action,
                                ));
                                assert(candidates@[candidates@.len() - 1].0 == terminal);
                            } else {
                                assert(cand_contains(before, terminal));
                                let k = choose|k: int|
                                    0 <= k < before.len() && (#[trigger] before[k]).0 == terminal;
                                assert(candidates@[k] == before[k]);
                            }
                        }
                    }
                    ri = ri + 1;
                }
                proof {
                    assert forall|terminal: MovementState|
                        #[trigger] hop_to(tile_dict@, routes@, initial, terminal)
                            implies cand_contains(candidates@, terminal) by {
                        let ri2 = choose|ri2: int|
                            0 <= ri2 < routes@.len() && route_applies(
                                #[trigger] routes@[ri2],
                                *tile,
                                initial,
                                terminal,
                            );
                        assert(route_applies(routes@[ri2], *tile, initial, terminal));
                    }
                }
            },
        }
        proof {
            assert forall|j: int, terminal: MovementState|
                0 <= j < ii + 1 && #[trigger] hop_to(tile_dict@, routes@, initials@[j], terminal)
                    implies cand_contains(candidates@, terminal) by {
                if j < ii {
                    assert(cand_contains(candidates_at_entry, terminal));
                    let k = choose|k: int|
                        0 <= k < candidates_at_entry.len() && (#[trigger] candidates_at_entry[k]).0 == terminal;
                    assert(candidates@.len() >= candidates_at_entry.len());
                    assert(candidates@[k] == candidates_at_entry[k]);
                } else {
                    assert(initials@[j] == initial);
                }
            }
        }
        ii = ii + 1;
    }
    let ghost c0 = candidates@;
    let ghost subfuel = (fuel - 1) as nat;
    loop
        invariant
            candidates@ =~= c0.take(candidates@.len() as int),
            candidates@.len() <= c0.len(),
            forall|k: int|
                0 <= k < c0.len() ==> dict_has(tile_dict@, (#[trigger] c0[k]).0.world_coord),
            forall|k: int|
                0 <= k < c0.len() ==> exists|j: int|
                    0 <= j < initials@.len() && hop_to(
                        tile_dict@,
                        routes@,
                        initials@[j],
                        (#[trigger] c0[k]).0,
                    ),
            forall|k: int|
                0 <= k < c0.len() ==> cand_hop_ok(tile_dict@, routes@, initials@, (#[trigger] c0[
                    k
                ])),
            forall|i: int| 0 <= i < results@.len() ==> target_ok(
                #[trigger] results@[i],
                movement_state,
            ),
            forall|i: int|
                0 <= i < results@.len() ==> chain_from(
                    tile_dict@,
                    routes@,
                    movement_state,
                    (#[trigger] results@[i]).pivotal_motions@,
                    results@[i].movement_state,
                    fuel as nat,
                ),
            forall|i: int|
                #![trigger results@[i]]
                0 <= i < results@.len() ==> exists|k: int|
                    0 <= k < c0.len() && #[trigger] leaf_via(
                        tile_dict@,
                        routes@,
                        c0[k].0,
                        results@[i].movement_state,
                        subfuel,
                    ),
            forall|k: int, leaf: MovementState|
                candidates@.len() <= k < c0.len() && passes_filter(movement_state, leaf)
                    && #[trigger] leaf_via(tile_dict@, routes@, c0[k].0, leaf, subfuel)
                    ==> targets_contain(results@, leaf),
        decreases candidates@.len(),
    {
        let ghost cand_before = candidates@;
        match candidates.pop() {
            None => {
                break ;
            },
            Some(candidate) => {
                let (terminal, motion) = candidate;
                proof {
                    assert(cand_before[cand_before.len() - 1] == candidate);
                    assert(terminal == c0[cand_before.len() - 1].0);
                }
                let mut subtargets: Vec<MovementTarget>;
                if terminal.anchor.stationary {
                    subtargets = Vec::new();
                    let transform = motion.target();
                    subtargets.push(
                        MovementTarget {
                            movement_state: terminal,
                            transform,
                            pivotal_motions: Vec::new(),
                        },
                    );
                    proof {
                        assert(subtargets@[0].movement_state == terminal);
                        assert forall|leaf: MovementState|
                            leaf_via(tile_dict@, routes@, terminal, leaf, subfuel)
                                implies targets_contain(subtargets@, leaf) by {
                            assert(subtargets@[0].movement_state == leaf);
                        }
                    }
                } else {
                    subtargets = next_movement_targets_from(
                        terminal,
                        tile_dict,
                        routes,
                        fuel - 1,
                    );
                }
                let ghost s0 = subtargets@;
                proof {
                    assert forall|m: int|
                        0 <= m < s0.len() implies leaf_via(
                            tile_dict@,
                            routes@,
                            terminal,
                            (#[trigger] s0[m]).movement_state,
                            subfuel,
                        ) by {}
                    assert forall|leaf: MovementState|
                        #[trigger] leaf_via(tile_dict@, routes@, terminal, leaf, subfuel)
                            implies targets_contain(s0, leaf) by {}
                    assert forall|m: int|
                        0 <= m < s0.len() implies sub_chain_ok(
                        tile_dict@,
                        routes@,
                        terminal,
                        (#[trigger] s0[m]),
                        subfuel,
                    ) by {
                        if terminal.anchor.stationary {
                            assert(s0[m] == s0[0]);
                        }
                    }
                    assert forall|m: int|
                        0 <= m < s0.len() implies (#[trigger] s0[m]).movement_state.anchor.stationary && coord_in_bounds(
                        s0[m].movement_state.world_coord,
                        0,
                    ) by {
                        if terminal.anchor.stationary {
                            assert(s0[m].movement_state == terminal);
                            let ki = choose|ki: int|
                                0 <= ki < tile_dict@.len() && (#[trigger] tile_dict@[ki]).0
                                    == terminal.world_coord;
                            assert(coord_in_bounds(tile_dict@[ki].0, 0));
                        }
                    }
                }
                loop
                    invariant
                        subtargets@ =~= s0.take(subtargets@.len() as int),
                        subtargets@.len() <= s0.len(),
                        forall|i: int| 0 <= i < results@.len() ==> target_ok(
                            #[trigger] results@[i],
                            movement_state,
                        ),
                        forall|i: int|
                            0 <= i < results@.len() ==> chain_from(
                                tile_dict@,
                                routes@,
                                movement_state,
                                (#[trigger] results@[i]).pivotal_motions@,
                                results@[i].movement_state,
                                fuel as nat,
                            ),
                        forall|i: int|
                            #![trigger results@[i]]
                            0 <= i < results@.len() ==> exists|k: int|
                                0 <= k < c0.len() && #[trigger] leaf_via(
                                    tile_dict@,
                                    routes@,
                                    c0[k].0,
                                    results@[i].movement_state,
                                    subfuel,
                                ),
                        forall|k: int, leaf: MovementState|
                            candidates@.len() < k < c0.len() && passes_filter(movement_state, leaf)
                                && #[trigger] leaf_via(
                                tile_dict@,
                                routes@,
                                c0[k].0,
                                leaf,
                                subfuel,
                            ) ==> targets_contain(results@, leaf),
                        forall|m: int|
                            subtargets@.len() <= m < s0.len() && passes_filter(
                                movement_state,
                                (#[trigger] s0[m]).movement_state,
                            ) ==> targets_contain(results@, s0[m].movement_state),
                    decreases subtargets@.len(),
                {
                    let ghost sub_before = subtargets@;
                    match subtargets.pop() {
                        None => {
                            break ;
                        },
                        Some(sub) => {
                            proof {
                                assert(sub_before[sub_before.len() - 1] == sub);
                                assert(sub == s0[sub_before.len() - 1]);
                            }
                            let keep = sub.movement_state != movement_state && match synonym {
                                None => true,
                                Some(s) => sub.movement_state != s,
                            };
                            proof {
                                assert(keep == passes_filter(movement_state, sub.movement_state));
                            }
                            if keep {
                                let motions = build_chain_motions(&motion, &sub.pivotal_motions);
                                proof {
                                    assert(sub_chain_ok(
                                        tile_dict@,
                                        routes@,
                                        terminal,
                                        s0[sub_before.len() - 1],
                                        subfuel,
                                    ));
                                    let (j, ri) = choose|j: int, ri: int|
                                        0 <= j < initials@.len() && #[trigger] hop_with_route(
                                            tile_dict@,
                                            routes@,
                                            ri,
                                            initials@[j],
                                            c0[cand_before.len() - 1].0,
                                        ) && c0[cand_before.len() - 1].1.spec_pivots() == routes@[
                                            ri
                                        ].pivotal_motion.spec_pivots() && c0[cand_before.len()
                                            - 1].1.spec_pre() == routes@[
                                            ri
                                        ].pivotal_motion.spec_pre();
                                    assert(from_initial(movement_state, initials@[j]));
                                    assert(motions@[0].spec_pivots() == routes@[
                                        ri
                                    ].pivotal_motion.spec_pivots());
                                    assert(motions@[0].spec_pre() == routes@[
                                        ri
                                    ].pivotal_motion.spec_pre());
                                    if terminal.anchor.stationary {
                                        assert(sub.pivotal_motions@.len() == 0);
                                        assert(motions@.len() == 1);
                                        assert(sub.movement_state == terminal);
                                    } else {
                                        assert(motions@.drop_first().len()
                                            == sub.pivotal_motions@.len());
                                        assert(forall|t: int|
                                            0 <= t < motions@.drop_first().len() ==> (
                                            #[trigger] motions@.drop_first()[t]).spec_pivots()
                                                == sub.pivotal_motions@[t].spec_pivots()
                                                && motions@.drop_first()[t].spec_pre()
                                                == sub.pivotal_motions@[t].spec_pre());
                                        lemma_chain_from_congruent(
                                            tile_dict@,
                                            routes@,
                                            terminal,
                                            sub.pivotal_motions@,
                                            motions@.drop_first(),
                                            sub.movement_state,
                                            subfuel,
                                        );
                                    }
                                    assert(hop_with_route(
                                        tile_dict@,
                                        routes@,
                                        ri,
                                        initials@[j],
                                        terminal,
                                    ) && from_initial(movement_state, initials@[j]) && motions@[
                                        0
                                    ].spec_pivots() == routes@[ri].pivotal_motion.spec_pivots()
                                        && motions@[0].spec_pre() == routes@[
                                        ri
                                    ].pivotal_motion.spec_pre() && (if terminal.anchor.stationary {
                                        motions@.len() == 1 && sub.movement_state == terminal
                                    } else {
                                        chain_from(
                                            tile_dict@,
                                            routes@,
                                            terminal,
                                            motions@.drop_first(),
                                            sub.movement_state,
                                            (fuel as nat - 1) as nat,
                                        )
                                    }));
                                    assert(chain_from(
                                        tile_dict@,
                                        routes@,
                                        movement_state,
                                        motions@,
                                        sub.movement_state,
                                        fuel as nat,
                                    ));
                                }
                                let ghost chained = motions@;
                                let ghost results_before = results@;
                                results.push(
                                    MovementTarget {
                                        movement_state: sub.movement_state,
                                        transform: sub.transform,
                                        pivotal_motions: motions,
                                    },
                                );
                                proof {
                                    let n = results@.len() - 1;
                                    assert(results@[n].movement_state == sub.movement_state);
                                    assert(results@[n].pivotal_motions@ == chained);
                                    assert forall|i: int|
                                        0 <= i < results@.len() implies chain_from(
                                        tile_dict@,
                                        routes@,
                                        movement_state,
                                        (#[trigger] results@[i]).pivotal_motions@,
                                        results@[i].movement_state,
                                        fuel as nat,
                                    ) by {
                                        if i < n {
                                            assert(results@[i] == results_before[i]);
                                        }
                                    }
                                    assert(leaf_via(
                                        tile_dict@,
                                        routes@,
                                        c0[cand_before.len() - 1].0,
                                        sub.movement_state,
                                        subfuel,
                                    ));
                                    assert forall|i: int| #![trigger results@[i]]
                                        0 <= i < results@.len() implies exists|kk: int|
                                            0 <= kk < c0.len() && #[trigger] leaf_via(
                                                tile_dict@,
                                                routes@,
                                                c0[kk].0,
                                                results@[i].movement_state,
                                                subfuel,
                                            ) by {
                                        if i < n {
                                            assert(results@[i] == results_before[i]);
                                        } else {
                                            assert(0 <= cand_before.len() - 1 < c0.len());
                                        }
                                    }
                                    assert forall|kk: int, leaf: MovementState|
                                        candidates@.len() < kk < c0.len() && passes_filter(
                                            movement_state,
                                            leaf,
                                        ) && #[trigger] leaf_via(
                                            tile_dict@,
                                            routes@,
                                            c0[kk].0,
                                            leaf,
                                            subfuel,
                                        ) implies targets_contain(results@, leaf) by {
                                        assert(targets_contain(results_before, leaf));
                                        let i = choose|i: int|
                                            0 <= i < results_before.len() && (
                                            #[trigger] results_before[i]).movement_state == leaf;
                                        assert(results@[i] == results_before[i]);
                                    }
                                    assert forall|m: int|
                                        subtargets@.len() <= m < s0.len() && passes_filter(
                                            movement_state,
                                            (#[trigger] s0[m]).movement_state,
                                        ) implies targets_contain(
                                        results@,
                                        s0[m].movement_state,
                                    ) by {
                                        let leaf = s0[m].movement_state;
                                        if m == sub_before.len() - 1 {
                                            assert(results@[n].movement_state == leaf);
                                        } else {
                                            assert(targets_contain(results_before, leaf));
                                            let i = choose|i: int|
                                                0 <= i < results_before.len() && (
                                                #[trigger] results_before[i]).movement_state == leaf;
                                            assert(results@[i] == results_before[i]);
                                        }
                                    }
                                }
                            } else {
                                proof {
                                    assert forall|m: int|
                                        subtargets@.len() <= m < s0.len() && passes_filter(
                                            movement_state,
                                            (#[trigger] s0[m]).movement_state,
                                        ) implies targets_contain(
                                        results@,
                                        s0[m].movement_state,
                                    ) by {
                                        if m == sub_before.len() - 1 {
                                            assert(s0[m].movement_state == sub.movement_state);
                                            assert(false);
                                        }
                                    }
                                }
                            }
                        },
                    }
                }
                proof {
                    assert forall|k: int, leaf: MovementState|
                        candidates@.len() <= k < c0.len() && passes_filter(movement_state, leaf)
                            && #[trigger] leaf_via(
                            tile_dict@,
                            routes@,
                            c0[k].0,
                            leaf,
                            subfuel,
                        ) implies targets_contain(results@, leaf) by {
                        if k == cand_before.len() - 1 {
                            assert(targets_contain(s0, leaf));
                            let m = choose|m: int|
                                0 <= m < s0.len() && (#[trigger] s0[m]).movement_state == leaf;
                            assert(passes_filter(movement_state, s0[m].movement_state));
                            assert(targets_contain(results@, s0[m].movement_state));
                        }
                    }
                }
            },
        }
    }
    proof {
        assert forall|leaf: MovementState|
            #[trigger] reaches(tile_dict@, routes@, movement_state, leaf, fuel as nat)
                implies targets_contain(results@, leaf) by {
            let (initial, terminal) = choose|initial: MovementState, terminal: MovementState|
                {
                    &&& #[trigger] hop_to(tile_dict@, routes@, initial, terminal)
                    &&& from_initial(movement_state, initial)
                    &&& if terminal.anchor.stationary {
                        leaf == terminal
                    } else {
                        reaches(tile_dict@, routes@, terminal, leaf, (fuel as nat - 1) as nat)
                    }
                };
            let j = choose|j: int| 0 <= j < initials@.len() && initials@[j] == initial;
            assert(hop_to(tile_dict@, routes@, initials@[j], terminal));
            assert(cand_contains(c0, terminal));
            let k = choose|k: int| 0 <= k < c0.len() && (#[trigger] c0[k]).0 == terminal;
            assert(leaf_via(tile_dict@, routes@, c0[k].0, leaf, subfuel));
        }
        assert forall|i: int|
            0 <= i < results@.len() implies reaches(
                tile_dict@,
                routes@,
                movement_state,
                (#[trigger] results@[i]).movement_state,
                fuel as nat,
            ) by {
            let leaf = results@[i].movement_state;
            let k = choose|k: int|
                0 <= k < c0.len() && leaf_via(
                    tile_dict@,
                    routes@,
                    (#[trigger] c0[k]).0,
                    leaf,
                    subfuel,
                );
            let j = choose|j: int|
                0 <= j < initials@.len() && hop_to(
                    tile_dict@,
                    routes@,
                    initials@[j],
                    c0[k].0,
                );
            assert(from_initial(movement_state, initials@[j]));
            assert(hop_to(tile_dict@, routes@, initials@[j], c0[k].0) && from_initial(
                movement_state,
                initials@[j],
            ) && (if c0[k].0.anchor.stationary {
                leaf == c0[k].0
            } else {
                reaches(tile_dict@, routes@, c0[k].0, leaf, (fuel as nat - 1) as nat)
            }));
        }
    }
    results
}

/// The session state: the immutable tile dictionary and route table, the
/// player's discrete position, and the player's rendered pose.
pub struct World {
    tile_dict: Vec<(WorldCoord, Tile)>,
    movement_state: MovementState,
    player_transform: glam::Mat4,
    routes: Vec<Route>,
    search_depth_limit: u32,
}

impl World {
    /// The tile dictionary, as the sequence it was built from.
    pub closed spec fn spec_tile_dict(&self) -> Seq<(WorldCoord, Tile)> {
        self.tile_dict@
    }

    /// The player's current discrete position.
    pub closed spec fn spec_movement_state(&self) -> MovementState {
        self.movement_state
    }

    /// The player's current rendered pose.
    pub closed spec fn spec_player_transform(&self) -> glam::Mat4 {
        self.player_transform
    }

    /// The route table the session was built with.
    pub closed spec fn spec_routes(&self) -> Seq<Route> {
        self.routes@
    }

    /// The session's configured search depth limit.
    pub closed spec fn spec_search_depth_limit(&self) -> u32 {
        self.search_depth_limit
    }

    /// Every tile coordinate and the player's coordinate are within bounds.
    pub open spec fn wf(&self) -> bool {
        &&& forall|i: int|
            0 <= i < self.spec_tile_dict().len() ==> coord_in_bounds(
                (#[trigger] self.spec_tile_dict()[i]).0,
                0,
            )
        &&& dict_keys_distinct(self.spec_tile_dict())
        &&& coord_in_bounds(self.spec_movement_state().world_coord, 0)
        &&& self.spec_search_depth_limit() <= SEARCH_DEPTH_LIMIT
    }

    /// Build a session from level data; rejects data whose coordinates fall
    /// outside `COORD_LIMIT` or that lists one coordinate twice.
    pub fn new(
        tile_dict: Vec<(WorldCoord, Tile)>,
        movement_state: MovementState,
        player_transform: glam::Mat4,
    ) -> (r: Option<World>)
        ensures
            r is Some <==> ((forall|i: int|
                0 <= i < tile_dict@.len() ==> coord_in_bounds((#[trigger] tile_dict@[i]).0, 0))
                && dict_keys_distinct(tile_dict@) && coord_in_bounds(
                movement_state.world_coord,
                0,
            )),
            r matches Some(w) ==> w.wf() && w.spec_tile_dict() == tile_dict@
                && w.spec_movement_state() == movement_state && w.spec_player_transform()
                == player_transform,
            r matches Some(w) ==> w.spec_routes().len() == 80 && (forall|f: int|
                0 <= f < 20 ==> #[trigger] route_block_matches(w.spec_routes(), f)),
            r matches Some(w) ==> w.spec_search_depth_limit() == SEARCH_DEPTH_LIMIT,
    {
        if !coord_ok(movement_state.world_coord) {
            return None;
        }
        let mut i: usize = 0;
        while i < tile_dict.len()
            invariant
                i <= tile_dict@.len(),
                forall|k: int| 0 <= k < i ==> coord_in_bounds((#[trigger] tile_dict@[k]).0, 0),
            decreases tile_dict@.len() - i,
        {
            if !coord_ok(tile_dict[i].0) {
                return None;
            }
            i = i + 1;
        }
        let mut a: usize = 1;
        while a < tile_dict.len()
            invariant
                1 <= a,
                forall|i: int, j: int|
                    0 <= i < j < a && j < tile_dict@.len() ==> (#[trigger] tile_dict@[i]).0 != (
                    #[trigger] tile_dict@[j]).0,
            decreases tile_dict@.len() - a,
        {
            let mut b: usize = 0;
            while b < a
                invariant
                    a < tile_dict@.len(),
                    b <= a,
                    forall|i: int|
                        0 <= i < b ==> (#[trigger] tile_dict@[i]).0 != tile_dict@[a as int].0,
                decreases a - b,
            {
                if tile_dict[b].0 == tile_dict[a].0 {
                    proof {
                        assert(!dict_keys_distinct(tile_dict@)) by {
                            assert((tile_dict@[b as int]).0 == (tile_dict@[a as int]).0);
                        }
                    }
                    return None;
                }
                b = b + 1;
            }
            a = a + 1;
        }
        Some(
            World {
                tile_dict,
                movement_state,
                player_transform,
                routes: route_list(),
                search_depth_limit: SEARCH_DEPTH_LIMIT,
            },
        )
    }

    /// Configure the session's search depth limit (a safety bound on chained
    /// transient anchors), up to the cap `SEARCH_DEPTH_LIMIT`.
    pub fn set_search_depth_limit(&mut self, limit: u32)
        requires
            old(self).wf(),
            limit <= SEARCH_DEPTH_LIMIT,
        ensures
            final(self).wf(),
            final(self).spec_search_depth_limit() == limit,
            final(self).spec_movement_state() == old(self).spec_movement_state(),
            final(self).spec_tile_dict() == old(self).spec_tile_dict(),
            final(self).spec_player_transform() == old(self).spec_player_transform(),
            final(self).spec_routes() == old(self).spec_routes(),
    {
        self.search_depth_limit = limit;
        proof {
            assert(self.spec_tile_dict() == old(self).spec_tile_dict());
            assert forall|i: int| 0 <= i < self.spec_tile_dict().len() implies coord_in_bounds(
                (#[trigger] self.spec_tile_dict()[i]).0,
                0,
            ) by {
                assert(coord_in_bounds(old(self).spec_tile_dict()[i].0, 0));
            }
        }
    }

    /// All legal next resting positions from the current state, each with its
    /// final pose and animating motion chain.
    pub fn next_movement_targets(&self) -> (r: Vec<MovementTarget>)
        requires
            self.wf(),
        ensures
            forall|i: int|
                0 <= i < r@.len() ==> target_ok(#[trigger] r@[i], self.spec_movement_state()),
            forall|i: int|
                0 <= i < r@.len() ==> reaches(
                    self.spec_tile_dict(),
                    self.spec_routes(),
                    self.spec_movement_state(),
                    (#[trigger] r@[i]).movement_state,
                    self.spec_search_depth_limit() as nat,
                ),
            forall|leaf: MovementState|
                #[trigger] reaches(
                    self.spec_tile_dict(),
                    self.spec_routes(),
                    self.spec_movement_state(),
                    leaf,
                    self.spec_search_depth_limit() as nat,
                ) ==> targets_contain(r@, leaf),
            forall|i: int|
                0 <= i < r@.len() ==> chain_from(
                    self.spec_tile_dict(),
                    self.spec_routes(),
                    self.spec_movement_state(),
                    (#[trigger] r@[i]).pivotal_motions@,
                    r@[i].movement_state,
                    self.spec_search_depth_limit() as nat,
                ),
    {
        next_movement_targets_from(
            self.movement_state,
            &self.tile_dict,
            &self.routes,
            self.search_depth_limit,
        )
    }

    /// Commit a chosen move: the player's discrete position becomes the
    /// target's, and the target's motion chain is turned into the playback
    /// trajectory. The tile dictionary and the rendered pose are untouched.
    pub fn commit_movement_target(&mut self, target: MovementTarget) -> (r:
        PivotalMotionTrajectory)
        requires
            old(self).wf(),
            coord_in_bounds(target.movement_state.world_coord, 0),
        ensures
            final(self).wf(),
            final(self).spec_movement_state() == target.movement_state,
            final(self).spec_tile_dict() == old(self).spec_tile_dict(),
            final(self).spec_player_transform() == old(self).spec_player_transform(),
            final(self).spec_routes() == old(self).spec_routes(),
            final(self).spec_search_depth_limit() == old(self).spec_search_depth_limit(),
            r.wf(),
            r.spec_segments().len() == crate::pga::total_pivots(target.pivotal_motions@),
            forall|i: int|
                0 <= i < r.spec_segments().len() ==> (#[trigger] r.spec_segments()[i]).remaining
                    == r.spec_segments()[i].total,
            forall|i: int|
                0 <= i < r.spec_segments().len() ==> crate::pga::seg_from_motions(
                    #[trigger] r.spec_segments()[i],
                    target.pivotal_motions@,
                ),
            exists|w: Seq<(int, int)>|
                #[trigger] crate::pga::stack_in_reverse_order(
                    r.spec_segments(),
                    target.pivotal_motions@,
                    w,
                ),
    {
        self.movement_state = target.movement_state;
        proof {
            assert(self.spec_tile_dict() == old(self).spec_tile_dict());
            assert forall|i: int| 0 <= i < self.spec_tile_dict().len() implies coord_in_bounds(
                (#[trigger] self.spec_tile_dict()[i]).0,
                0,
            ) by {
                assert(coord_in_bounds(old(self).spec_tile_dict()[i].0, 0));
            }
        }
        PivotalMotionTrajectory::from_pivotal_motions(target.pivotal_motions)
    }

    /// Pick the winning measurement: the index of the smallest measured
    /// deviation, the earliest index on ties; `None` exactly when nothing
    /// was measured.
    fn select_min_deviation(deviations: &Vec<Option<u64>>) -> (r: Option<usize>)
        ensures
            r is None <==> (forall|k: int|
                0 <= k < deviations@.len() ==> (#[trigger] deviations@[k]) is None),
            r matches Some(i) ==> i < deviations@.len() && deviations@[i as int] is Some,
            r matches Some(i) ==> forall|k: int|
                0 <= k < deviations@.len() && (#[trigger] deviations@[k]) is Some ==> deviations@[
                    i as int
                ].unwrap() <= deviations@[k].unwrap(),
            r matches Some(i) ==> forall|k: int|
                0 <= k < i && (#[trigger] deviations@[k]) is Some ==> deviations@[
                    i as int
                ].unwrap() < deviations@[k].unwrap(),
    {
        let mut best: Option<(usize, u64)> = None;
        let mut i: usize = 0;
        while i < deviations.len()
            invariant
                i <= deviations@.len(),
                best is None ==> forall|k: int|
                    0 <= k < i ==> (#[trigger] deviations@[k]) is None,
                best matches Some(b) ==> b.0 < i && deviations@[b.0 as int] == Some(b.1),
                best matches Some(b) ==> forall|k: int|
                    0 <= k < i && (#[trigger] deviations@[k]) is Some ==> b.1 <= deviations@[
                        k
                    ].unwrap(),
                best matches Some(b) ==> forall|k: int|
                    0 <= k < b.0 && (#[trigger] deviations@[k]) is Some ==> b.1 < deviations@[
                        k
                    ].unwrap(),
            decreases deviations@.len() - i,
        {
            match deviations[i] {
                None => {},
                Some(deviation) => {
                    let update = match best {
                        Some((_, best_deviation)) => deviation < best_deviation,
                        None => true,
                    };
                    if update {
                        best = Some((i, deviation));
                    }
                },
            }
            i = i + 1;
        }
        match best {
            None => None,
            Some((index, _)) => Some(index),
        }
    }

    /// Map a pointing gesture to the best candidate move and commit it: the
    /// candidates whose measured angular deviation from the cursor direction
    /// passes the dead-radius and angle thresholds compete, the smallest
    /// measured deviation wins (the first on ties), its playback trajectory
    /// is returned, and the player's discrete position becomes its resting
    /// state. `None`, with nothing changed, when no candidate qualifies.
    /// Which candidates qualify is decided by the trusted float measurement;
    /// the contract promises only that a committed move is one the search
    /// reaches.
    pub fn motion(&mut self, cursor_coord: glam::Vec2) -> (r: Option<PivotalMotionTrajectory>)
        requires
            old(self).wf(),
        ensures
            final(self).wf(),
            final(self).spec_tile_dict() == old(self).spec_tile_dict(),
            final(self).spec_player_transform() == old(self).spec_player_transform(),
            final(self).spec_routes() == old(self).spec_routes(),
            r is None ==> final(self).spec_movement_state() == old(self).spec_movement_state(),
            r is Some ==> reaches(
                old(self).spec_tile_dict(),
                old(self).spec_routes(),
                old(self).spec_movement_state(),
                final(self).spec_movement_state(),
                old(self).spec_search_depth_limit() as nat,
            ),
            r matches Some(t) ==> t.wf(),
            r matches Some(t) ==> exists|motions: Seq<PivotalMotion>|
                {
                    &&& #[trigger] chain_from(
                        old(self).spec_tile_dict(),
                        old(self).spec_routes(),
                        old(self).spec_movement_state(),
                        motions,
                        final(self).spec_movement_state(),
                        old(self).spec_search_depth_limit() as nat,
                    )
                    &&& t.spec_segments().len() == crate::pga::total_pivots(motions)
                    &&& forall|i: int|
                        0 <= i < t.spec_segments().len() ==> (#[trigger] t.spec_segments()[
                            i
                        ]).remaining == t.spec_segments()[i].total
                    &&& forall|i: int|
                        0 <= i < t.spec_segments().len() ==> crate::pga::seg_from_motions(
                            #[trigger] t.spec_segments()[i],
                            motions,
                        )
                    &&& exists|w: Seq<(int, int)>|
                        #[trigger] crate::pga::stack_in_reverse_order(
                            t.spec_segments(),
                            motions,
                            w,
                        )
                },
    {
        let mut targets = self.next_movement_targets();
        let player_coord = project_pose_origin(&self.player_transform());
        let mut deviations: Vec<Option<u64>> = Vec::new();
        let mut i: usize = 0;
        while i < targets.len()
            invariant
                i <= targets@.len(),
                deviations@.len() == i as int,
            decreases targets@.len() - i,
        {
            deviations.push(
                deviation_units(
                    player_coord,
                    project_pose_origin(&targets[i].transform),
                    cursor_coord,
                ),
            );
            i = i + 1;
        }
        match Self::select_min_deviation(&deviations) {
            None => None,
            Some(index) => {
                let ghost tv = targets@;
                let target = targets.remove(index);
                let ghost committed_motions = target.pivotal_motions@;
                proof {
                    assert(target == tv[index as int]);
                    assert(target_ok(tv[index as int], old(self).spec_movement_state()));
                    assert(chain_from(
                        old(self).spec_tile_dict(),
                        old(self).spec_routes(),
                        old(self).spec_movement_state(),
                        committed_motions,
                        tv[index as int].movement_state,
                        old(self).spec_search_depth_limit() as nat,
                    ));
                }
                let trajectory = self.commit_movement_target(target);
                Some(trajectory)
            },
        }
    }

    /// The player's current discrete position.
    pub fn movement_state(&self) -> (r: MovementState)
        ensures
            r == self.spec_movement_state(),
    {
        self.movement_state
    }

    /// The player's current rendered pose.
    pub fn player_transform(&self) -> (r: glam::Mat4)
        ensures
            r == self.spec_player_transform(),
    {
        self.player_transform
    }

    /// Replace the player's rendered pose (an external synchronisation hook).
    pub fn set_player_transform(&mut self, player_transform: glam::Mat4)
        requires
            old(self).wf(),
        ensures
            final(self).wf(),
            final(self).spec_player_transform() == player_transform,
            final(self).spec_movement_state() == old(self).spec_movement_state(),
            final(self).spec_tile_dict() == old(self).spec_tile_dict(),
            final(self).spec_routes() == old(self).spec_routes(),
            final(self).spec_search_depth_limit() == old(self).spec_search_depth_limit(),
    {
        self.player_transform = player_transform;
        proof {
            assert(self.spec_tile_dict() == old(self).spec_tile_dict());
            assert forall|i: int| 0 <= i < self.spec_tile_dict().len() implies coord_in_bounds(
                (#[trigger] self.spec_tile_dict()[i]).0,
                0,
            ) by {
                assert(coord_in_bounds(old(self).spec_tile_dict()[i].0, 0));
            }
        }
    }

    /// The fragments of the tile at the given coordinate, if one is there.
    pub fn tile_fragments(&self, c: WorldCoord) -> (r: Option<Vec<TileFragment>>)
        ensures
            r is Some <==> dict_has(self.spec_tile_dict(), c),
            r matches Some(frags) ==> (spec_lookup(self.spec_tile_dict(), c) matches Some(t)
                && frags@ == t.fragments@),
    {
        match lookup_tile(&self.tile_dict, c) {
            None => None,
            Some(tile) => Some(crate::fragment::clone_fragments(&tile.fragments)),
        }
    }

    /// The coordinates of all tiles, in dictionary order; for a well-formed
    /// session each coordinate occurs exactly once.
    pub fn iter_coords(&self) -> (r: Vec<WorldCoord>)
        ensures
            r@.len() == self.spec_tile_dict().len(),
            forall|i: int| 0 <= i < r@.len() ==> r@[i] == (#[trigger] self.spec_tile_dict()[i]).0,
            self.wf() ==> forall|i: int, j: int|
                0 <= i < j < r@.len() ==> (#[trigger] r@[i]) != (#[trigger] r@[j]),
    {
        let mut r: Vec<WorldCoord> = Vec::new();
        let mut i: usize = 0;
        while i < self.tile_dict.len()
            invariant
                i <= self.spec_tile_dict().len(),
                r@.len() == i as int,
                forall|k: int| 0 <= k < i ==> r@[k] == (#[trigger] self.spec_tile_dict()[k]).0,
            decreases self.spec_tile_dict().len() - i,
        {
            r.push(self.tile_dict[i].0);
            i = i + 1;
        }
        proof {
            if self.wf() {
                assert forall|i: int, j: int| 0 <= i < j < r@.len() implies (#[trigger] r@[i]) != (
                #[trigger] r@[j]) by {
                    assert(r@[i] == self.spec_tile_dict()[i].0);
                    assert(r@[j] == self.spec_tile_dict()[j].0);
                    assert((self.spec_tile_dict()[i]).0 != (self.spec_tile_dict()[j]).0);
                }
            }
        }
        r
    }
}

/// Relies on `glam`'s `Mat3::from_cols`, `normalize` and
/// `transform_point3`: the conformal projection of a pose's origin to 2D
/// screen space (the fixed unitary projection whose rows are the three
/// normalized lattice directions). A pure float computation; nothing is
/// assumed of its value.
#[verifier::external_body]
fn project_pose_origin(pose: &glam::Mat4) -> glam::Vec2 {
    let p = glam::Mat3::from_cols(
        glam::IVec3::new(-1, 1, 0).as_vec3().normalize(),
        glam::IVec3::new(-1, -1, 2).as_vec3().normalize(),
        glam::IVec3::new(1, 1, 1).as_vec3().normalize(),
    ).transpose();
    (p * pose.transform_point3(glam::Vec3::ZERO)).xy()
}

/// Relies on `glam`'s `Vec2` length and `angle_to`: `None` when the cursor
/// is within the unit dead radius of the player's projection or the absolute
/// angular deviation of the target's direction from the cursor direction is
/// not strictly below the sixth-of-pi threshold (in particular for a
/// degenerate, NaN deviation); else the deviation in fixed-point units of
/// `1 / ARC_UNITS_PER_LENGTH` radians. Nothing is assumed of its value.
#[verifier::external_body]
fn deviation_units(player: glam::Vec2, target: glam::Vec2, cursor: glam::Vec2) -> Option<u64> {
    let one = glam::Vec3::ONE.x;
    if !((cursor - player).length() > one) {
        return None;
    }
    let abs_angle = (target - player).angle_to(cursor - player).abs();
    let threshold = (-glam::Vec3::X).angle_between(glam::Vec3::X) / (one * (one + one) * (one
        + one + one));
    if !(abs_angle < threshold) {
        return None;
    }
    Some((abs_angle * glam::U64Vec3::new(crate::pga::ARC_UNITS_PER_LENGTH, 0, 0).as_vec3().x) as u64)
}

/// Whether the coordinate is within `COORD_LIMIT`.
fn coord_ok(c: WorldCoord) -> (r: bool)
    ensures
        r == coord_in_bounds(c, 0),
{
    -COORD_LIMIT <= c.x && c.x <= COORD_LIMIT && -COORD_LIMIT <= c.y && c.y <= COORD_LIMIT
        && -COORD_LIMIT <= c.z && c.z <= COORD_LIMIT
}

} // verus!
