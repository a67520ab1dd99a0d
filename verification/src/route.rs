//! The authored route families and their expansion, by symmetry, into the
//! concrete route table.
//!
//! Each family is a template; four concrete routes are generated from it
//! (identity, time-reversed, mirrored, both). The anchors of every generated
//! route are pinned exactly by the contracts; the attached motion is built
//! from the canonical stem screw of the family's primitive, corrected into
//! the family's axis system and neighbour offset.

use vstd::prelude::*;

use crate::anchor::spec_dir_into_tuple;
use crate::anchor::spec_sign_xor;
use crate::anchor::TileAnchor;
use crate::anchor::TileAnchorPositionAxis;
use crate::anchor::TileAnchorSign;
use crate::anchor::TileExternalAnchorPosition;
use crate::anchor::TileInternalAnchorPositionAxis;
use crate::d6::spec_triplet;
use crate::d6::AxisSystem;
use crate::fragment::clone_fragments;
use crate::fragment::TileFragment;
use crate::pga::Pivot;
use crate::pga::PivotalMotion;

verus! {

/// The six motion-primitive kinds: flat or rising slope, straight or bent a
/// quarter turn, and plain or extended (with a leading branch translation).
#[derive(Clone, Copy, Debug, PartialEq, Eq, Structural)]
pub enum RouteMotionPrimitive {
    Plane,
    PlaneExt,
    Ladder,
    LadderExt,
    Arch,
    ArchExt,
}

impl RouteMotionPrimitive {
    /// Whether the primitive passes through an extra branch anchor before the
    /// stem.
    pub open spec fn spec_is_extended(self) -> bool {
        match self {
            Self::Plane | Self::Ladder | Self::Arch => false,
            Self::PlaneExt | Self::LadderExt | Self::ArchExt => true,
        }
    }

    /// Whether the stem rises (unit slope) rather than staying flat.
    pub open spec fn spec_is_rising(self) -> bool {
        match self {
            Self::Plane | Self::PlaneExt => false,
            Self::Ladder | Self::LadderExt | Self::Arch | Self::ArchExt => true,
        }
    }

    /// Whether the stem bends a quarter turn.
    pub open spec fn spec_has_quarter_turn(self) -> bool {
        match self {
            Self::Plane | Self::PlaneExt | Self::Ladder | Self::LadderExt => false,
            Self::Arch | Self::ArchExt => true,
        }
    }

    /// Whether the primitive passes through an extra branch anchor before the
    /// stem.
    pub fn is_extended(&self) -> (r: bool)
        ensures
            r == self.spec_is_extended(),
    {
        match self {
            Self::Plane | Self::Ladder | Self::Arch => false,
            Self::PlaneExt | Self::LadderExt | Self::ArchExt => true,
        }
    }

    /// Whether the stem rises (unit slope) rather than staying flat.
    fn is_rising(&self) -> (r: bool)
        ensures
            r == self.spec_is_rising(),
    {
        match self {
            Self::Plane | Self::PlaneExt => false,
            Self::Ladder | Self::LadderExt | Self::Arch | Self::ArchExt => true,
        }
    }

    /// Whether the stem bends a quarter turn.
    fn has_quarter_turn(&self) -> (r: bool)
        ensures
            r == self.spec_has_quarter_turn(),
    {
        match self {
            Self::Plane | Self::PlaneExt | Self::Ladder | Self::LadderExt => false,
            Self::Arch | Self::ArchExt => true,
        }
    }

    /// The canonical motion of this primitive, optionally time-reversed and
    /// optionally mirrored through the fixed reflection corrections. An
    /// extended primitive has a unit branch translation pivot before its stem
    /// pivot.
    pub fn pivot_motion(&self, backward: bool, flip: bool) -> (r: PivotalMotion)
        ensures
            r.spec_pivots().len() == if self.spec_is_extended() {
                2int
            } else {
                1int
            },
            !backward && !flip ==> r.spec_pre() is None && r.spec_post() is None,
            backward || flip ==> r.spec_pre() is Some,
            backward ==> r.spec_post() is Some,
    {
        let (stem_d, stem_m) = crate::geom::stem_plucker(
            self.is_rising(),
            self.has_quarter_turn(),
        );
        let stem_pivot = Pivot::from_plucker(stem_d, stem_m);
        let mut pivots: Vec<Pivot> = Vec::new();
        if self.is_extended() {
            pivots.push(Pivot::from_translation_vector(crate::geom::vec3_from_i32(0, 1, 0)));
        }
        pivots.push(stem_pivot);
        let motion = PivotalMotion::from_pivots(pivots);
        let motion = if backward {
            motion.rewind().pivotal_local_transform(
                Pivot::from_rotation_matrix(AxisSystem::NegXNegYPosZ.into_mat3()),
            )
        } else {
            motion
        };
        let motion = if flip {
            motion.pivotal_local_transform(
                Pivot::from_rotation_matrix(AxisSystem::NegXPosYNegZ.into_mat3()),
            )
        } else {
            motion
        };
        motion
    }
}

/// An authored route template: a motion primitive placed in an axis system,
/// joining a neighbour slot to an internal docking point, and the fragments a
/// tile must provide for the route to apply.
pub struct RouteFamilyInfo {
    pub motion_primitive: RouteMotionPrimitive,
    pub axis_system: AxisSystem,
    pub external_position: TileExternalAnchorPosition,
    pub internal_position_axis: TileInternalAnchorPositionAxis,
    pub fragments_requirement: Vec<TileFragment>,
}

impl RouteFamilyInfo {
    /// The external anchor of the family's routes: the declared neighbour
    /// slot, on the axis and sign of the axis system's third direction (the
    /// sign mirrored when flipped); it is a resting anchor only for extended
    /// primitives.
    pub open spec fn spec_external_anchor(&self, flip: bool) -> TileAnchor {
        let t = spec_dir_into_tuple(spec_triplet(self.axis_system).2);
        TileAnchor {
            position_axis: TileAnchorPositionAxis::External(self.external_position, t.1),
            sign: spec_sign_xor(t.0, flip),
            stationary: self.motion_primitive.spec_is_extended(),
        }
    }

    /// The internal anchor of the family's routes: the declared docking
    /// point, positive sign (mirrored when flipped), always a resting anchor.
    pub open spec fn spec_internal_anchor(&self, flip: bool) -> TileAnchor {
        TileAnchor {
            position_axis: TileAnchorPositionAxis::Internal(self.internal_position_axis),
            sign: spec_sign_xor(TileAnchorSign::Pos, flip),
            stationary: true,
        }
    }

    /// One of the four symmetry variants of the family: `backward` swaps the
    /// anchors and time-reverses the motion, `flip` mirrors signs and motion.
    /// The motion is corrected into the family's axis system and translated
    /// to the neighbour slot's offset.
    pub fn route(&self, backward: bool, flip: bool) -> (r: Route)
        ensures
            r.initial_anchor == if backward {
                self.spec_internal_anchor(flip)
            } else {
                self.spec_external_anchor(flip)
            },
            r.terminal_anchor == if backward {
                self.spec_external_anchor(flip)
            } else {
                self.spec_internal_anchor(flip)
            },
            r.fragments_requirement@ == self.fragments_requirement@,
            r.pivotal_motion.spec_pivots().len() == if self.motion_primitive.spec_is_extended() {
                2int
            } else {
                1int
            },
    {
        let (external_sign, external_axis) = self.axis_system.into_triplet().2.into_tuple();
        let external_anchor = TileAnchor {
            position_axis: TileAnchorPositionAxis::External(
                self.external_position,
                external_axis,
            ),
            sign: external_sign.xor(flip),
            stationary: self.motion_primitive.is_extended(),
        };
        let internal_anchor = TileAnchor {
            position_axis: TileAnchorPositionAxis::Internal(self.internal_position_axis),
            sign: TileAnchorSign::Pos.xor(flip),
            stationary: true,
        };
        let (initial_anchor, terminal_anchor) = if backward {
            (internal_anchor, external_anchor)
        } else {
            (external_anchor, internal_anchor)
        };
        let offset = self.external_position.into_offset();
        let pivotal_motion = self.motion_primitive.pivot_motion(
            backward,
            flip,
        ).pivotal_global_transform(
            Pivot::from_rotation_matrix(self.axis_system.into_mat3()),
        ).pivotal_global_transform(
            Pivot::from_translation_vector(
                crate::geom::vec3_from_i32(offset.0, offset.1, offset.2),
            ),
        );
        Route {
            initial_anchor,
            terminal_anchor,
            pivotal_motion,
            fragments_requirement: clone_fragments(&self.fragments_requirement),
        }
    }
}

/// A concrete route: initial and terminal anchor, the animated motion joining
/// them, and the fragments a tile must provide.
pub struct Route {
    pub initial_anchor: TileAnchor,
    pub terminal_anchor: TileAnchor,
    pub pivotal_motion: PivotalMotion,
    pub fragments_requirement: Vec<TileFragment>,
}

/// The authored route-family table, row by row: the motion primitive, the
/// axis system, the neighbour slot, the internal docking point, and the
/// fragments a tile must provide. This is the one authoritative statement of
/// the authored movement data; the builders below are held to it.
pub open spec fn spec_family(f: int) -> (
    RouteMotionPrimitive,
    AxisSystem,
    TileExternalAnchorPosition,
    TileInternalAnchorPositionAxis,
    Seq<TileFragment>,
) {
    if f == 0 {
        (
            RouteMotionPrimitive::Plane,
            AxisSystem::PosYNegXPosZ,
            TileExternalAnchorPosition::ForeLeft,
            TileInternalAnchorPositionAxis::PlaneForeZ,
            seq![TileFragment::TriangleZForeLeft],
        )
    } else if f == 1 {
        (
            RouteMotionPrimitive::Plane,
            AxisSystem::NegXNegYPosZ,
            TileExternalAnchorPosition::ForeRight,
            TileInternalAnchorPositionAxis::PlaneForeZ,
            seq![TileFragment::TriangleZForeRight],
        )
    } else if f == 2 {
        (
            RouteMotionPrimitive::Plane,
            AxisSystem::PosXPosYPosZ,
            TileExternalAnchorPosition::RearLeft,
            TileInternalAnchorPositionAxis::PlaneRearZ,
            seq![TileFragment::TriangleZRearLeft],
        )
    } else if f == 3 {
        (
            RouteMotionPrimitive::Plane,
            AxisSystem::NegYPosXPosZ,
            TileExternalAnchorPosition::RearRight,
            TileInternalAnchorPositionAxis::PlaneRearZ,
            seq![TileFragment::TriangleZRearRight],
        )
    } else if f == 4 {
        (
            RouteMotionPrimitive::PlaneExt,
            AxisSystem::PosXPosYPosZ,
            TileExternalAnchorPosition::SideLeft,
            TileInternalAnchorPositionAxis::PlaneForeZ,
            seq![TileFragment::TriangleZSideLeft, TileFragment::TriangleZForeLeft],
        )
    } else if f == 5 {
        (
            RouteMotionPrimitive::PlaneExt,
            AxisSystem::NegYPosXPosZ,
            TileExternalAnchorPosition::SideRight,
            TileInternalAnchorPositionAxis::PlaneForeZ,
            seq![TileFragment::TriangleZSideRight, TileFragment::TriangleZForeRight],
        )
    } else if f == 6 {
        (
            RouteMotionPrimitive::PlaneExt,
            AxisSystem::PosYNegXPosZ,
            TileExternalAnchorPosition::SideLeft,
            TileInternalAnchorPositionAxis::PlaneRearZ,
            seq![TileFragment::TriangleZSideLeft, TileFragment::TriangleZRearLeft],
        )
    } else if f == 7 {
        (
            RouteMotionPrimitive::PlaneExt,
            AxisSystem::NegXNegYPosZ,
            TileExternalAnchorPosition::SideRight,
            TileInternalAnchorPositionAxis::PlaneRearZ,
            seq![TileFragment::TriangleZSideRight, TileFragment::TriangleZRearRight],
        )
    } else if f == 8 {
        (
            RouteMotionPrimitive::Ladder,
            AxisSystem::PosZPosYNegX,
            TileExternalAnchorPosition::SideLeft,
            TileInternalAnchorPositionAxis::LadderMajorFaceX,
            seq![TileFragment::LadderMajorFace],
        )
    } else if f == 9 {
        (
            RouteMotionPrimitive::Ladder,
            AxisSystem::NegZPosXNegY,
            TileExternalAnchorPosition::SideRight,
            TileInternalAnchorPositionAxis::LadderMajorFaceY,
            seq![TileFragment::LadderMajorFace],
        )
    } else if f == 10 {
        (
            RouteMotionPrimitive::Ladder,
            AxisSystem::PosZNegYPosX,
            TileExternalAnchorPosition::SideRight,
            TileInternalAnchorPositionAxis::LadderMajorFaceX,
            seq![TileFragment::LadderMajorFace],
        )
    } else if f == 11 {
        (
            RouteMotionPrimitive::Ladder,
            AxisSystem::NegZNegXPosY,
            TileExternalAnchorPosition::SideLeft,
            TileInternalAnchorPositionAxis::LadderMajorFaceY,
            seq![TileFragment::LadderMajorFace],
        )
    } else if f == 12 {
        (
            RouteMotionPrimitive::LadderExt,
            AxisSystem::NegZNegYNegX,
            TileExternalAnchorPosition::ForeRight,
            TileInternalAnchorPositionAxis::LadderMinorFaceX,
            seq![TileFragment::TriangleXFore, TileFragment::LadderMinorFace],
        )
    } else if f == 13 {
        (
            RouteMotionPrimitive::LadderExt,
            AxisSystem::PosZPosXPosY,
            TileExternalAnchorPosition::ForeRight,
            TileInternalAnchorPositionAxis::LadderMinorFaceY,
            seq![TileFragment::TriangleYRear, TileFragment::LadderMinorFace],
        )
    } else if f == 14 {
        (
            RouteMotionPrimitive::LadderExt,
            AxisSystem::NegZPosYPosX,
            TileExternalAnchorPosition::RearLeft,
            TileInternalAnchorPositionAxis::LadderMinorFaceX,
            seq![TileFragment::TriangleXRear, TileFragment::LadderMinorFace],
        )
    } else if f == 15 {
        (
            RouteMotionPrimitive::LadderExt,
            AxisSystem::PosZNegXNegY,
            TileExternalAnchorPosition::RearLeft,
            TileInternalAnchorPositionAxis::LadderMinorFaceY,
            seq![TileFragment::TriangleYFore, TileFragment::LadderMinorFace],
        )
    } else if f == 16 {
        (
            RouteMotionPrimitive::Arch,
            AxisSystem::PosZNegYPosX,
            TileExternalAnchorPosition::SideRight,
            TileInternalAnchorPositionAxis::ArchMajorFaceXY,
            seq![TileFragment::ArchMajorFace],
        )
    } else if f == 17 {
        (
            RouteMotionPrimitive::Arch,
            AxisSystem::NegZNegXPosY,
            TileExternalAnchorPosition::SideLeft,
            TileInternalAnchorPositionAxis::ArchMajorFaceXY,
            seq![TileFragment::ArchMajorFace],
        )
    } else if f == 18 {
        (
            RouteMotionPrimitive::ArchExt,
            AxisSystem::NegZPosYPosX,
            TileExternalAnchorPosition::RearLeft,
            TileInternalAnchorPositionAxis::ArchMinorFaceXY,
            seq![TileFragment::TriangleXRear, TileFragment::ArchMinorFace],
        )
    } else {
        (
            RouteMotionPrimitive::ArchExt,
            AxisSystem::PosZNegXNegY,
            TileExternalAnchorPosition::ForeLeft,
            TileInternalAnchorPositionAxis::ArchMinorFaceXY,
            seq![TileFragment::TriangleYFore, TileFragment::ArchMinorFace],
        )
    }
}

/// Whether row `f` of a built family list equals row `f` of the authored
/// table.
pub open spec fn family_row_matches(rows: Seq<RouteFamilyInfo>, f: int) -> bool {
    &&& rows[f].motion_primitive == spec_family(f).0
    &&& rows[f].axis_system == spec_family(f).1
    &&& rows[f].external_position == spec_family(f).2
    &&& rows[f].internal_position_axis == spec_family(f).3
    &&& rows[f].fragments_requirement@ == spec_family(f).4
}

/// The external anchor of the authored family `f` (mirrored when flipped).
pub open spec fn family_external_anchor(f: int, flip: bool) -> TileAnchor {
    let t = spec_dir_into_tuple(spec_triplet(spec_family(f).1).2);
    TileAnchor {
        position_axis: TileAnchorPositionAxis::External(spec_family(f).2, t.1),
        sign: spec_sign_xor(t.0, flip),
        stationary: spec_family(f).0.spec_is_extended(),
    }
}

/// The internal anchor of the authored family `f` (mirrored when flipped).
pub open spec fn family_internal_anchor(f: int, flip: bool) -> TileAnchor {
    TileAnchor {
        position_axis: TileAnchorPositionAxis::Internal(spec_family(f).3),
        sign: spec_sign_xor(TileAnchorSign::Pos, flip),
        stationary: true,
    }
}

/// Whether the four routes of family `f` in a built table are exactly the
/// authored family's four symmetry variants: forward, time-reversed,
/// mirrored, and both, each joining the family's two anchors in the right
/// direction, requiring the authored fragments, and carrying a motion with
/// one stem pivot (two for extended primitives).
pub open spec fn route_block_matches(r: Seq<Route>, f: int) -> bool {
    let expected_pivots: int = if spec_family(f).0.spec_is_extended() {
        2
    } else {
        1
    };
    &&& r[4 * f].initial_anchor == family_external_anchor(f, false)
    &&& r[4 * f].terminal_anchor == family_internal_anchor(f, false)
    &&& r[4 * f + 1].initial_anchor == family_internal_anchor(f, false)
    &&& r[4 * f + 1].terminal_anchor == family_external_anchor(f, false)
    &&& r[4 * f + 2].initial_anchor == family_external_anchor(f, true)
    &&& r[4 * f + 2].terminal_anchor == family_internal_anchor(f, true)
    &&& r[4 * f + 3].initial_anchor == family_internal_anchor(f, true)
    &&& r[4 * f + 3].terminal_anchor == family_external_anchor(f, true)
    &&& r[4 * f].fragments_requirement@ == spec_family(f).4
    &&& r[4 * f + 1].fragments_requirement@ == spec_family(f).4
    &&& r[4 * f + 2].fragments_requirement@ == spec_family(f).4
    &&& r[4 * f + 3].fragments_requirement@ == spec_family(f).4
    &&& r[4 * f].pivotal_motion.spec_pivots().len() == expected_pivots
    &&& r[4 * f + 1].pivotal_motion.spec_pivots().len() == expected_pivots
    &&& r[4 * f + 2].pivotal_motion.spec_pivots().len() == expected_pivots
    &&& r[4 * f + 3].pivotal_motion.spec_pivots().len() == expected_pivots
}

/// Push one family onto the list.
fn push_family(
    list: &mut Vec<RouteFamilyInfo>,
    motion_primitive: RouteMotionPrimitive,
    axis_system: AxisSystem,
    external_position: TileExternalAnchorPosition,
    internal_position_axis: TileInternalAnchorPositionAxis,
    fragments_requirement: Vec<TileFragment>,
)
    ensures
        final(list)@.len() == old(list)@.len() + 1,
        final(list)@[old(list)@.len() as int].motion_primitive == motion_primitive,
        final(list)@[old(list)@.len() as int].axis_system == axis_system,
        final(list)@[old(list)@.len() as int].external_position == external_position,
        final(list)@[old(list)@.len() as int].internal_position_axis == internal_position_axis,
        final(list)@[old(list)@.len() as int].fragments_requirement@ == fragments_requirement@,
        forall|k: int| 0 <= k < old(list)@.len() ==> final(list)@[k] == old(list)@[k],
{
    list.push(
        RouteFamilyInfo {
            motion_primitive,
            axis_system,
            external_position,
            internal_position_axis,
            fragments_requirement,
        },
    );
}

/// A fragment list of one element.
fn frags1(a: TileFragment) -> (r: Vec<TileFragment>)
    ensures
        r@ == seq![a],
{
    let mut v: Vec<TileFragment> = Vec::new();
    v.push(a);
    proof {
        assert(v@ =~= seq![a]);
    }
    v
}

/// A fragment list of two elements.
fn frags2(a: TileFragment, b: TileFragment) -> (r: Vec<TileFragment>)
    ensures
        r@ == seq![a, b],
{
    let mut v: Vec<TileFragment> = Vec::new();
    v.push(a);
    v.push(b);
    proof {
        assert(v@ =~= seq![a, b]);
    }
    v
}

/// The authored route families. This table is the authored data of the
/// movement rules; every concrete route is one of its four symmetry variants.
#[verifier::rlimit(100)]
pub fn route_family_info_list() -> (r: Vec<RouteFamilyInfo>)
    ensures
        r@.len() == 20,
        forall|f: int| 0 <= f < 20 ==> #[trigger] family_row_matches(r@, f),
{
    let mut list: Vec<RouteFamilyInfo> = Vec::new();
    push_family(
        &mut list,
        RouteMotionPrimitive::Plane,
        AxisSystem::PosYNegXPosZ,
        TileExternalAnchorPosition::ForeLeft,
        TileInternalAnchorPositionAxis::PlaneForeZ,
        frags1(TileFragment::TriangleZForeLeft),
    );
    proof {
        assert(forall|f: int| 0 <= f < 1 ==> #[trigger] family_row_matches(list@, f));
    }
    push_family(
        &mut list,
        RouteMotionPrimitive::Plane,
        AxisSystem::NegXNegYPosZ,
        TileExternalAnchorPosition::ForeRight,
        TileInternalAnchorPositionAxis::PlaneForeZ,
        frags1(TileFragment::TriangleZForeRight),
    );
    proof {
        assert(forall|f: int| 0 <= f < 2 ==> #[trigger] family_row_matches(list@, f));
    }
    push_family(
        &mut list,
        RouteMotionPrimitive::Plane,
        AxisSystem::PosXPosYPosZ,
        TileExternalAnchorPosition::RearLeft,
        TileInternalAnchorPositionAxis::PlaneRearZ,
        frags1(TileFragment::TriangleZRearLeft),
    );
    proof {
        assert(forall|f: int| 0 <= f < 3 ==> #[trigger] family_row_matches(list@, f));
    }
    push_family(
        &mut list,
        RouteMotionPrimitive::Plane,
        AxisSystem::NegYPosXPosZ,
        TileExternalAnchorPosition::RearRight,
        TileInternalAnchorPositionAxis::PlaneRearZ,
        frags1(TileFragment::TriangleZRearRight),
    );
    proof {
        assert(forall|f: int| 0 <= f < 4 ==> #[trigger] family_row_matches(list@, f));
    }
    push_family(
        &mut list,
        RouteMotionPrimitive::PlaneExt,
        AxisSystem::PosXPosYPosZ,
        TileExternalAnchorPosition::SideLeft,
        TileInternalAnchorPositionAxis::PlaneForeZ,
        frags2(TileFragment::TriangleZSideLeft, TileFragment::TriangleZForeLeft),
    );
    proof {
        assert(forall|f: int| 0 <= f < 5 ==> #[trigger] family_row_matches(list@, f));
    }
    push_family(
        &mut list,
        RouteMotionPrimitive::PlaneExt,
        AxisSystem::NegYPosXPosZ,
        TileExternalAnchorPosition::SideRight,
        TileInternalAnchorPositionAxis::PlaneForeZ,
        frags2(TileFragment::TriangleZSideRight, TileFragment::TriangleZForeRight),
    );
    proof {
        assert(forall|f: int| 0 <= f < 6 ==> #[trigger] family_row_matches(list@, f));
    }
    push_family(
        &mut list,
        RouteMotionPrimitive::PlaneExt,
        AxisSystem::PosYNegXPosZ,
        TileExternalAnchorPosition::SideLeft,
        TileInternalAnchorPositionAxis::PlaneRearZ,
        frags2(TileFragment::TriangleZSideLeft, TileFragment::TriangleZRearLeft),
    );
    proof {
        assert(forall|f: int| 0 <= f < 7 ==> #[trigger] family_row_matches(list@, f));
    }
    push_family(
        &mut list,
        RouteMotionPrimitive::PlaneExt,
        AxisSystem::NegXNegYPosZ,
        TileExternalAnchorPosition::SideRight,
        TileInternalAnchorPositionAxis::PlaneRearZ,
        frags2(TileFragment::TriangleZSideRight, TileFragment::TriangleZRearRight),
    );
    proof {
        assert(forall|f: int| 0 <= f < 8 ==> #[trigger] family_row_matches(list@, f));
    }
    push_family(
        &mut list,
        RouteMotionPrimitive::Ladder,
        AxisSystem::PosZPosYNegX,
        TileExternalAnchorPosition::SideLeft,
        TileInternalAnchorPositionAxis::LadderMajorFaceX,
        frags1(TileFragment::LadderMajorFace),
    );
    proof {
        assert(forall|f: int| 0 <= f < 9 ==> #[trigger] family_row_matches(list@, f));
    }
    push_family(
        &mut list,
        RouteMotionPrimitive::Ladder,
        AxisSystem::NegZPosXNegY,
        TileExternalAnchorPosition::SideRight,
        TileInternalAnchorPositionAxis::LadderMajorFaceY,
        frags1(TileFragment::LadderMajorFace),
    );
    proof {
        assert(forall|f: int| 0 <= f < 10 ==> #[trigger] family_row_matches(list@, f));
    }
    push_family(
        &mut list,
        RouteMotionPrimitive::Ladder,
        AxisSystem::PosZNegYPosX,
        TileExternalAnchorPosition::SideRight,
        TileInternalAnchorPositionAxis::LadderMajorFaceX,
        frags1(TileFragment::LadderMajorFace),
    );
    proof {
        assert(forall|f: int| 0 <= f < 11 ==> #[trigger] family_row_matches(list@, f));
    }
    push_family(
        &mut list,
        RouteMotionPrimitive::Ladder,
        AxisSystem::NegZNegXPosY,
        TileExternalAnchorPosition::SideLeft,
        TileInternalAnchorPositionAxis::LadderMajorFaceY,
        frags1(TileFragment::LadderMajorFace),
    );
    proof {
        assert(forall|f: int| 0 <= f < 12 ==> #[trigger] family_row_matches(list@, f));
    }
    push_family(
        &mut list,
        RouteMotionPrimitive::LadderExt,
        AxisSystem::NegZNegYNegX,
        TileExternalAnchorPosition::ForeRight,
        TileInternalAnchorPositionAxis::LadderMinorFaceX,
        frags2(TileFragment::TriangleXFore, TileFragment::LadderMinorFace),
    );
    proof {
        assert(forall|f: int| 0 <= f < 13 ==> #[trigger] family_row_matches(list@, f));
    }
    push_family(
        &mut list,
        RouteMotionPrimitive::LadderExt,
        AxisSystem::PosZPosXPosY,
        TileExternalAnchorPosition::ForeRight,
        TileInternalAnchorPositionAxis::LadderMinorFaceY,
        frags2(TileFragment::TriangleYRear, TileFragment::LadderMinorFace),
    );
    proof {
        assert(forall|f: int| 0 <= f < 14 ==> #[trigger] family_row_matches(list@, f));
    }
    push_family(
        &mut list,
        RouteMotionPrimitive::LadderExt,
        AxisSystem::NegZPosYPosX,
        TileExternalAnchorPosition::RearLeft,
        TileInternalAnchorPositionAxis::LadderMinorFaceX,
        frags2(TileFragment::TriangleXRear, TileFragment::LadderMinorFace),
    );
    proof {
        assert(forall|f: int| 0 <= f < 15 ==> #[trigger] family_row_matches(list@, f));
    }
    push_family(
        &mut list,
        RouteMotionPrimitive::LadderExt,
        AxisSystem::PosZNegXNegY,
        TileExternalAnchorPosition::RearLeft,
        TileInternalAnchorPositionAxis::LadderMinorFaceY,
        frags2(TileFragment::TriangleYFore, TileFragment::LadderMinorFace),
    );
    proof {
        assert(forall|f: int| 0 <= f < 16 ==> #[trigger] family_row_matches(list@, f));
    }
    push_family(
        &mut list,
        RouteMotionPrimitive::Arch,
        AxisSystem::PosZNegYPosX,
        TileExternalAnchorPosition::SideRight,
        TileInternalAnchorPositionAxis::ArchMajorFaceXY,
        frags1(TileFragment::ArchMajorFace),
    );
    proof {
        assert(forall|f: int| 0 <= f < 17 ==> #[trigger] family_row_matches(list@, f));
    }
    push_family(
        &mut list,
        RouteMotionPrimitive::Arch,
        AxisSystem::NegZNegXPosY,
        TileExternalAnchorPosition::SideLeft,
        TileInternalAnchorPositionAxis::ArchMajorFaceXY,
        frags1(TileFragment::ArchMajorFace),
    );
    proof {
        assert(forall|f: int| 0 <= f < 18 ==> #[trigger] family_row_matches(list@, f));
    }
    push_family(
        &mut list,
        RouteMotionPrimitive::ArchExt,
        AxisSystem::NegZPosYPosX,
        TileExternalAnchorPosition::RearLeft,
        TileInternalAnchorPositionAxis::ArchMinorFaceXY,
        frags2(TileFragment::TriangleXRear, TileFragment::ArchMinorFace),
    );
    proof {
        assert(forall|f: int| 0 <= f < 19 ==> #[trigger] family_row_matches(list@, f));
    }
    push_family(
        &mut list,
        RouteMotionPrimitive::ArchExt,
        AxisSystem::PosZNegXNegY,
        TileExternalAnchorPosition::ForeLeft,
        TileInternalAnchorPositionAxis::ArchMinorFaceXY,
        frags2(TileFragment::TriangleYFore, TileFragment::ArchMinorFace),
    );
    proof {
        assert(forall|f: int| 0 <= f < 20 ==> #[trigger] family_row_matches(list@, f));
    }
    list
}

/// The full route table: every family expanded into its four symmetry
/// variants (identity, time-reversed, mirrored, both).
pub fn route_list() -> (r: Vec<Route>)
    ensures
        r@.len() == 80,
        forall|f: int| 0 <= f < 20 ==> #[trigger] route_block_matches(r@, f),
{
    let families = route_family_info_list();
    let mut routes: Vec<Route> = Vec::new();
    let mut i: usize = 0;
    while i < families.len()
        invariant
            families@.len() == 20,
            forall|f: int| 0 <= f < 20 ==> #[trigger] family_row_matches(families@, f),
            i <= 20,
            routes@.len() == 4 * i as int,
            forall|f: int| 0 <= f < i ==> #[trigger] route_block_matches(routes@, f),
        decreases families@.len() - i,
    {
        let ghost before = routes@;
        let family = &families[i];
        let forward = family.route(false, false);
        let backward = family.route(true, false);
        let mirrored = family.route(false, true);
        let both = family.route(true, true);
        let ghost g_forward = forward;
        let ghost g_backward = backward;
        let ghost g_mirrored = mirrored;
        let ghost g_both = both;
        routes.push(forward);
        let ghost a1 = routes@;
        routes.push(backward);
        let ghost a2 = routes@;
        routes.push(mirrored);
        let ghost a3 = routes@;
        routes.push(both);
        proof {
            assert(family_row_matches(families@, i as int));
            assert(*family == families@[i as int]);
            assert(family.spec_external_anchor(false) == family_external_anchor(i as int, false));
            assert(family.spec_external_anchor(true) == family_external_anchor(i as int, true));
            assert(family.spec_internal_anchor(false) == family_internal_anchor(i as int, false));
            assert(family.spec_internal_anchor(true) == family_internal_anchor(i as int, true));
            assert forall|f: int| 0 <= f < i + 1 implies #[trigger] route_block_matches(
                routes@,
                f,
            ) by {
                if f < i {
                    assert(route_block_matches(before, f));
                    assert(routes@[4 * f] == before[4 * f]);
                    assert(routes@[4 * f + 1] == before[4 * f + 1]);
                    assert(routes@[4 * f + 2] == before[4 * f + 2]);
                    assert(routes@[4 * f + 3] == before[4 * f + 3]);
                } else {
                    assert(a1[4 * f] == g_forward);
                    assert(a2[4 * f + 1] == g_backward);
                    assert(a3[4 * f + 2] == g_mirrored);
                    assert(routes@[4 * f] == g_forward);
                    assert(routes@[4 * f + 1] == g_backward);
                    assert(routes@[4 * f + 2] == g_mirrored);
                    assert(routes@[4 * f + 3] == g_both);
                }
            }
        }
        i = i + 1;
    }
    routes
}

} // verus!
