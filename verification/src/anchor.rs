//! Symbolic attachment points on tiles, and the action of the tile symmetry
//! group on them.
//!
//! Internal anchors are docking points in a tile's own frame and are fixed by
//! every symmetry; external anchors name one of the six edge-adjacent
//! neighbour slots plus a signed axis, and are permuted by the group. Both
//! permutations are modelled arithmetically on a hexagonal cycle, which makes
//! the group-action laws provable by linear arithmetic.

use vstd::prelude::*;

use crate::d6::add6;
use crate::d6::is_reflection;
use crate::d6::rot_of;
use crate::d6::spec_compose;
use crate::d6::spec_dir_act;
use crate::d6::sub6;
use crate::d6::D6;
use crate::d6::Direction;

verus! {

/// A docking point fixed within a tile's local frame.
#[derive(Clone, Copy, Debug, PartialEq, Eq, Structural)]
pub enum TileInternalAnchorPositionAxis {
    PlaneForeZ,
    PlaneRearZ,
    LadderMajorFaceX,
    LadderMajorFaceY,
    LadderMinorFaceX,
    LadderMinorFaceY,
    ArchMajorFaceXY,
    ArchMinorFaceXY,
}

/// One of the six edge-adjacent neighbour slots of a tile.
#[derive(Clone, Copy, Debug, PartialEq, Eq, Structural)]
pub enum TileExternalAnchorPosition {
    ForeLeft,
    ForeRight,
    SideLeft,
    SideRight,
    RearLeft,
    RearRight,
}

/// The axis label of an external anchor.
#[derive(Clone, Copy, Debug, PartialEq, Eq, Structural)]
pub enum TileExternalAnchorAxis {
    X,
    Y,
    Z,
}

/// Where an anchor sits: inside the tile, or on one of its edges.
#[derive(Clone, Copy, Debug, PartialEq, Eq, Structural)]
pub enum TileAnchorPositionAxis {
    Internal(TileInternalAnchorPositionAxis),
    External(TileExternalAnchorPosition, TileExternalAnchorAxis),
}

/// The sign of an anchor's axis.
#[derive(Clone, Copy, Debug, PartialEq, Eq, Structural)]
pub enum TileAnchorSign {
    Pos,
    Neg,
}

/// The sign flipped when the flag is set.
pub open spec fn spec_sign_xor(s: TileAnchorSign, flip: bool) -> TileAnchorSign {
    match (s, flip) {
        (TileAnchorSign::Pos, false) | (TileAnchorSign::Neg, true) => TileAnchorSign::Pos,
        (TileAnchorSign::Neg, false) | (TileAnchorSign::Pos, true) => TileAnchorSign::Neg,
    }
}

impl TileAnchorSign {
    /// The sign flipped when the flag is set.
    pub fn xor(self, flip: bool) -> (r: Self)
        ensures
            r == spec_sign_xor(self, flip),
    {
        match (self, flip) {
            (Self::Pos, false) | (Self::Neg, true) => Self::Pos,
            (Self::Neg, false) | (Self::Pos, true) => Self::Neg,
        }
    }
}

/// The signed direction named by a sign and an external-anchor axis.
pub open spec fn spec_dir_from_tuple(t: (TileAnchorSign, TileExternalAnchorAxis)) -> Direction {
    match t {
        (TileAnchorSign::Pos, TileExternalAnchorAxis::X) => Direction::PosX,
        (TileAnchorSign::Pos, TileExternalAnchorAxis::Y) => Direction::PosY,
        (TileAnchorSign::Pos, TileExternalAnchorAxis::Z) => Direction::PosZ,
        (TileAnchorSign::Neg, TileExternalAnchorAxis::X) => Direction::NegX,
        (TileAnchorSign::Neg, TileExternalAnchorAxis::Y) => Direction::NegY,
        (TileAnchorSign::Neg, TileExternalAnchorAxis::Z) => Direction::NegZ,
    }
}

/// The sign and axis of a signed direction.
pub open spec fn spec_dir_into_tuple(d: Direction) -> (TileAnchorSign, TileExternalAnchorAxis) {
    match d {
        Direction::PosX => (TileAnchorSign::Pos, TileExternalAnchorAxis::X),
        Direction::PosY => (TileAnchorSign::Pos, TileExternalAnchorAxis::Y),
        Direction::PosZ => (TileAnchorSign::Pos, TileExternalAnchorAxis::Z),
        Direction::NegX => (TileAnchorSign::Neg, TileExternalAnchorAxis::X),
        Direction::NegY => (TileAnchorSign::Neg, TileExternalAnchorAxis::Y),
        Direction::NegZ => (TileAnchorSign::Neg, TileExternalAnchorAxis::Z),
    }
}

impl Direction {
    /// The signed direction named by a sign and an external-anchor axis.
    pub fn from_tuple(direction_tuple: (TileAnchorSign, TileExternalAnchorAxis)) -> (r: Self)
        ensures
            r == spec_dir_from_tuple(direction_tuple),
    {
        match direction_tuple {
            (TileAnchorSign::Pos, TileExternalAnchorAxis::X) => Self::PosX,
            (TileAnchorSign::Pos, TileExternalAnchorAxis::Y) => Self::PosY,
            (TileAnchorSign::Pos, TileExternalAnchorAxis::Z) => Self::PosZ,
            (TileAnchorSign::Neg, TileExternalAnchorAxis::X) => Self::NegX,
            (TileAnchorSign::Neg, TileExternalAnchorAxis::Y) => Self::NegY,
            (TileAnchorSign::Neg, TileExternalAnchorAxis::Z) => Self::NegZ,
        }
    }

    /// The sign and axis of this signed direction.
    pub fn into_tuple(self) -> (r: (TileAnchorSign, TileExternalAnchorAxis))
        ensures
            r == spec_dir_into_tuple(self),
    {
        match self {
            Self::PosX => (TileAnchorSign::Pos, TileExternalAnchorAxis::X),
            Self::PosY => (TileAnchorSign::Pos, TileExternalAnchorAxis::Y),
            Self::PosZ => (TileAnchorSign::Pos, TileExternalAnchorAxis::Z),
            Self::NegX => (TileAnchorSign::Neg, TileExternalAnchorAxis::X),
            Self::NegY => (TileAnchorSign::Neg, TileExternalAnchorAxis::Y),
            Self::NegZ => (TileAnchorSign::Neg, TileExternalAnchorAxis::Z),
        }
    }
}

/// The two tuple conversions invert each other.
pub proof fn lemma_dir_tuple_roundtrip(d: Direction, t: (TileAnchorSign, TileExternalAnchorAxis))
    ensures
        spec_dir_from_tuple(spec_dir_into_tuple(d)) == d,
        spec_dir_into_tuple(spec_dir_from_tuple(t)) == t,
{
}

/// Position of a neighbour slot on the hexagonal cycle that the group
/// permutes: rotations advance this index, reflections reverse it.
pub open spec fn pos_hex(p: TileExternalAnchorPosition) -> int {
    match p {
        TileExternalAnchorPosition::ForeLeft => 0,
        TileExternalAnchorPosition::ForeRight => 1,
        TileExternalAnchorPosition::SideRight => 2,
        TileExternalAnchorPosition::RearRight => 3,
        TileExternalAnchorPosition::RearLeft => 4,
        TileExternalAnchorPosition::SideLeft => 5,
    }
}

/// Inverse of `pos_hex`, for indices in `0..6`.
pub open spec fn pos_from_hex(k: int) -> TileExternalAnchorPosition {
    if k == 0 {
        TileExternalAnchorPosition::ForeLeft
    } else if k == 1 {
        TileExternalAnchorPosition::ForeRight
    } else if k == 2 {
        TileExternalAnchorPosition::SideRight
    } else if k == 3 {
        TileExternalAnchorPosition::RearRight
    } else if k == 4 {
        TileExternalAnchorPosition::RearLeft
    } else {
        TileExternalAnchorPosition::SideLeft
    }
}

/// Action of a group element on a neighbour-slot index: rotation `R(n)` maps
/// `k` to `k + n`, reflection `S(n)` maps `k` to `n + 4 - k`, both mod 6.
pub open spec fn hex_pos_act(g: D6, k: int) -> int {
    if !is_reflection(g) {
        add6(k, rot_of(g))
    } else {
        sub6(add6(rot_of(g), 4), k)
    }
}

/// Action of a group element on a neighbour slot.
pub open spec fn spec_pos_act(g: D6, p: TileExternalAnchorPosition) -> TileExternalAnchorPosition {
    pos_from_hex(hex_pos_act(g, pos_hex(p)))
}

proof fn lemma_pos_hex_bijective(p: TileExternalAnchorPosition)
    ensures
        pos_from_hex(pos_hex(p)) == p,
        0 <= pos_hex(p) < 6,
{
}

impl TileExternalAnchorPosition {
    /// Hexagonal-cycle index of this neighbour slot.
    fn hex_index(self) -> (k: u8)
        ensures
            k as int == pos_hex(self),
    {
        match self {
            Self::ForeLeft => 0,
            Self::ForeRight => 1,
            Self::SideRight => 2,
            Self::RearRight => 3,
            Self::RearLeft => 4,
            Self::SideLeft => 5,
        }
    }

    /// Neighbour slot at the given hexagonal-cycle index.
    fn from_hex_index(k: u8) -> (p: Self)
        requires
            k < 6,
        ensures
            p == pos_from_hex(k as int),
    {
        if k == 0 {
            Self::ForeLeft
        } else if k == 1 {
            Self::ForeRight
        } else if k == 2 {
            Self::SideRight
        } else if k == 3 {
            Self::RearRight
        } else if k == 4 {
            Self::RearLeft
        } else {
            Self::SideLeft
        }
    }

    /// Reinterpret this neighbour slot under the given tile symmetry.
    pub fn act(self, action: D6) -> (r: Self)
        ensures
            r == spec_pos_act(action, self),
    {
        let k = self.hex_index();
        let (rot, refl) = action.parts();
        let new_k: u8 = if refl {
            let base = if rot + 4 >= 6 {
                rot + 4 - 6
            } else {
                rot + 4
            };
            if base >= k {
                base - k
            } else {
                base + 6 - k
            }
        } else {
            let t = k + rot;
            if t >= 6 {
                t - 6
            } else {
                t
            }
        };
        Self::from_hex_index(new_k)
    }
}

/// Acting by the identity leaves every neighbour slot unchanged.
pub proof fn lemma_pos_act_identity(p: TileExternalAnchorPosition)
    ensures
        spec_pos_act(D6::R0, p) == p,
{
    lemma_pos_hex_bijective(p);
}

/// Acting by `g` and then by `h` equals acting by `spec_compose(h, g)`.
pub proof fn lemma_pos_act_compose(g: D6, h: D6, p: TileExternalAnchorPosition)
    ensures
        spec_pos_act(h, spec_pos_act(g, p)) == spec_pos_act(spec_compose(h, g), p),
{
    lemma_pos_hex_bijective(p);
    crate::d6::lemma_from_parts_of(g);
    crate::d6::lemma_from_parts_of(h);
    crate::d6::lemma_parts_of_from(add6(rot_of(h), rot_of(g)), is_reflection(g));
    crate::d6::lemma_parts_of_from(sub6(rot_of(h), rot_of(g)), !is_reflection(g));
}

/// The unit coordinate offset of the neighbour slot.
pub open spec fn spec_into_offset(p: TileExternalAnchorPosition) -> (int, int, int) {
    match p {
        TileExternalAnchorPosition::ForeLeft => (1, 0, -1),
        TileExternalAnchorPosition::ForeRight => (0, 1, -1),
        TileExternalAnchorPosition::SideLeft => (1, -1, 0),
        TileExternalAnchorPosition::SideRight => (-1, 1, 0),
        TileExternalAnchorPosition::RearLeft => (0, -1, 1),
        TileExternalAnchorPosition::RearRight => (-1, 0, 1),
    }
}

/// Whether the triple is the offset of some neighbour slot.
pub open spec fn spec_is_neighbour_offset(offset: (int, int, int)) -> bool {
    exists|p: TileExternalAnchorPosition| spec_into_offset(p) == offset
}

/// The neighbour slot with the given offset (for valid offsets).
pub open spec fn spec_from_offset(offset: (int, int, int)) -> TileExternalAnchorPosition {
    choose|p: TileExternalAnchorPosition| spec_into_offset(p) == offset
}

impl TileExternalAnchorPosition {
    /// The unit coordinate offset of this neighbour slot.
    pub fn into_offset(self) -> (r: (i32, i32, i32))
        ensures
            (r.0 as int, r.1 as int, r.2 as int) == spec_into_offset(self),
    {
        match self {
            Self::ForeLeft => (1, 0, -1),
            Self::ForeRight => (0, 1, -1),
            Self::SideLeft => (1, -1, 0),
            Self::SideRight => (-1, 1, 0),
            Self::RearLeft => (0, -1, 1),
            Self::RearRight => (-1, 0, 1),
        }
    }

    /// The neighbour slot with the given unit coordinate offset. Callers must
    /// pass one of the six valid offsets.
    pub fn from_offset(offset: (i32, i32, i32)) -> (r: Self)
        requires
            spec_is_neighbour_offset((offset.0 as int, offset.1 as int, offset.2 as int)),
        ensures
            r == spec_from_offset((offset.0 as int, offset.1 as int, offset.2 as int)),
            spec_into_offset(r) == (offset.0 as int, offset.1 as int, offset.2 as int),
    {
        let r = if offset.0 == 1 && offset.1 == 0 && offset.2 == -1 {
            Self::ForeLeft
        } else if offset.0 == 0 && offset.1 == 1 && offset.2 == -1 {
            Self::ForeRight
        } else if offset.0 == 1 && offset.1 == -1 && offset.2 == 0 {
            Self::SideLeft
        } else if offset.0 == -1 && offset.1 == 1 && offset.2 == 0 {
            Self::SideRight
        } else if offset.0 == 0 && offset.1 == -1 && offset.2 == 1 {
            Self::RearLeft
        } else {
            proof {
                let p = choose|p: TileExternalAnchorPosition|
                    spec_into_offset(p) == (offset.0 as int, offset.1 as int, offset.2 as int);
                assert(p == Self::RearRight);
            }
            Self::RearRight
        };
        proof {
            let witness = choose|p: TileExternalAnchorPosition|
                spec_into_offset(p) == (offset.0 as int, offset.1 as int, offset.2 as int);
            assert(spec_into_offset(witness) == (
                offset.0 as int,
                offset.1 as int,
                offset.2 as int,
            ));
            assert(witness == r);
        }
        r
    }
}

/// The slot across the shared edge: offsets of opposite slots negate.
pub proof fn lemma_opposite_offset(p: TileExternalAnchorPosition)
    ensures
        spec_is_neighbour_offset(
            (
                -spec_into_offset(p).0,
                -spec_into_offset(p).1,
                -spec_into_offset(p).2,
            ),
        ),
{
    let (x, y, z) = spec_into_offset(p);
    match p {
        TileExternalAnchorPosition::ForeLeft => {
            assert(spec_into_offset(TileExternalAnchorPosition::RearRight) == (-x, -y, -z));
        },
        TileExternalAnchorPosition::ForeRight => {
            assert(spec_into_offset(TileExternalAnchorPosition::RearLeft) == (-x, -y, -z));
        },
        TileExternalAnchorPosition::SideLeft => {
            assert(spec_into_offset(TileExternalAnchorPosition::SideRight) == (-x, -y, -z));
        },
        TileExternalAnchorPosition::SideRight => {
            assert(spec_into_offset(TileExternalAnchorPosition::SideLeft) == (-x, -y, -z));
        },
        TileExternalAnchorPosition::RearLeft => {
            assert(spec_into_offset(TileExternalAnchorPosition::ForeRight) == (-x, -y, -z));
        },
        TileExternalAnchorPosition::RearRight => {
            assert(spec_into_offset(TileExternalAnchorPosition::ForeLeft) == (-x, -y, -z));
        },
    }
}

/// A symbolic attachment point: a position (internal or external), a sign,
/// and whether it is a valid resting state for the search.
#[derive(Clone, Copy, Debug, PartialEq, Eq, Structural)]
pub struct TileAnchor {
    pub position_axis: TileAnchorPositionAxis,
    pub sign: TileAnchorSign,
    pub stationary: bool,
}

/// Action of a group element on an anchor: internal anchors are fixed;
/// external anchors have their neighbour slot permuted and their signed axis
/// reinterpreted as a direction and acted on.
pub open spec fn spec_anchor_act(a: TileAnchor, g: D6) -> TileAnchor {
    match a.position_axis {
        TileAnchorPositionAxis::Internal(_) => a,
        TileAnchorPositionAxis::External(pos, axis) => {
            let d = spec_dir_from_tuple((a.sign, axis));
            let nd = spec_dir_act(g, d);
            let t = spec_dir_into_tuple(nd);
            TileAnchor {
                position_axis: TileAnchorPositionAxis::External(spec_pos_act(g, pos), t.1),
                sign: t.0,
                stationary: a.stationary,
            }
        },
    }
}

impl TileAnchor {
    /// Reinterpret this anchor under the given tile symmetry.
    pub fn act(self, action: D6) -> (r: Self)
        ensures
            r == spec_anchor_act(self, action),
    {
        match self.position_axis {
            TileAnchorPositionAxis::Internal(_) => self,
            TileAnchorPositionAxis::External(pos, axis) => {
                let d = Direction::from_tuple((self.sign, axis));
                let nd = d.act(action);
                let (new_sign, new_axis) = nd.into_tuple();
                TileAnchor {
                    position_axis: TileAnchorPositionAxis::External(pos.act(action), new_axis),
                    sign: new_sign,
                    stationary: self.stationary,
                }
            },
        }
    }
}

/// Acting by the identity leaves every anchor unchanged.
pub proof fn lemma_anchor_act_identity(a: TileAnchor)
    ensures
        spec_anchor_act(a, D6::R0) == a,
{
    match a.position_axis {
        TileAnchorPositionAxis::Internal(_) => {},
        TileAnchorPositionAxis::External(pos, axis) => {
            lemma_pos_act_identity(pos);
            crate::d6::lemma_dir_act_identity(spec_dir_from_tuple((a.sign, axis)));
            lemma_dir_tuple_roundtrip(
                spec_dir_from_tuple((a.sign, axis)),
                (a.sign, axis),
            );
        },
    }
}

/// `TileAnchor::act` is a left group action: acting by `g` and then by `h`
/// equals acting once by `spec_compose(h, g)`.
pub proof fn lemma_anchor_act_compose(a: TileAnchor, g: D6, h: D6)
    ensures
        spec_anchor_act(spec_anchor_act(a, g), h) == spec_anchor_act(a, spec_compose(h, g)),
{
    match a.position_axis {
        TileAnchorPositionAxis::Internal(_) => {},
        TileAnchorPositionAxis::External(pos, axis) => {
            let d = spec_dir_from_tuple((a.sign, axis));
            let nd = spec_dir_act(g, d);
            lemma_pos_act_compose(g, h, pos);
            crate::d6::lemma_dir_act_compose(g, h, d);
            lemma_dir_tuple_roundtrip(nd, spec_dir_into_tuple(nd));
        },
    }
}

} // verus!
