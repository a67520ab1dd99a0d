//! The dihedral symmetry group of the hexagonal tiling (12 elements), the six
//! signed axis directions, and the 24 right-handed-or-reflected axis systems.
//!
//! Group elements are modelled by a rotation index in `0..6` together with a
//! reflection flag; the composition law is stated arithmetically over that
//! model, which makes the group laws provable by plain linear arithmetic.

use vstd::prelude::*;

verus! {

/// One symmetry of the hexagonal tile: `R0`..`R5` are rotations, `S0`..`S5`
/// reflections; `R0` is the identity.
#[derive(Clone, Copy, Debug, PartialEq, Eq, Structural)]
pub enum D6 {
    R0,
    R1,
    R2,
    R3,
    R4,
    R5,
    S0,
    S1,
    S2,
    S3,
    S4,
    S5,
}

/// Rotation index of a group element, in `0..6`.
pub open spec fn rot_of(a: D6) -> int {
    match a {
        D6::R0 => 0,
        D6::R1 => 1,
        D6::R2 => 2,
        D6::R3 => 3,
        D6::R4 => 4,
        D6::R5 => 5,
        D6::S0 => 0,
        D6::S1 => 1,
        D6::S2 => 2,
        D6::S3 => 3,
        D6::S4 => 4,
        D6::S5 => 5,
    }
}

/// Whether the element is one of the six reflections.
pub open spec fn is_reflection(a: D6) -> bool {
    match a {
        D6::R0 | D6::R1 | D6::R2 | D6::R3 | D6::R4 | D6::R5 => false,
        D6::S0 | D6::S1 | D6::S2 | D6::S3 | D6::S4 | D6::S5 => true,
    }
}

/// The element with the given rotation index (taken in `0..6`) and reflection
/// flag.
pub open spec fn d6_from(rot: int, refl: bool) -> D6 {
    if refl {
        if rot == 0 {
            D6::S0
        } else if rot == 1 {
            D6::S1
        } else if rot == 2 {
            D6::S2
        } else if rot == 3 {
            D6::S3
        } else if rot == 4 {
            D6::S4
        } else {
            D6::S5
        }
    } else {
        if rot == 0 {
            D6::R0
        } else if rot == 1 {
            D6::R1
        } else if rot == 2 {
            D6::R2
        } else if rot == 3 {
            D6::R3
        } else if rot == 4 {
            D6::R4
        } else {
            D6::R5
        }
    }
}

/// Sum of two indices in `0..6`, reduced into `0..6`.
pub open spec fn add6(a: int, b: int) -> int {
    if a + b >= 6 {
        a + b - 6
    } else {
        a + b
    }
}

/// Difference of two indices in `0..6`, reduced into `0..6`.
pub open spec fn sub6(a: int, b: int) -> int {
    if a - b >= 0 {
        a - b
    } else {
        a - b + 6
    }
}

/// The group product. With rotations written `R(i)` and reflections `S(i)`:
/// `R(i)*R(j) = R(i+j)`, `R(i)*S(j) = S(i+j)`, `S(i)*R(j) = S(i-j)`,
/// `S(i)*S(j) = R(i-j)`, all indices mod 6.
pub open spec fn spec_compose(a: D6, b: D6) -> D6 {
    if !is_reflection(a) {
        d6_from(add6(rot_of(a), rot_of(b)), is_reflection(b))
    } else {
        d6_from(sub6(rot_of(a), rot_of(b)), !is_reflection(b))
    }
}

/// The inverse: rotations invert to the opposite rotation, reflections are
/// involutions.
pub open spec fn spec_inverse(a: D6) -> D6 {
    if is_reflection(a) {
        a
    } else {
        d6_from(sub6(0, rot_of(a)), false)
    }
}

pub(crate) proof fn lemma_parts_of_from(rot: int, refl: bool)
    requires
        0 <= rot < 6,
    ensures
        rot_of(d6_from(rot, refl)) == rot,
        is_reflection(d6_from(rot, refl)) == refl,
{
}

pub(crate) proof fn lemma_from_parts_of(a: D6)
    ensures
        d6_from(rot_of(a), is_reflection(a)) == a,
        0 <= rot_of(a) < 6,
{
}

impl D6 {
    /// Rotation index and reflection flag of this element.
    pub(crate) fn parts(self) -> (r: (u8, bool))
        ensures
            r.0 as int == rot_of(self),
            r.1 == is_reflection(self),
    {
        match self {
            D6::R0 => (0, false),
            D6::R1 => (1, false),
            D6::R2 => (2, false),
            D6::R3 => (3, false),
            D6::R4 => (4, false),
            D6::R5 => (5, false),
            D6::S0 => (0, true),
            D6::S1 => (1, true),
            D6::S2 => (2, true),
            D6::S3 => (3, true),
            D6::S4 => (4, true),
            D6::S5 => (5, true),
        }
    }

    /// The element with the given rotation index and reflection flag.
    fn from_parts(rot: u8, refl: bool) -> (r: Self)
        requires
            rot < 6,
        ensures
            r == d6_from(rot as int, refl),
    {
        if refl {
            if rot == 0 {
                D6::S0
            } else if rot == 1 {
                D6::S1
            } else if rot == 2 {
                D6::S2
            } else if rot == 3 {
                D6::S3
            } else if rot == 4 {
                D6::S4
            } else {
                D6::S5
            }
        } else {
            if rot == 0 {
                D6::R0
            } else if rot == 1 {
                D6::R1
            } else if rot == 2 {
                D6::R2
            } else if rot == 3 {
                D6::R3
            } else if rot == 4 {
                D6::R4
            } else {
                D6::R5
            }
        }
    }

    /// The group product `self * rhs`.
    pub fn compose(self, rhs: Self) -> (r: Self)
        ensures
            r == spec_compose(self, rhs),
    {
        let (ra, sa) = self.parts();
        let (rb, sb) = rhs.parts();
        let rot: u8 = if sa {
            if ra >= rb {
                ra - rb
            } else {
                ra + 6 - rb
            }
        } else {
            let s = ra + rb;
            if s >= 6 {
                s - 6
            } else {
                s
            }
        };
        Self::from_parts(rot, sa != sb)
    }

    /// The group inverse of `self`.
    pub fn inverse(self) -> (r: Self)
        ensures
            r == spec_inverse(self),
    {
        let (ra, sa) = self.parts();
        if sa {
            self
        } else {
            Self::from_parts(if ra == 0 { 0 } else { 6 - ra }, false)
        }
    }
}

/// The group product is associative.
pub proof fn lemma_d6_associative(a: D6, b: D6, c: D6)
    ensures
        spec_compose(spec_compose(a, b), c) == spec_compose(a, spec_compose(b, c)),
{
    lemma_from_parts_of(a);
    lemma_from_parts_of(b);
    lemma_from_parts_of(c);
    lemma_parts_of_from(add6(rot_of(a), rot_of(b)), is_reflection(b));
    lemma_parts_of_from(sub6(rot_of(a), rot_of(b)), !is_reflection(b));
    lemma_parts_of_from(add6(rot_of(b), rot_of(c)), is_reflection(c));
    lemma_parts_of_from(sub6(rot_of(b), rot_of(c)), !is_reflection(c));
}

/// `R0` is a two-sided identity.
pub proof fn lemma_d6_identity(a: D6)
    ensures
        spec_compose(D6::R0, a) == a,
        spec_compose(a, D6::R0) == a,
{
    lemma_from_parts_of(a);
}

/// Every element has `spec_inverse` as a two-sided inverse.
pub proof fn lemma_d6_inverse(a: D6)
    ensures
        spec_compose(a, spec_inverse(a)) == D6::R0,
        spec_compose(spec_inverse(a), a) == D6::R0,
{
    lemma_from_parts_of(a);
    lemma_parts_of_from(sub6(0, rot_of(a)), false);
}

/// Inverses are unique: the only right inverse of `a` is `spec_inverse(a)`.
pub proof fn lemma_d6_inverse_unique(a: D6, b: D6)
    requires
        spec_compose(a, b) == D6::R0,
    ensures
        b == spec_inverse(a),
{
    lemma_from_parts_of(a);
    lemma_from_parts_of(b);
    lemma_parts_of_from(sub6(0, rot_of(a)), false);
    if !is_reflection(a) {
        lemma_parts_of_from(add6(rot_of(a), rot_of(b)), is_reflection(b));
    } else {
        lemma_parts_of_from(sub6(rot_of(a), rot_of(b)), !is_reflection(b));
    }
}

/// One signed unit axis direction in the tiling's three-axis frame.
#[derive(Clone, Copy, Debug, PartialEq, Eq, Structural)]
pub enum Direction {
    PosX,
    PosY,
    PosZ,
    NegX,
    NegY,
    NegZ,
}

/// Position of a direction on the hexagonal cycle that the group permutes:
/// rotations advance this index, reflections reverse it.
pub open spec fn dir_hex(d: Direction) -> int {
    match d {
        Direction::PosX => 0,
        Direction::NegZ => 1,
        Direction::PosY => 2,
        Direction::NegX => 3,
        Direction::PosZ => 4,
        Direction::NegY => 5,
    }
}

/// Inverse of `dir_hex`, for indices in `0..6`.
pub open spec fn dir_from_hex(k: int) -> Direction {
    if k == 0 {
        Direction::PosX
    } else if k == 1 {
        Direction::NegZ
    } else if k == 2 {
        Direction::PosY
    } else if k == 3 {
        Direction::NegX
    } else if k == 4 {
        Direction::PosZ
    } else {
        Direction::NegY
    }
}

/// Action of a group element on a hexagonal index: rotation `R(n)` maps `k` to
/// `k + n`, reflection `S(n)` maps `k` to `n - 1 - k`, both mod 6.
pub open spec fn hex_dir_act(g: D6, k: int) -> int {
    if !is_reflection(g) {
        add6(k, rot_of(g))
    } else {
        let t = rot_of(g) + 5 - k;
        if t >= 6 {
            t - 6
        } else {
            t
        }
    }
}

/// Action of a group element on a signed direction.
pub open spec fn spec_dir_act(g: D6, d: Direction) -> Direction {
    dir_from_hex(hex_dir_act(g, dir_hex(d)))
}

proof fn lemma_dir_hex_bijective(d: Direction)
    ensures
        dir_from_hex(dir_hex(d)) == d,
        0 <= dir_hex(d) < 6,
{
}

impl Direction {
    /// Hexagonal-cycle index of this direction.
    fn hex_index(self) -> (k: u8)
        ensures
            k as int == dir_hex(self),
    {
        match self {
            Direction::PosX => 0,
            Direction::NegZ => 1,
            Direction::PosY => 2,
            Direction::NegX => 3,
            Direction::PosZ => 4,
            Direction::NegY => 5,
        }
    }

    /// Direction at the given hexagonal-cycle index.
    fn from_hex_index(k: u8) -> (d: Self)
        requires
            k < 6,
        ensures
            d == dir_from_hex(k as int),
    {
        if k == 0 {
            Direction::PosX
        } else if k == 1 {
            Direction::NegZ
        } else if k == 2 {
            Direction::PosY
        } else if k == 3 {
            Direction::NegX
        } else if k == 4 {
            Direction::PosZ
        } else {
            Direction::NegY
        }
    }

    /// Reinterpret this direction under the given tile symmetry.
    pub fn act(self, action: D6) -> (r: Self)
        ensures
            r == spec_dir_act(action, self),
    {
        let k = self.hex_index();
        let (rot, refl) = action.parts();
        let new_k: u8 = if refl {
            let t = rot + 5 - k;
            if t >= 6 {
                t - 6
            } else {
                t
            }
        } else {
            let t = k + rot;
            if t >= 6 {
                t - 6
            } else {
                t
            }
        };
        Self::from_hex_index(new_k)
    }

    /// The unit integer vector of this direction.
    pub open spec fn spec_vec(self) -> (int, int, int) {
        match self {
            Direction::PosX => (1, 0, 0),
            Direction::PosY => (0, 1, 0),
            Direction::PosZ => (0, 0, 1),
            Direction::NegX => (-1, 0, 0),
            Direction::NegY => (0, -1, 0),
            Direction::NegZ => (0, 0, -1),
        }
    }

    /// The unit integer vector of this direction, as machine integers.
    pub fn components(self) -> (t: (i32, i32, i32))
        ensures
            (t.0 as int, t.1 as int, t.2 as int) == self.spec_vec(),
    {
        match self {
            Direction::PosX => (1, 0, 0),
            Direction::PosY => (0, 1, 0),
            Direction::PosZ => (0, 0, 1),
            Direction::NegX => (-1, 0, 0),
            Direction::NegY => (0, -1, 0),
            Direction::NegZ => (0, 0, -1),
        }
    }
}

/// Acting by the identity leaves every direction unchanged.
pub proof fn lemma_dir_act_identity(d: Direction)
    ensures
        spec_dir_act(D6::R0, d) == d,
{
    lemma_dir_hex_bijective(d);
}

/// Acting by `g` and then by `h` equals acting by `spec_compose(h, g)`.
pub proof fn lemma_dir_act_compose(g: D6, h: D6, d: Direction)
    ensures
        spec_dir_act(h, spec_dir_act(g, d)) == spec_dir_act(spec_compose(h, g), d),
{
    lemma_dir_hex_bijective(d);
    lemma_from_parts_of(g);
    lemma_from_parts_of(h);
    lemma_parts_of_from(add6(rot_of(h), rot_of(g)), is_reflection(g));
    lemma_parts_of_from(sub6(rot_of(h), rot_of(g)), !is_reflection(g));
}

/// One of the 24 ordered triplets of mutually orthogonal signed directions;
/// the name lists the images of the X, Y and Z axes in order.
#[derive(Clone, Copy, Debug, PartialEq, Eq, Structural)]
#[allow(dead_code)]
pub enum AxisSystem {
    PosXPosYPosZ,
    NegXNegYPosZ,
    PosXNegYNegZ,
    NegXPosYNegZ,
    PosXPosZNegY,
    NegXNegZNegY,
    PosXNegZPosY,
    NegXPosZPosY,
    PosYPosZPosX,
    NegYNegZPosX,
    PosYNegZNegX,
    NegYPosZNegX,
    PosYPosXNegZ,
    NegYNegXNegZ,
    PosYNegXPosZ,
    NegYPosXPosZ,
    PosZPosXPosY,
    NegZNegXPosY,
    PosZNegXNegY,
    NegZPosXNegY,
    PosZPosYNegX,
    NegZNegYNegX,
    PosZNegYPosX,
    NegZPosYPosX,
}

/// The ordered direction triplet of an axis system.
pub open spec fn spec_triplet(a: AxisSystem) -> (Direction, Direction, Direction) {
    match a {
        AxisSystem::PosXPosYPosZ => (Direction::PosX, Direction::PosY, Direction::PosZ),
        AxisSystem::NegXNegYPosZ => (Direction::NegX, Direction::NegY, Direction::PosZ),
        AxisSystem::PosXNegYNegZ => (Direction::PosX, Direction::NegY, Direction::NegZ),
        AxisSystem::NegXPosYNegZ => (Direction::NegX, Direction::PosY, Direction::NegZ),
        AxisSystem::PosXPosZNegY => (Direction::PosX, Direction::PosZ, Direction::NegY),
        AxisSystem::NegXNegZNegY => (Direction::NegX, Direction::NegZ, Direction::NegY),
        AxisSystem::PosXNegZPosY => (Direction::PosX, Direction::NegZ, Direction::PosY),
        AxisSystem::NegXPosZPosY => (Direction::NegX, Direction::PosZ, Direction::PosY),
        AxisSystem::PosYPosZPosX => (Direction::PosY, Direction::PosZ, Direction::PosX),
        AxisSystem::NegYNegZPosX => (Direction::NegY, Direction::NegZ, Direction::PosX),
        AxisSystem::PosYNegZNegX => (Direction::PosY, Direction::NegZ, Direction::NegX),
        AxisSystem::NegYPosZNegX => (Direction::NegY, Direction::PosZ, Direction::NegX),
        AxisSystem::PosYPosXNegZ => (Direction::PosY, Direction::PosX, Direction::NegZ),
        AxisSystem::NegYNegXNegZ => (Direction::NegY, Direction::NegX, Direction::NegZ),
        AxisSystem::PosYNegXPosZ => (Direction::PosY, Direction::NegX, Direction::PosZ),
        AxisSystem::NegYPosXPosZ => (Direction::NegY, Direction::PosX, Direction::PosZ),
        AxisSystem::PosZPosXPosY => (Direction::PosZ, Direction::PosX, Direction::PosY),
        AxisSystem::NegZNegXPosY => (Direction::NegZ, Direction::NegX, Direction::PosY),
        AxisSystem::PosZNegXNegY => (Direction::PosZ, Direction::NegX, Direction::NegY),
        AxisSystem::NegZPosXNegY => (Direction::NegZ, Direction::PosX, Direction::NegY),
        AxisSystem::PosZPosYNegX => (Direction::PosZ, Direction::PosY, Direction::NegX),
        AxisSystem::NegZNegYNegX => (Direction::NegZ, Direction::NegY, Direction::NegX),
        AxisSystem::PosZNegYPosX => (Direction::PosZ, Direction::NegY, Direction::PosX),
        AxisSystem::NegZPosYPosX => (Direction::NegZ, Direction::PosY, Direction::PosX),
    }
}

impl AxisSystem {
    /// The ordered direction triplet of this axis system.
    pub fn into_triplet(self) -> (r: (Direction, Direction, Direction))
        ensures
            r == spec_triplet(self),
    {
        match self {
            Self::PosXPosYPosZ => (Direction::PosX, Direction::PosY, Direction::PosZ),
            Self::NegXNegYPosZ => (Direction::NegX, Direction::NegY, Direction::PosZ),
            Self::PosXNegYNegZ => (Direction::PosX, Direction::NegY, Direction::NegZ),
            Self::NegXPosYNegZ => (Direction::NegX, Direction::PosY, Direction::NegZ),
            Self::PosXPosZNegY => (Direction::PosX, Direction::PosZ, Direction::NegY),
            Self::NegXNegZNegY => (Direction::NegX, Direction::NegZ, Direction::NegY),
            Self::PosXNegZPosY => (Direction::PosX, Direction::NegZ, Direction::PosY),
            Self::NegXPosZPosY => (Direction::NegX, Direction::PosZ, Direction::PosY),
            Self::PosYPosZPosX => (Direction::PosY, Direction::PosZ, Direction::PosX),
            Self::NegYNegZPosX => (Direction::NegY, Direction::NegZ, Direction::PosX),
            Self::PosYNegZNegX => (Direction::PosY, Direction::NegZ, Direction::NegX),
            Self::NegYPosZNegX => (Direction::NegY, Direction::PosZ, Direction::NegX),
            Self::PosYPosXNegZ => (Direction::PosY, Direction::PosX, Direction::NegZ),
            Self::NegYNegXNegZ => (Direction::NegY, Direction::NegX, Direction::NegZ),
            Self::PosYNegXPosZ => (Direction::PosY, Direction::NegX, Direction::PosZ),
            Self::NegYPosXPosZ => (Direction::NegY, Direction::PosX, Direction::PosZ),
            Self::PosZPosXPosY => (Direction::PosZ, Direction::PosX, Direction::PosY),
            Self::NegZNegXPosY => (Direction::NegZ, Direction::NegX, Direction::PosY),
            Self::PosZNegXNegY => (Direction::PosZ, Direction::NegX, Direction::NegY),
            Self::NegZPosXNegY => (Direction::NegZ, Direction::PosX, Direction::NegY),
            Self::PosZPosYNegX => (Direction::PosZ, Direction::PosY, Direction::NegX),
            Self::NegZNegYNegX => (Direction::NegZ, Direction::NegY, Direction::NegX),
            Self::PosZNegYPosX => (Direction::PosZ, Direction::NegY, Direction::PosX),
            Self::NegZPosYPosX => (Direction::NegZ, Direction::PosY, Direction::PosX),
        }
    }
}

/// Dot product of two integer vectors.
pub open spec fn dot3(u: (int, int, int), v: (int, int, int)) -> int {
    u.0 * v.0 + u.1 * v.1 + u.2 * v.2
}

/// Determinant of the matrix with the three given columns.
pub open spec fn det3(c0: (int, int, int), c1: (int, int, int), c2: (int, int, int)) -> int {
    c0.0 * (c1.1 * c2.2 - c1.2 * c2.1) - c1.0 * (c0.1 * c2.2 - c0.2 * c2.1) + c2.0 * (
    c0.1 * c1.2 - c0.2 * c1.1)
}

/// The direction triplet of every axis system is an orthonormal integer frame:
/// the three unit vectors are pairwise orthogonal and the determinant of the
/// matrix they form is `1` or `-1`.
pub proof fn lemma_axis_system_orthonormal(a: AxisSystem)
    ensures
        ({
            let (d0, d1, d2) = spec_triplet(a);
            let (v0, v1, v2) = (d0.spec_vec(), d1.spec_vec(), d2.spec_vec());
            dot3(v0, v0) == 1 && dot3(v1, v1) == 1 && dot3(v2, v2) == 1 && dot3(v0, v1) == 0
                && dot3(v0, v2) == 0 && dot3(v1, v2) == 0 && (det3(v0, v1, v2) == 1 || det3(
                v0,
                v1,
                v2,
            ) == -1)
        }),
{
    match a {
        AxisSystem::PosXPosYPosZ => {},
        AxisSystem::NegXNegYPosZ => {},
        AxisSystem::PosXNegYNegZ => {},
        AxisSystem::NegXPosYNegZ => {},
        AxisSystem::PosXPosZNegY => {},
        AxisSystem::NegXNegZNegY => {},
        AxisSystem::PosXNegZPosY => {},
        AxisSystem::NegXPosZPosY => {},
        AxisSystem::PosYPosZPosX => {},
        AxisSystem::NegYNegZPosX => {},
        AxisSystem::PosYNegZNegX => {},
        AxisSystem::NegYPosZNegX => {},
        AxisSystem::PosYPosXNegZ => {},
        AxisSystem::NegYNegXNegZ => {},
        AxisSystem::PosYNegXPosZ => {},
        AxisSystem::NegYPosXPosZ => {},
        AxisSystem::PosZPosXPosY => {},
        AxisSystem::NegZNegXPosY => {},
        AxisSystem::PosZNegXNegY => {},
        AxisSystem::NegZPosXNegY => {},
        AxisSystem::PosZPosYNegX => {},
        AxisSystem::NegZNegYNegX => {},
        AxisSystem::PosZNegYPosX => {},
        AxisSystem::NegZPosYPosX => {},
    }
}

} // verus!
