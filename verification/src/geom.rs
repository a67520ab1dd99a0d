//! Trusted boundary to the `glam` linear-algebra crate.
//!
//! The crate's own reasoning stays in exact integers; `glam`'s matrices and
//! vectors are carried as opaque values. The two named results `vec3_of` and
//! `mat3_of` pin the conversions from exact integer data down to a function of
//! that data, so that contracts elsewhere can say precisely which matrix or
//! vector a value is.

use vstd::prelude::*;

use crate::d6::AxisSystem;
use crate::d6::Direction;

verus! {

#[verifier::external_type_specification]
#[verifier::external_body]
pub struct ExVec3(glam::Vec3);

#[verifier::external_type_specification]
#[verifier::external_body]
pub struct ExMat3(glam::Mat3);

#[verifier::external_type_specification]
#[verifier::external_body]
pub struct ExMat4(glam::Mat4);

#[verifier::external_type_specification]
#[verifier::external_body]
pub struct ExQuat(glam::Quat);

#[verifier::external_type_specification]
#[verifier::external_body]
pub struct ExVec2(glam::Vec2);

/// The `glam` vector whose components are the given integers.
pub uninterp spec fn vec3_of(x: int, y: int, z: int) -> glam::Vec3;

/// The `glam` matrix whose column-major entries are the given integers, each
/// divided by the given positive denominator.
pub uninterp spec fn mat3_of(cols: Seq<int>, den: int) -> glam::Mat3;

/// Relies on `glam::IVec3::new` and `glam::IVec3::as_vec3`: the result is the
/// vector with exactly the given integer components (exact for the small
/// magnitudes this crate uses), a function of the arguments alone.
#[verifier::external_body]
pub fn vec3_from_i32(x: i32, y: i32, z: i32) -> (r: glam::Vec3)
    ensures
        r == vec3_of(x as int, y as int, z as int),
{
    glam::IVec3::new(x, y, z).as_vec3()
}

/// Relies on `glam::Mat3::from_cols`, `glam::IVec3::as_vec3` and `glam`'s
/// componentwise vector division: the result is the matrix of the given
/// column-major integer entries divided by `den`, a function of the arguments
/// alone.
#[verifier::external_body]
pub fn mat3_from_rational(cols: &[i32; 9], den: i32) -> (r: glam::Mat3)
    requires
        den > 0,
    ensures
        r == mat3_of(cols@.map_values(|c: i32| c as int), den as int),
{
    let d = glam::IVec3::new(den, den, den).as_vec3();
    glam::Mat3::from_cols(
        glam::IVec3::new(cols[0], cols[1], cols[2]).as_vec3() / d,
        glam::IVec3::new(cols[3], cols[4], cols[5]).as_vec3() / d,
        glam::IVec3::new(cols[6], cols[7], cols[8]).as_vec3() / d,
    )
}

/// Relies on `glam`'s `f32` trigonometry (`Vec2::angle_to`, `f32::tan`) and
/// vector arithmetic: the Plücker direction and moment of the canonical stem
/// screw. The direction is the bend angle along X: exactly `pi/4` (an eighth
/// of a turn, the value the authored route and anchor tables are built
/// around, even where the bend is described more loosely as a quarter turn)
/// when bending, else zero. The moment couples the slope (1 when rising,
/// else 0) and the bend: with `a` the angle and `c = a*cot(a)` (1 when `a`
/// is zero), it is `(c + a*slope)` along Y and `(c*slope - a)` along Z.
#[verifier::external_body]
pub fn stem_plucker(rising: bool, quarter_turn: bool) -> (r: (glam::Vec3, glam::Vec3)) {
    let zero = glam::Vec3::ZERO.x;
    let one = glam::Vec3::ONE.x;
    let slope = if rising { one } else { zero };
    let angle = if quarter_turn { glam::Vec2::X.angle_to(glam::Vec2::Y) / (one + one) } else { zero };
    let angle_cot_angle = if angle != zero { angle / angle.tan() } else { one };
    (
        glam::Vec3::X * angle,
        glam::Vec3::Y * (angle_cot_angle + angle * slope) + glam::Vec3::Z * (angle_cot_angle
            * slope - angle),
    )
}

/// Relies on `glam::Quat::from_mat3`: the quaternion equivalent to a rotation
/// matrix.
#[verifier::external_body]
pub fn quat_from_mat3(m: &glam::Mat3) -> (r: glam::Quat) {
    glam::Quat::from_mat3(m)
}

/// Relies on `glam::Quat::to_scaled_axis`: the rotation axis scaled by the
/// rotation angle.
#[verifier::external_body]
pub fn quat_to_scaled_axis(q: glam::Quat) -> (r: glam::Vec3) {
    q.to_scaled_axis()
}

/// The column-major integer entries of the orientation matrix of an axis
/// system: its columns are the triplet's unit direction vectors.
pub open spec fn axis_cols(a: AxisSystem) -> Seq<int> {
    let (d0, d1, d2) = crate::d6::spec_triplet(a);
    let (v0, v1, v2) = (d0.spec_vec(), d1.spec_vec(), d2.spec_vec());
    seq![v0.0, v0.1, v0.2, v1.0, v1.1, v1.2, v2.0, v2.1, v2.2]
}

impl Direction {
    /// The unit vector of this direction, as a `glam` vector.
    pub fn into_vec3(self) -> (r: glam::Vec3)
        ensures
            r == vec3_of(self.spec_vec().0, self.spec_vec().1, self.spec_vec().2),
    {
        let c = self.components();
        vec3_from_i32(c.0, c.1, c.2)
    }
}

impl AxisSystem {
    /// The orientation matrix whose columns are the triplet's unit vectors.
    pub fn into_mat3(self) -> (r: glam::Mat3)
        ensures
            r == mat3_of(axis_cols(self), 1),
    {
        let (d0, d1, d2) = self.into_triplet();
        let (c0, c1, c2) = (d0.components(), d1.components(), d2.components());
        let arr: [i32; 9] = [c0.0, c0.1, c0.2, c1.0, c1.1, c1.2, c2.0, c2.1, c2.2];
        let r = mat3_from_rational(&arr, 1);
        proof {
            assert(arr@.map_values(|c: i32| c as int) =~= axis_cols(self));
        }
        r
    }
}

} // verus!
