//! Pivots (screw-motion generators), pivotal motions and arc-length indexed
//! trajectories, built on the projective geometric algebra of the
//! `geometric_algebra` crate.
//!
//! The geometric values (`Line`, `Motor`, `Point`) are opaque to the verifier
//! and are reached only through the trusted wrappers below. Everything the
//! crate decides about them — how pivot lists are assembled, reversed and
//! chained, and how arc-length playback walks a trajectory — is verified
//! exactly. Arc lengths are measured in fixed-point units of
//! `1 / ARC_UNITS_PER_LENGTH`, so the playback bookkeeping is plain integer
//! arithmetic with exact contracts.

use vstd::prelude::*;

use geometric_algebra::ppga3d::Line;
use geometric_algebra::ppga3d::Motor;
use geometric_algebra::ppga3d::Point;
use geometric_algebra::Exp;
use geometric_algebra::GeometricProduct;
use geometric_algebra::Magnitude;
use geometric_algebra::One;
use geometric_algebra::RegressiveProduct;
use geometric_algebra::Signum;
use geometric_algebra::Transformation;

verus! {

#[verifier::external_type_specification]
#[verifier::external_body]
pub struct ExLine(Line);

#[verifier::external_type_specification]
#[verifier::external_body]
pub struct ExMotor(Motor);

#[verifier::external_type_specification]
#[verifier::external_body]
pub struct ExPoint(Point);

/// Arc lengths are carried as integer multiples of this reciprocal unit: a
/// geometric length of `1.0` is `ARC_UNITS_PER_LENGTH` units.
pub const ARC_UNITS_PER_LENGTH: u64 = 4294967296;

/// A screw-motion generator: a projective line (Plücker data) scaled by an
/// angle or displacement parameter; exponentiating it yields a finite motor.
#[derive(Clone, Copy)]
pub struct Pivot {
    line: Line,
}

impl Pivot {
    /// Relies on `geometric_algebra::ppga3d::Line::new`, which stores the six
    /// given Plücker coordinates. Convention: `(q - p : p cross q)` is the
    /// line from `p` to `q`.
    #[verifier::external_body]
    pub fn from_plucker(d: glam::Vec3, m: glam::Vec3) -> Pivot {
        Pivot { line: Line::new(m.x, m.y, m.z, d.x, d.y, d.z) }
    }

    /// The rotation pivot equivalent to a rotation matrix: its axis-angle
    /// vector as direction, with zero moment.
    pub fn from_rotation_matrix(matrix: glam::Mat3) -> Pivot {
        Pivot::from_plucker(
            crate::geom::quat_to_scaled_axis(crate::geom::quat_from_mat3(&matrix)),
            crate::geom::vec3_from_i32(0, 0, 0),
        )
    }

    /// The translation pivot along the given vector: zero direction part,
    /// the vector as moment.
    pub fn from_translation_vector(vector: glam::Vec3) -> Pivot {
        Pivot::from_plucker(crate::geom::vec3_from_i32(0, 0, 0), vector)
    }

    /// The zero pivot, whose motor is the identity.
    pub fn zero() -> Pivot {
        Pivot::from_plucker(
            crate::geom::vec3_from_i32(0, 0, 0),
            crate::geom::vec3_from_i32(0, 0, 0),
        )
    }

    /// Relies on `std::ops::Neg for Line`: negates every Plücker coordinate,
    /// giving the time-reversed pivot.
    #[verifier::external_body]
    fn negated(&self) -> Pivot {
        Pivot { line: -self.line }
    }

    /// Relies on `Exp for Line` and `Mul<f32> for Line`: the exponential map
    /// from the half-negated generator to its finite motor.
    #[verifier::external_body]
    fn as_motor(&self) -> Motor {
        let one = glam::Vec3::ONE.x;
        let half = one / (one + one);
        (self.line * (-half)).exp()
    }

    /// Relies on `RegressiveProduct<Line> for Point`, `Magnitude for Plane`
    /// and `glam::U64Vec3::as_vec3`: the perpendicular distance from the
    /// point to the screw axis, converted to fixed-point arc units
    /// (saturating on overflow, zero on a degenerate product).
    #[verifier::external_body]
    fn arc_units(&self, point: &Point) -> u64 {
        let magnitude = point.regressive_product(self.line).magnitude();
        let scale = glam::U64Vec3::new(ARC_UNITS_PER_LENGTH, 0, 0).as_vec3().x;
        (magnitude * scale) as u64
    }

    /// Relies on `Mul<f32> for Line` and `glam::U64Vec3::as_vec3`: the pivot
    /// scaled by `num / den`.
    #[verifier::external_body]
    fn scaled_fraction(&self, num: u64, den: u64) -> (r: Pivot)
        requires
            den > 0,
    {
        let scale = glam::U64Vec3::new(num, den, 1).as_vec3();
        Pivot { line: self.line * (scale.x / scale.y) }
    }
}

/// Relies on `GeometricProduct<Motor> for Motor`: the (non-commutative) group
/// product of two rigid motions.
#[verifier::external_body]
fn motor_product(a: &Motor, b: &Motor) -> Motor {
    a.geometric_product(*b)
}

/// Relies on `One for Motor`: the identity motor.
#[verifier::external_body]
fn motor_one() -> Motor {
    Motor::one()
}

/// Relies on `Transformation<Point> for Motor`: the sandwich product applying
/// the rigid motion to a homogeneous point.
#[verifier::external_body]
fn motor_transform_point(m: &Motor, p: &Point) -> Point {
    m.transformation(*p)
}

/// Relies on `Signum for Point`: the point divided by its magnitude, which
/// normalizes the homogeneous weight.
#[verifier::external_body]
fn point_signum(p: &Point) -> Point {
    p.signum()
}

/// Relies on `geometric_algebra::ppga3d::Point::new`, which stores the four
/// given homogeneous coordinates (weight first).
#[verifier::external_body]
fn point_from_i32(w: i32, x: i32, y: i32, z: i32) -> Point {
    Point::new(w as _, x as _, y as _, z as _)
}

/// Relies on `Index<usize> for Point` and `glam::Mat4::from_cols_array_2d`:
/// assembles the pose matrix whose columns are the images of the three unit
/// axes and of the (normalized) origin, each column reordered from
/// (weight, x, y, z) to (x, y, z, weight).
#[verifier::external_body]
fn mat4_from_point_cols(x: &Point, y: &Point, z: &Point, w: &Point) -> glam::Mat4 {
    glam::Mat4::from_cols_array_2d(
        &[
            [x[1], x[2], x[3], x[0]],
            [y[1], y[2], y[3], y[0]],
            [z[1], z[2], z[3], z[0]],
            [w[1], w[2], w[3], w[0]],
        ],
    )
}

/// Compose an optional motor (where `None` is the identity) with a further
/// motor applied on the right.
fn compose_opt(acc: Option<Motor>, step: Motor) -> (r: Motor) {
    match acc {
        Option::None => step,
        Option::Some(m) => motor_product(&m, &step),
    }
}

/// The pose matrix of an optional motor composed with an optional
/// pre-correction motor.
fn matrix_from_opt_motors(post: &Option<Motor>, pre: &Option<Motor>) -> glam::Mat4 {
    let folded: Motor = match (post, pre) {
        (Option::None, Option::None) => motor_one(),
        (Option::Some(m), Option::None) => *m,
        (Option::None, Option::Some(p)) => *p,
        (Option::Some(m), Option::Some(p)) => motor_product(m, p),
    };
    matrix_from_motor(&folded)
}

/// The 4x4 pose matrix of a motor: images of the unit axes and the origin.
fn matrix_from_motor(motor: &Motor) -> glam::Mat4 {
    let x_axis = motor_transform_point(motor, &point_from_i32(0, 1, 0, 0));
    let y_axis = motor_transform_point(motor, &point_from_i32(0, 0, 1, 0));
    let z_axis = motor_transform_point(motor, &point_from_i32(0, 0, 0, 1));
    let w_axis = point_signum(&motor_transform_point(motor, &point_from_i32(1, 0, 0, 0)));
    mat4_from_point_cols(&x_axis, &y_axis, &z_axis, &w_axis)
}

/// One authored hop: an ordered list of pivots bracketed by an optional
/// pre-correction and post-correction motor (`None` is the identity).
pub struct PivotalMotion {
    pivots: Vec<Pivot>,
    pre_motor: Option<Motor>,
    post_motor: Option<Motor>,
}

impl PivotalMotion {
    /// The pivot list of this motion.
    pub closed spec fn spec_pivots(&self) -> Seq<Pivot> {
        self.pivots@
    }

    /// The pre-correction motor, `None` meaning the identity.
    pub closed spec fn spec_pre(&self) -> Option<Motor> {
        self.pre_motor
    }

    /// The post-correction motor, `None` meaning the identity.
    pub closed spec fn spec_post(&self) -> Option<Motor> {
        self.post_motor
    }

    /// A hop from a pivot list, with identity corrections.
    pub fn from_pivots(pivots: Vec<Pivot>) -> (r: Self)
        ensures
            r.spec_pivots() == pivots@,
            r.spec_pre() is None,
            r.spec_post() is None,
    {
        PivotalMotion { pivots, pre_motor: Option::None, post_motor: Option::None }
    }

    /// An identical copy of this motion.
    pub fn duplicate(&self) -> (r: Self)
        ensures
            r.spec_pivots() == self.spec_pivots(),
            r.spec_pre() == self.spec_pre(),
            r.spec_post() == self.spec_post(),
    {
        let mut pivots: Vec<Pivot> = Vec::new();
        let mut i: usize = 0;
        while i < self.pivots.len()
            invariant
                i <= self.pivots@.len(),
                pivots@ =~= self.pivots@.take(i as int),
            decreases self.pivots@.len() - i,
        {
            pivots.push(self.pivots[i]);
            i = i + 1;
        }
        proof {
            assert(pivots@ =~= self.pivots@);
        }
        PivotalMotion { pivots, pre_motor: self.pre_motor, post_motor: self.post_motor }
    }

    /// Pre-compose a correction: the pivot's motor is applied before this
    /// motion's existing pre-correction.
    pub fn pivotal_local_transform(self, pivot: Pivot) -> (r: Self)
        ensures
            r.spec_pivots() == self.spec_pivots(),
            r.spec_post() == self.spec_post(),
            r.spec_pre() is Some,
    {
        let pre = match self.pre_motor {
            Option::None => pivot.as_motor(),
            Option::Some(m) => motor_product(&pivot.as_motor(), &m),
        };
        PivotalMotion { pivots: self.pivots, pre_motor: Option::Some(pre), post_motor: self.post_motor }
    }

    /// Post-compose a correction: the pivot's motor is applied after this
    /// motion's existing post-correction.
    pub fn pivotal_global_transform(self, pivot: Pivot) -> (r: Self)
        ensures
            r.spec_pivots() == self.spec_pivots(),
            r.spec_pre() == self.spec_pre(),
            r.spec_post() is Some,
    {
        let post = match self.post_motor {
            Option::None => pivot.as_motor(),
            Option::Some(m) => motor_product(&pivot.as_motor(), &m),
        };
        PivotalMotion { pivots: self.pivots, pre_motor: self.pre_motor, post_motor: Option::Some(post) }
    }

    /// The time-reversed motion: pivots in reverse order with negated
    /// parameters, the folded forward motors absorbed into the
    /// post-correction, and the pre-correction kept.
    pub fn rewind(self) -> (r: Self)
        ensures
            r.spec_pivots().len() == self.spec_pivots().len(),
            r.spec_pre() == self.spec_pre(),
            self.spec_post() is Some ==> r.spec_post() is Some,
            self.spec_pivots().len() > 0 ==> r.spec_post() is Some,
    {
        let n = self.pivots.len();
        let mut reversed: Vec<Pivot> = Vec::new();
        let mut i: usize = 0;
        while i < n
            invariant
                n == self.pivots@.len(),
                i <= n,
                reversed@.len() == i as int,
            decreases n - i,
        {
            reversed.push(self.pivots[n - 1 - i].negated());
            i = i + 1;
        }
        let mut post = self.post_motor;
        let mut j: usize = 0;
        while j < n
            invariant
                n == self.pivots@.len(),
                j <= n,
                self.spec_post() is Some ==> post is Some,
                j > 0 ==> post is Some,
            decreases n - j,
        {
            post = Option::Some(compose_opt(post, self.pivots[j].as_motor()));
            j = j + 1;
        }
        PivotalMotion { pivots: reversed, pre_motor: self.pre_motor, post_motor: post }
    }

    /// The final pose of the hop: all pivot motors folded (in order) onto the
    /// post-correction, then the pre-correction applied, as a pose matrix.
    pub fn target(&self) -> glam::Mat4 {
        let mut acc = self.post_motor;
        let mut i: usize = 0;
        while i < self.pivots.len()
            invariant
                i <= self.pivots@.len(),
            decreases self.pivots@.len() - i,
        {
            acc = Option::Some(compose_opt(acc, self.pivots[i].as_motor()));
            i = i + 1;
        }
        matrix_from_opt_motors(&acc, &self.pre_motor)
    }
}

/// One playback segment: a pivot, the pre-correction of its hop, the entry
/// motor at the current progress, and the remaining and total arc units.
pub struct TrajectorySegment {
    pub pivot: Pivot,
    pub pre_motor: Option<Motor>,
    pub post_motor: Option<Motor>,
    pub remaining: u64,
    pub total: u64,
}

/// Whether the segment's pivot and pre-correction are those of one of the
/// given hops.
pub open spec fn seg_from_motions(s: TrajectorySegment, motions: Seq<PivotalMotion>) -> bool {
    exists|j: int|
        0 <= j < motions.len() && (#[trigger] motions[j]).spec_pre() == s.pre_motor
            && motions[j].spec_pivots().contains(s.pivot)
}

/// Whether the segment is pivot `p` of hop `j` (with that hop's
/// pre-correction).
pub open spec fn seg_source(
    s: TrajectorySegment,
    motions: Seq<PivotalMotion>,
    j: int,
    p: int,
) -> bool {
    &&& 0 <= j < motions.len()
    &&& 0 <= p < motions[j].spec_pivots().len()
    &&& motions[j].spec_pre() == s.pre_motor
    &&& motions[j].spec_pivots()[p] == s.pivot
}

/// Strict lexicographic order on (hop index, pivot index) pairs.
pub open spec fn chrono_before(a: (int, int), b: (int, int)) -> bool {
    a.0 < b.0 || (a.0 == b.0 && a.1 < b.1)
}

/// The witness `w` maps each segment of the stack to its (hop, pivot) source
/// in the given chain, and deeper stack entries come chronologically later:
/// the stack is in reverse chronological order, so popping from the top
/// walks the chain first hop to last.
pub open spec fn stack_in_reverse_order(
    segs: Seq<TrajectorySegment>,
    motions: Seq<PivotalMotion>,
    w: Seq<(int, int)>,
) -> bool {
    &&& w.len() == segs.len()
    &&& forall|i: int| 0 <= i < segs.len() ==> seg_source(#[trigger] segs[i], motions, w[i].0, w[i].1)
    &&& forall|i1: int, i2: int|
        0 <= i1 < i2 < segs.len() ==> chrono_before((#[trigger] w[i2]), (#[trigger] w[i1]))
}

/// The number of pivots over all hops of a chain.
pub open spec fn total_pivots(motions: Seq<PivotalMotion>) -> int
    decreases motions.len(),
{
    if motions.len() == 0 {
        0
    } else {
        total_pivots(motions.drop_last()) + motions.last().spec_pivots().len()
    }
}

/// A segment is well formed when no more than its total length remains. A
/// zero total is allowed: it is a pivot whose measured arc length is zero
/// (the traveling point sits on the screw axis), which playback passes
/// through without interpolating.
pub open spec fn seg_ok(s: TrajectorySegment) -> bool {
    s.remaining <= s.total
}

/// Every segment of the stack is well formed.
pub open spec fn wf_segments(s: Seq<TrajectorySegment>) -> bool {
    forall|i: int| 0 <= i < s.len() ==> seg_ok(#[trigger] s[i])
}

/// Sum of the remaining arc units of a segment stack.
pub open spec fn sum_remaining(s: Seq<TrajectorySegment>) -> int
    decreases s.len(),
{
    if s.len() == 0 {
        0
    } else {
        s.last().remaining + sum_remaining(s.drop_last())
    }
}

proof fn lemma_sum_remaining_nonneg(s: Seq<TrajectorySegment>)
    ensures
        sum_remaining(s) >= 0,
        s.len() == 0 ==> sum_remaining(s) == 0,
        s.len() > 0 ==> sum_remaining(s) >= s.last().remaining,
    decreases s.len(),
{
    if s.len() > 0 {
        lemma_sum_remaining_nonneg(s.drop_last());
    }
}

/// A chained, arc-length-indexed trajectory: a stack of segments consumed
/// from the top (the end of the vector).
pub struct PivotalMotionTrajectory {
    segments: Vec<TrajectorySegment>,
}

impl PivotalMotionTrajectory {
    /// The segment stack, bottom first.
    pub closed spec fn spec_segments(&self) -> Seq<TrajectorySegment> {
        self.segments@
    }

    /// Every segment has a positive total length and no more remaining than
    /// its total.
    pub closed spec fn wf(&self) -> bool {
        wf_segments(self.segments@)
    }

    /// The total remaining arc units over all segments.
    pub closed spec fn spec_remaining(&self) -> int {
        sum_remaining(self.segments@)
    }

    /// Build the playback stack of a chain of hops: every pivot of every hop
    /// becomes exactly one segment, so the stack holds `total_pivots` of them
    /// in reverse chronological order (the first pivot of the first hop on
    /// top); together with the strictly ordered source witness this pins the
    /// stack to the full (hop, pivot) enumeration reversed. The arc length of
    /// each pivot is measured as the distance traveled by the point the hop's
    /// pre-correction places the player at; a pivot of zero measured length
    /// keeps a zero-length segment, which playback passes through. Every
    /// segment starts with its full length remaining.
    pub fn from_pivotal_motions(pivotal_motions: Vec<PivotalMotion>) -> (r: Self)
        ensures
            r.wf(),
            r.spec_segments().len() == total_pivots(pivotal_motions@),
            forall|i: int|
                0 <= i < r.spec_segments().len() ==> (#[trigger] r.spec_segments()[i]).remaining
                    == r.spec_segments()[i].total,
            forall|i: int|
                0 <= i < r.spec_segments().len() ==> seg_from_motions(
                    #[trigger] r.spec_segments()[i],
                    pivotal_motions@,
                ),
            exists|w: Seq<(int, int)>|
                #[trigger] stack_in_reverse_order(r.spec_segments(), pivotal_motions@, w),
    {
        let mut forward: Vec<TrajectorySegment> = Vec::new();
        let ghost mut sources: Seq<(int, int)> = Seq::empty();
        let mut idx: usize = 0;
        while idx < pivotal_motions.len()
            invariant
                idx <= pivotal_motions@.len(),
                forward@.len() == total_pivots(pivotal_motions@.take(idx as int)),
                wf_segments(forward@),
                forall|i: int|
                    0 <= i < forward@.len() ==> (#[trigger] forward@[i]).remaining
                        == forward@[i].total,
                forall|i: int|
                    0 <= i < forward@.len() ==> seg_from_motions(
                        #[trigger] forward@[i],
                        pivotal_motions@,
                    ),
                sources.len() == forward@.len(),
                forall|k: int|
                    0 <= k < forward@.len() ==> seg_source(
                        #[trigger] forward@[k],
                        pivotal_motions@,
                        sources[k].0,
                        sources[k].1,
                    ),
                forall|k1: int, k2: int|
                    0 <= k1 < k2 < sources.len() ==> chrono_before(
                        (#[trigger] sources[k1]),
                        (#[trigger] sources[k2]),
                    ),
                forall|k: int| 0 <= k < sources.len() ==> (#[trigger] sources[k]).0 < idx as int,
            decreases pivotal_motions@.len() - idx,
        {
            let motion = &pivotal_motions[idx];
            let origin = point_from_i32(1, 0, 0, 0);
            let point = match &motion.pre_motor {
                Option::None => origin,
                Option::Some(m) => point_signum(&motor_transform_point(m, &origin)),
            };
            let mut post_state = match &motion.post_motor {
                Option::None => Option::None,
                Option::Some(m) => Option::Some(*m),
            };
            let mut j: usize = 0;
            while j < motion.pivots.len()
                invariant
                    idx < pivotal_motions@.len(),
                    *motion == pivotal_motions@[idx as int],
                    j <= motion.pivots@.len(),
                    forward@.len() == total_pivots(pivotal_motions@.take(idx as int)) + j,
                    sources.len() == forward@.len(),
                    forall|k: int|
                        0 <= k < forward@.len() ==> seg_source(
                            #[trigger] forward@[k],
                            pivotal_motions@,
                            sources[k].0,
                            sources[k].1,
                        ),
                    forall|k1: int, k2: int|
                        0 <= k1 < k2 < sources.len() ==> chrono_before(
                            (#[trigger] sources[k1]),
                            (#[trigger] sources[k2]),
                        ),
                    forall|k: int|
                        0 <= k < sources.len() ==> chrono_before(
                            (#[trigger] sources[k]),
                            (idx as int, j as int),
                        ),
                    wf_segments(forward@),
                    forall|i: int|
                        0 <= i < forward@.len() ==> (#[trigger] forward@[i]).remaining
                            == forward@[i].total,
                    forall|i: int|
                        0 <= i < forward@.len() ==> seg_from_motions(
                            #[trigger] forward@[i],
                            pivotal_motions@,
                        ),
                decreases motion.pivots@.len() - j,
            {
                let pivot = motion.pivots[j];
                let units = pivot.arc_units(&point);
                forward.push(
                    TrajectorySegment {
                        pivot,
                        pre_motor: match &motion.pre_motor {
                            Option::None => Option::None,
                            Option::Some(m) => Option::Some(*m),
                        },
                        post_motor: post_state,
                        remaining: units,
                        total: units,
                    },
                );
                proof {
                    sources = sources.push((idx as int, j as int));
                    let pushed = forward@[forward@.len() - 1];
                    assert(pivotal_motions@[idx as int].spec_pivots().contains(pushed.pivot)) by {
                        assert(pivotal_motions@[idx as int].spec_pivots()[j as int]
                            == pushed.pivot);
                    }
                    assert(seg_from_motions(pushed, pivotal_motions@));
                    assert(seg_source(
                        pushed,
                        pivotal_motions@,
                        sources[sources.len() - 1].0,
                        sources[sources.len() - 1].1,
                    ));
                }
                post_state = Option::Some(compose_opt(post_state, pivot.as_motor()));
                j = j + 1;
            }
            proof {
                assert(pivotal_motions@.take(idx + 1).drop_last() =~= pivotal_motions@.take(
                    idx as int,
                ));
                assert(pivotal_motions@.take(idx + 1).last() == pivotal_motions@[idx as int]);
            }
            idx = idx + 1;
        }
        proof {
            assert(pivotal_motions@.take(pivotal_motions@.len() as int) =~= pivotal_motions@);
            assert(forward@.len() == total_pivots(pivotal_motions@));
        }
        let ghost forward0 = forward@;
        let mut segments: Vec<TrajectorySegment> = Vec::new();
        while forward.len() > 0
            invariant
                forward0.len() == total_pivots(pivotal_motions@),
                segments@.len() + forward@.len() == forward0.len(),
                forward@ =~= forward0.take(forward@.len() as int),
                forall|k: int|
                    0 <= k < segments@.len() ==> (#[trigger] segments@[k]) == forward0[forward0.len()
                        - 1 - k],
                wf_segments(forward@),
                wf_segments(segments@),
                forall|i: int|
                    0 <= i < forward@.len() ==> (#[trigger] forward@[i]).remaining
                        == forward@[i].total,
                forall|i: int|
                    0 <= i < forward@.len() ==> seg_from_motions(
                        #[trigger] forward@[i],
                        pivotal_motions@,
                    ),
                forall|i: int|
                    0 <= i < segments@.len() ==> (#[trigger] segments@[i]).remaining
                        == segments@[i].total,
                forall|i: int|
                    0 <= i < segments@.len() ==> seg_from_motions(
                        #[trigger] segments@[i],
                        pivotal_motions@,
                    ),
            decreases forward@.len(),
        {
            let seg = forward.pop().unwrap();
            segments.push(seg);
        }
        proof {
            let w = Seq::new(segments@.len(), |k: int| sources[forward0.len() - 1 - k]);
            assert forall|i: int| 0 <= i < segments@.len() implies seg_source(
                #[trigger] segments@[i],
                pivotal_motions@,
                w[i].0,
                w[i].1,
            ) by {
                assert(segments@[i] == forward0[forward0.len() - 1 - i]);
            }
            assert forall|i1: int, i2: int|
                0 <= i1 < i2 < segments@.len() implies chrono_before(
                (#[trigger] w[i2]),
                (#[trigger] w[i1]),
            ) by {
                assert(chrono_before(
                    sources[forward0.len() - 1 - i2],
                    sources[forward0.len() - 1 - i1],
                ));
            }
            assert(stack_in_reverse_order(segments@, pivotal_motions@, w));
        }
        PivotalMotionTrajectory { segments }
    }

    /// The total remaining arc units, or `None` if the exact total exceeds
    /// `u64::MAX`.
    pub fn remaining_units(&self) -> (r: Option<u64>)
        ensures
            r is Some ==> r.unwrap() as int == self.spec_remaining(),
            r is None ==> self.spec_remaining() > u64::MAX,
    {
        let mut acc: u64 = 0;
        let mut i: usize = 0;
        while i < self.segments.len()
            invariant
                i <= self.segments@.len(),
                acc as int == sum_remaining(self.segments@.take(i as int)),
            decreases self.segments@.len() - i,
        {
            proof {
                assert(self.segments@.take(i + 1).drop_last() =~= self.segments@.take(i as int));
                assert(self.segments@.take(i + 1).last() == self.segments@[i as int]);
            }
            match acc.checked_add(self.segments[i].remaining) {
                Option::Some(next) => {
                    acc = next;
                },
                Option::None => {
                    proof {
                        lemma_sum_remaining_rest(self.segments@, i as int);
                    }
                    return Option::None;
                },
            }
            i = i + 1;
        }
        proof {
            assert(self.segments@.take(self.segments@.len() as int) =~= self.segments@);
        }
        Option::Some(acc)
    }

    /// Pop arc-length progress off the trajectory. If the given units fit in
    /// the top segment, its entry motor is advanced by the proportional pivot
    /// fraction, the segment is pushed back, and the resulting pose is
    /// returned; a zero-length segment has nothing to interpolate, so its
    /// entry pose is returned unchanged. Otherwise the leftover is consumed
    /// from the next segment. Returns `None` exactly when the requested
    /// progress exceeds what remains (in particular, once the trajectory is
    /// exhausted).
    pub fn consume_distance(&mut self, units: u64) -> (r: Option<glam::Mat4>)
        requires
            old(self).wf(),
        ensures
            final(self).wf(),
            r is Some <==> (old(self).spec_segments().len() > 0 && units as int <= old(
                self,
            ).spec_remaining()),
            r is Some ==> final(self).spec_remaining() == old(self).spec_remaining() - units,
            r is Some ==> {
                let n = final(self).spec_segments().len() as int;
                &&& 1 <= n <= old(self).spec_segments().len()
                &&& final(self).spec_segments().take(n - 1) == old(self).spec_segments().take(
                    n - 1,
                )
                &&& final(self).spec_segments()[n - 1].pivot == old(self).spec_segments()[n
                    - 1].pivot
                &&& final(self).spec_segments()[n - 1].pre_motor == old(self).spec_segments()[n
                    - 1].pre_motor
                &&& final(self).spec_segments()[n - 1].total == old(self).spec_segments()[n
                    - 1].total
            },
            r is None ==> final(self).spec_segments().len() == 0,
    {
        let ghost s0 = self.segments@;
        let ghost u0 = units as int;
        let mut left = units;
        loop
            invariant
                s0 == old(self).spec_segments(),
                u0 == units as int,
                self.wf(),
                self.segments@.len() <= s0.len(),
                self.segments@ =~= s0.take(self.segments@.len() as int),
                sum_remaining(self.segments@) + u0 == sum_remaining(s0) + left,
                (u0 <= sum_remaining(s0) && s0.len() > 0) ==> (left as int <= sum_remaining(
                    self.segments@,
                ) && self.segments@.len() > 0),
            decreases self.segments@.len(),
        {
            let ghost s_cur = self.segments@;
            match self.segments.pop() {
                Option::None => {
                    proof {
                        assert(s_cur.len() == 0);
                        assert(sum_remaining(s_cur) == 0);
                        assert(!(u0 <= sum_remaining(s0) && s0.len() > 0));
                        assert(self.segments@ =~= s0.take(0));
                        assert(self.segments@.len() == 0);
                    }
                    return Option::None;
                },
                Option::Some(seg) => {
                    proof {
                        assert(self.segments@ =~= s_cur.drop_last());
                        assert(seg == s_cur.last());
                        assert(seg_ok(s_cur[s_cur.len() - 1]));
                        lemma_sum_remaining_nonneg(self.segments@);
                    }
                    if left <= seg.remaining {
                        if seg.total == 0 {
                            // A zero-length pivot: there is no fraction to
                            // advance by; the entry pose stands and the
                            // segment is kept as it is.
                            let pose = matrix_from_opt_motors(&seg.post_motor, &seg.pre_motor);
                            self.segments.push(seg);
                            proof {
                                assert(sum_remaining(s_cur) == seg.remaining + sum_remaining(
                                    s_cur.drop_last(),
                                ));
                                assert(left == 0);
                                assert(u0 <= sum_remaining(s0));
                                assert(s0.len() > 0);
                                assert(self.segments@ =~= s_cur);
                                assert(sum_remaining(self.segments@) == sum_remaining(s0) - u0);
                                assert(self.segments@.take(self.segments@.len() - 1) =~= s0.take(
                                    self.segments@.len() - 1,
                                ));
                            }
                            return Option::Some(pose);
                        }
                        let step = seg.pivot.scaled_fraction(left, seg.total).as_motor();
                        let next_post = Option::Some(compose_opt(seg.post_motor, step));
                        let pose = matrix_from_opt_motors(&next_post, &seg.pre_motor);
                        let new_seg = TrajectorySegment {
                            pivot: seg.pivot,
                            pre_motor: seg.pre_motor,
                            post_motor: next_post,
                            remaining: seg.remaining - left,
                            total: seg.total,
                        };
                        self.segments.push(new_seg);
                        proof {
                            assert(sum_remaining(s_cur) == seg.remaining + sum_remaining(
                                s_cur.drop_last(),
                            ));
                            assert(sum_remaining(s_cur) >= left);
                            assert(u0 <= sum_remaining(s0));
                            assert(s0.len() > 0);
                            assert(self.segments@.drop_last() =~= s_cur.drop_last());
                            assert(self.segments@.last() == new_seg);
                            assert(sum_remaining(self.segments@) == new_seg.remaining
                                + sum_remaining(s_cur.drop_last()));
                            assert(sum_remaining(self.segments@) == sum_remaining(s0) - u0);
                            assert(self.segments@.take(self.segments@.len() - 1) =~= s0.take(
                                self.segments@.len() - 1,
                            ));
                        }
                        return Option::Some(pose);
                    } else {
                        proof {
                            assert(sum_remaining(s_cur) == seg.remaining + sum_remaining(
                                s_cur.drop_last(),
                            ));
                            lemma_sum_remaining_nonneg(self.segments@);
                        }
                        left = left - seg.remaining;
                        proof {
                            if u0 <= sum_remaining(s0) && s0.len() > 0 {
                                assert(left as int <= sum_remaining(self.segments@));
                                assert(left >= 1);
                                if self.segments@.len() == 0 {
                                    assert(sum_remaining(self.segments@) == 0);
                                    assert(false);
                                }
                            }
                        }
                    }
                },
            }
        }
    }
}

proof fn lemma_sum_remaining_rest(s: Seq<TrajectorySegment>, i: int)
    requires
        0 <= i < s.len(),
    ensures
        sum_remaining(s) >= sum_remaining(s.take(i)) + s[i].remaining,
    decreases s.len() - i,
{
    if i == s.len() - 1 {
        assert(s.take(i) =~= s.drop_last());
        lemma_sum_remaining_nonneg(s);
    } else {
        lemma_sum_remaining_rest(s.drop_last(), i);
        assert(s.drop_last().take(i) =~= s.take(i));
        assert(s.drop_last()[i] == s[i]);
    }
}

} // verus!
