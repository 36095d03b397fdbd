//! The workspace evaluator: a sweep of the grid through a platform, with
//! every pose either reachable or rejected for a reason.

use vstd::prelude::*;
use crate::scalar::Scalar;
use crate::checks::{
    classify, needs_joints, torque_arm, JointAngles, Load, Measurement, Reason, ServoLimits,
    WorkspaceOptions,
};
use crate::optimizer::Layout;
use crate::grid::{Grid, GridError};
pub use crate::grid::Pose;

verus! {

/// Where the moving plate is.
#[derive(Clone, Copy, Debug, PartialEq, Eq, Structural)]
pub struct Position {
    pub x: Scalar,
    pub y: Scalar,
    pub z: Scalar,
}

/// How the moving plate is turned: a quaternion, scalar part first.
#[derive(Clone, Copy, Debug, PartialEq, Eq, Structural)]
pub struct Orientation {
    pub w: Scalar,
    pub x: Scalar,
    pub y: Scalar,
    pub z: Scalar,
}

/// What the evaluator asks of a platform model.
///
/// `update`, `translation` and `orientation` are bound by a contract: a
/// platform keeps the pose it is given and reports it bit for bit. What the
/// evaluator states about the pose after a sweep holds of platforms that do;
/// an implementation that is not itself verified vouches for this on its own.
/// Nothing is assumed of the other methods.
///
/// The two model functions are what the accessors report. In a compiled
/// implementation they are ordinary methods with the accessors' bodies.
///
/// A platform also keeps what it is built to: no move changes its layout.
pub trait Platform {
    /// The position that `translation` reports.
    spec fn position_model(&self) -> Position;

    /// The orientation that `orientation` reports.
    spec fn orientation_model(&self) -> Orientation;

    /// The layout that the platform is built to, where it can tell one. A
    /// platform that says nothing has none to tell.
    open spec fn layout_model(&self) -> Option<Layout> {
        None
    }

    /// Moves the plate to a position and an orientation.
    fn update(&mut self, position: Position, orientation: Orientation)
        ensures
            final(self).position_model() == position,
            final(self).orientation_model() == orientation,
            final(self).layout_model() == old(self).layout_model(),
    ;

    /// Moves the plate to a pose of the sweep, whose rotation is in degrees
    /// about the three axes.
    fn place(&mut self, pose: Pose)
        ensures
            final(self).layout_model() == old(self).layout_model(),
    ;

    /// The actuator angles for the current pose, if there are any.
    fn compute_angles(&self) -> Option<Vec<Scalar>>;

    /// The range of the servos, if the platform knows one. A platform that
    /// says nothing has none, and so for the capabilities below.
    fn servo_range(&self) -> Option<ServoLimits> {
        None
    }

    /// The largest distance allowed between a horn's tip and its base point:
    /// the horn length and its tolerance. `None` where the platform does not
    /// know the length of its horns. Asked once, before the sweep.
    fn horn_limit(&self) -> Option<Scalar> {
        None
    }

    /// The distance of each horn tip from its base point in the current
    /// pose, if the platform knows both.
    fn horn_spans(&self) -> Option<Vec<Scalar>> {
        None
    }

    /// The swing of each rod at its two ends, if the platform knows its rods.
    fn joint_angles(&self) -> Option<Vec<Option<JointAngles>>> {
        None
    }

    /// The length of the horns, if the platform knows it. Asked once, before
    /// the sweep.
    fn horn_length(&self) -> Option<Scalar> {
        None
    }

    /// The torque that one servo bears under the load that `options`
    /// describes: the force on one leg, on the arm `arm`. Asked once, before
    /// the sweep.
    fn torque(&self, options: &WorkspaceOptions, arm: Scalar) -> Scalar;

    fn orientation(&self) -> (q: Orientation)
        ensures
            q == self.orientation_model(),
    ;

    fn translation(&self) -> (p: Position)
        ensures
            p == self.position_model(),
    ;
}

/// One reason with the number of poses rejected for it.
#[derive(Clone, Debug, PartialEq, Eq)]
pub struct Violation {
    pub reason: String,
    pub count: usize,
}

/// One rejected pose with its reason.
#[derive(Clone, Debug, PartialEq, Eq)]
pub struct Failure {
    pub pose: Pose,
    pub reason: String,
}

/// The share of the grid that is reachable, as a count out of a total.
#[derive(Clone, Copy, Debug, PartialEq, Eq, Structural)]
pub struct Coverage {
    pub reachable: usize,
    pub total: usize,
}

impl Coverage {
    /// Every pose of a grid that has poses is reachable: the ratio is one.
    pub open spec fn full(self) -> bool {
        self.total > 0 && self.reachable == self.total
    }

    /// No pose is reachable, or there is none: the ratio is zero.
    pub open spec fn none(self) -> bool {
        self.reachable == 0
    }

    pub fn is_full(&self) -> (b: bool)
        ensures
            b == self.full(),
    {
        self.total > 0 && self.reachable == self.total
    }

    pub fn is_none(&self) -> (b: bool)
        ensures
            b == self.none(),
    {
        self.reachable == 0
    }
}

#[derive(Clone, Debug, PartialEq, Eq)]
pub struct WorkspaceResult {
    pub coverage: Coverage,
    pub violations: Vec<Violation>,
    pub reachable: Vec<Pose>,
    pub unreachable: Vec<Failure>,
}

/// A rejected pose, with its reason as a value.
pub struct Rejected {
    pub pose: Pose,
    pub reason: Reason,
}

/// A reason with its count.
pub struct Bucket {
    pub reason: Reason,
    pub count: nat,
}

/// What a sweep amounts to: the reachable poses and the rejected ones, each
/// in sweep order.
pub struct Summary {
    pub reachable: Seq<Pose>,
    pub unreachable: Seq<Rejected>,
}

/// The summary of a sweep over `poses` in which pose `i` met `outcomes[i]`.
pub open spec fn summarize(poses: Seq<Pose>, outcomes: Seq<Option<Reason>>) -> Summary
    decreases poses.len(),
{
    if poses.len() == 0 || outcomes.len() == 0 {
        Summary { reachable: Seq::empty(), unreachable: Seq::empty() }
    } else {
        let before = summarize(poses.drop_last(), outcomes.drop_last());
        match outcomes.last() {
            None => Summary {
                reachable: before.reachable.push(poses.last()),
                unreachable: before.unreachable,
            },
            Some(reason) => Summary {
                reachable: before.reachable,
                unreachable: before.unreachable.push(Rejected { pose: poses.last(), reason }),
            },
        }
    }
}

/// How many of `failures` have the reason `reason`.
pub open spec fn tally(failures: Seq<Rejected>, reason: Reason) -> nat
    decreases failures.len(),
{
    if failures.len() == 0 {
        0
    } else {
        tally(failures.drop_last(), reason) + if failures.last().reason == reason {
            1nat
        } else {
            0nat
        }
    }
}

/// `buckets`, and behind them the bucket of `count` for `reason` unless it is empty.
pub open spec fn with_bucket(buckets: Seq<Bucket>, reason: Reason, count: nat) -> Seq<Bucket> {
    if count > 0 {
        buckets.push(Bucket { reason, count })
    } else {
        buckets
    }
}

/// The buckets of five counts, in the order of the checks.
pub open spec fn buckets_of(ik: nat, servo: nat, horn: nat, ball: nat, torque: nat) -> Seq<Bucket> {
    with_bucket(
        with_bucket(
            with_bucket(
                with_bucket(with_bucket(Seq::empty(), Reason::Ik, ik), Reason::ServoRange, servo),
                Reason::HornStretch,
                horn,
            ),
            Reason::BallJoint,
            ball,
        ),
        Reason::Torque,
        torque,
    )
}

/// The reasons that occur among `failures`, each with its count, in the order
/// of the checks.
pub open spec fn histogram(failures: Seq<Rejected>) -> Seq<Bucket> {
    buckets_of(
        tally(failures, Reason::Ik),
        tally(failures, Reason::ServoRange),
        tally(failures, Reason::HornStretch),
        tally(failures, Reason::BallJoint),
        tally(failures, Reason::Torque),
    )
}

/// The counts of `violations`, added up.
pub open spec fn count_sum(violations: Seq<Violation>) -> nat
    decreases violations.len(),
{
    if violations.len() == 0 {
        0
    } else {
        count_sum(violations.drop_last()) + violations.last().count as nat
    }
}

/// `failures` are `rejected`, with each reason under its name.
pub open spec fn failures_match(failures: Seq<Failure>, rejected: Seq<Rejected>) -> bool {
    &&& failures.len() == rejected.len()
    &&& forall|i: int|
        0 <= i < failures.len() ==> (#[trigger] failures[i]).pose == rejected[i].pose
            && failures[i].reason@ == rejected[i].reason.label()
}

/// `violations` are `buckets`, with each reason under its name.
pub open spec fn violations_match(violations: Seq<Violation>, buckets: Seq<Bucket>) -> bool {
    &&& violations.len() == buckets.len()
    &&& forall|i: int|
        0 <= i < violations.len() ==> (#[trigger] violations[i]).count == buckets[i].count
            && violations[i].reason@ == buckets[i].reason.label()
}

impl WorkspaceResult {
    /// The result says what `summary` says: the same reachable poses, the same
    /// rejected ones, their histogram, and the count of the reachable out of all.
    pub open spec fn models(&self, summary: Summary) -> bool {
        &&& self.reachable@ == summary.reachable
        &&& failures_match(self.unreachable@, summary.unreachable)
        &&& violations_match(self.violations@, histogram(summary.unreachable))
        &&& self.coverage.reachable == summary.reachable.len()
        &&& self.coverage.total == summary.reachable.len() + summary.unreachable.len()
    }

    /// The result is that of the sweep over `poses` in which pose `i` met `outcomes[i]`.
    pub open spec fn summarizes(&self, poses: Seq<Pose>, outcomes: Seq<Option<Reason>>) -> bool {
        outcomes.len() == poses.len() && self.models(summarize(poses, outcomes))
    }

    /// The result is that of a sweep over `poses`, whatever each pose met.
    pub open spec fn sweeps(&self, poses: Seq<Pose>) -> bool {
        exists|outcomes: Seq<Option<Reason>>| #[trigger] self.summarizes(poses, outcomes)
    }
}

/// Every pose of a sweep is in its summary, on one side or the other.
pub proof fn lemma_summary_counts(poses: Seq<Pose>, outcomes: Seq<Option<Reason>>)
    requires
        poses.len() == outcomes.len(),
    ensures
        summarize(poses, outcomes).reachable.len() + summarize(poses, outcomes).unreachable.len()
            == poses.len(),
    decreases poses.len(),
{
    if poses.len() > 0 {
        lemma_summary_counts(poses.drop_last(), outcomes.drop_last());
    }
}

/// Every rejected pose is counted under exactly one reason.
pub proof fn lemma_tallies_add_up(failures: Seq<Rejected>)
    ensures
        tally(failures, Reason::Ik) + tally(failures, Reason::ServoRange) + tally(
            failures,
            Reason::HornStretch,
        ) + tally(failures, Reason::BallJoint) + tally(failures, Reason::Torque)
            == failures.len(),
    decreases failures.len(),
{
    if failures.len() > 0 {
        lemma_tallies_add_up(failures.drop_last());
    }
}

/// The counts of `buckets`, added up.
pub open spec fn bucket_sum(buckets: Seq<Bucket>) -> nat
    decreases buckets.len(),
{
    if buckets.len() == 0 {
        0
    } else {
        bucket_sum(buckets.drop_last()) + buckets.last().count
    }
}

proof fn lemma_bucket_sum_with(buckets: Seq<Bucket>, reason: Reason, count: nat)
    ensures
        bucket_sum(with_bucket(buckets, reason, count)) == bucket_sum(buckets) + count,
{
    if count > 0 {
        assert(buckets.push(Bucket { reason, count }).drop_last() =~= buckets);
    }
}

proof fn lemma_matched_sums(violations: Seq<Violation>, buckets: Seq<Bucket>)
    requires
        violations_match(violations, buckets),
    ensures
        count_sum(violations) == bucket_sum(buckets),
    decreases violations.len(),
{
    if violations.len() > 0 {
        lemma_matched_sums(violations.drop_last(), buckets.drop_last());
    }
}

/// A result that says what a sweep amounts to accounts for every pose: each
/// is reachable or rejected, the coverage counts the reachable among all, and
/// the counts of the violations add up to the number of rejected poses.
pub proof fn lemma_result_accounts_for_every_pose(
    r: WorkspaceResult,
    poses: Seq<Pose>,
    outcomes: Seq<Option<Reason>>,
)
    requires
        r.summarizes(poses, outcomes),
    ensures
        r.reachable@.len() + r.unreachable@.len() == poses.len(),
        r.coverage.reachable == r.reachable@.len(),
        r.coverage.total == poses.len(),
        count_sum(r.violations@) == r.unreachable@.len(),
{
    let s = summarize(poses, outcomes);
    let f = s.unreachable;
    lemma_summary_counts(poses, outcomes);
    lemma_tallies_add_up(f);
    lemma_matched_sums(r.violations@, histogram(f));
    let b1 = with_bucket(Seq::empty(), Reason::Ik, tally(f, Reason::Ik));
    let b2 = with_bucket(b1, Reason::ServoRange, tally(f, Reason::ServoRange));
    let b3 = with_bucket(b2, Reason::HornStretch, tally(f, Reason::HornStretch));
    let b4 = with_bucket(b3, Reason::BallJoint, tally(f, Reason::BallJoint));
    lemma_bucket_sum_with(Seq::empty(), Reason::Ik, tally(f, Reason::Ik));
    lemma_bucket_sum_with(b1, Reason::ServoRange, tally(f, Reason::ServoRange));
    lemma_bucket_sum_with(b2, Reason::HornStretch, tally(f, Reason::HornStretch));
    lemma_bucket_sum_with(b3, Reason::BallJoint, tally(f, Reason::BallJoint));
    lemma_bucket_sum_with(b4, Reason::Torque, tally(f, Reason::Torque));
}

/// Where every pose passes every check, every pose is reachable and in its
/// place, and none is rejected.
pub proof fn lemma_all_pass(poses: Seq<Pose>, outcomes: Seq<Option<Reason>>)
    requires
        poses.len() == outcomes.len(),
        forall|i: int| 0 <= i < outcomes.len() ==> (#[trigger] outcomes[i]) is None,
    ensures
        summarize(poses, outcomes).reachable == poses,
        summarize(poses, outcomes).unreachable.len() == 0,
    decreases poses.len(),
{
    if poses.len() > 0 {
        lemma_all_pass(poses.drop_last(), outcomes.drop_last());
        assert(poses.drop_last().push(poses.last()) =~= poses);
    } else {
        assert(poses =~= Seq::<Pose>::empty());
    }
}

/// On a grid of one pose the coverage is all or nothing.
pub proof fn lemma_single_pose_coverage(r: WorkspaceResult, poses: Seq<Pose>)
    requires
        r.sweeps(poses),
        poses.len() == 1,
    ensures
        r.coverage.total == 1,
        r.coverage.full() || r.coverage.none(),
{
    let outcomes = choose|outcomes: Seq<Option<Reason>>| #[trigger] r.summarizes(poses, outcomes);
    lemma_summary_counts(poses, outcomes);
}

/// Two sweeps over the same poses that met the same outcomes give the same
/// result: the same coverage, the same reachable poses, the same rejected
/// poses with the same reasons, and the same violations.
pub proof fn lemma_same_outcomes_same_result(
    a: WorkspaceResult,
    b: WorkspaceResult,
    poses: Seq<Pose>,
    outcomes: Seq<Option<Reason>>,
)
    requires
        a.summarizes(poses, outcomes),
        b.summarizes(poses, outcomes),
    ensures
        a.coverage == b.coverage,
        a.reachable@ == b.reachable@,
        a.unreachable@.len() == b.unreachable@.len(),
        forall|i: int|
            0 <= i < a.unreachable@.len() ==> (#[trigger] a.unreachable@[i]).pose
                == b.unreachable@[i].pose && a.unreachable@[i].reason@ == b.unreachable@[i].reason@,
        a.violations@.len() == b.violations@.len(),
        forall|i: int|
            0 <= i < a.violations@.len() ==> (#[trigger] a.violations@[i]).count
                == b.violations@[i].count && a.violations@[i].reason@ == b.violations@[i].reason@,
{
    let s = summarize(poses, outcomes);
    assert forall|i: int| 0 <= i < a.unreachable@.len() implies (#[trigger] a.unreachable@[i]).pose
        == b.unreachable@[i].pose && a.unreachable@[i].reason@ == b.unreachable@[i].reason@ by {
        assert(b.unreachable@[i].pose == s.unreachable[i].pose);
    }
    assert forall|i: int| 0 <= i < a.violations@.len() implies (#[trigger] a.violations@[i]).count
        == b.violations@[i].count && a.violations@[i].reason@ == b.violations@[i].reason@ by {
        assert(b.violations@[i].count == histogram(s.unreachable)[i].count);
    }
}

/// The violations for five counts: one for each reason whose count is not zero.
fn emit_violations(ik: usize, servo: usize, horn: usize, ball: usize, torque: usize) -> (v: Vec<
    Violation,
>)
    ensures
        violations_match(
            v@,
            buckets_of(ik as nat, servo as nat, horn as nat, ball as nat, torque as nat),
        ),
{
    let mut v: Vec<Violation> = Vec::new();
    if ik > 0 {
        v.push(Violation { reason: Reason::Ik.as_string(), count: ik });
    }
    if servo > 0 {
        v.push(Violation { reason: Reason::ServoRange.as_string(), count: servo });
    }
    if horn > 0 {
        v.push(Violation { reason: Reason::HornStretch.as_string(), count: horn });
    }
    if ball > 0 {
        v.push(Violation { reason: Reason::BallJoint.as_string(), count: ball });
    }
    if torque > 0 {
        v.push(Violation { reason: Reason::Torque.as_string(), count: torque });
    }
    v
}

/// Sums up a sweep from its outcomes, one for each pose of the grid in sweep
/// order: `None` for a pose that passed every check, else the reason it was
/// rejected for. Refuses outcomes that are not one for each pose.
pub fn tabulate(grid: &Grid, outcomes: &Vec<Option<Reason>>) -> (out: Result<
    WorkspaceResult,
    GridError,
>)
    ensures
        outcomes@.len() != grid.total() ==> out == Err::<WorkspaceResult, GridError>(
            GridError::OutcomeCount,
        ),
        outcomes@.len() == grid.total() ==> out is Ok,
        out matches Ok(r) ==> r.summarizes(grid.poses(), outcomes@),
{
    let given: usize = outcomes.len();
    let total: usize = match grid.size() {
        Ok(t) => t,
        Err(_) => {
            return Err(GridError::OutcomeCount);
        },
    };
    if given != total {
        return Err(GridError::OutcomeCount);
    }
    let mut reachable: Vec<Pose> = Vec::new();
    let mut failures: Vec<Failure> = Vec::new();
    let mut ik: usize = 0;
    let mut servo: usize = 0;
    let mut horn: usize = 0;
    let mut ball: usize = 0;
    let mut torque: usize = 0;
    let ghost poses = grid.poses();
    let mut k: usize = 0;
    proof {
        assert(poses.take(0) =~= Seq::<Pose>::empty());
        assert(outcomes@.take(0) =~= Seq::<Option<Reason>>::empty());
    }
    while k < total
        invariant
            k <= total,
            total == grid.total(),
            total == outcomes@.len(),
            poses == grid.poses(),
            reachable@ == summarize(poses.take(k as int), outcomes@.take(k as int)).reachable,
            failures_match(
                failures@,
                summarize(poses.take(k as int), outcomes@.take(k as int)).unreachable,
            ),
            reachable@.len() + failures@.len() == k,
            ik == tally(
                summarize(poses.take(k as int), outcomes@.take(k as int)).unreachable,
                Reason::Ik,
            ),
            servo == tally(
                summarize(poses.take(k as int), outcomes@.take(k as int)).unreachable,
                Reason::ServoRange,
            ),
            horn == tally(
                summarize(poses.take(k as int), outcomes@.take(k as int)).unreachable,
                Reason::HornStretch,
            ),
            ball == tally(
                summarize(poses.take(k as int), outcomes@.take(k as int)).unreachable,
                Reason::BallJoint,
            ),
            torque == tally(
                summarize(poses.take(k as int), outcomes@.take(k as int)).unreachable,
                Reason::Torque,
            ),
            ik + servo + horn + ball + torque == failures@.len(),
        decreases total - k,
    {
        let pose = grid.pose(k);
        let outcome = outcomes[k];
        let ghost before = summarize(poses.take(k as int), outcomes@.take(k as int));
        proof {
            let next = poses.take(k + 1);
            assert(next.drop_last() =~= poses.take(k as int));
            assert(next.last() == pose);
            assert(outcomes@.take(k + 1).drop_last() =~= outcomes@.take(k as int));
            assert(outcomes@.take(k + 1).last() == outcome);
        }
        match outcome {
            None => {
                reachable.push(pose);
            },
            Some(reason) => {
                failures.push(Failure { pose, reason: reason.as_string() });
                proof {
                    let now = before.unreachable.push(Rejected { pose, reason });
                    assert(now.drop_last() =~= before.unreachable);
                }
                match reason {
                    Reason::Ik => {
                        ik += 1;
                    },
                    Reason::ServoRange => {
                        servo += 1;
                    },
                    Reason::HornStretch => {
                        horn += 1;
                    },
                    Reason::BallJoint => {
                        ball += 1;
                    },
                    Reason::Torque => {
                        torque += 1;
                    },
                }
            },
        }
        k += 1;
    }
    proof {
        assert(poses.take(k as int) =~= poses);
        assert(outcomes@.take(k as int) =~= outcomes@);
    }
    let violations = emit_violations(ik, servo, horn, ball, torque);
    let coverage = Coverage { reachable: reachable.len(), total };
    Ok(WorkspaceResult { coverage, violations, reachable, unreachable: failures })
}

/// The verdicts of `measurements`, in order.
pub open spec fn verdicts(
    measurements: Seq<Measurement>,
    load: Load,
    options: WorkspaceOptions,
) -> Seq<Option<Reason>> {
    Seq::new(measurements.len(), |k: int| measurements[k].verdict(load, options))
}

/// Judges a sweep from what was measured, one measurement for each pose of
/// the grid in sweep order: each is classified, and the verdicts are summed
/// up. Refuses measurements that are not one for each pose.
pub fn judge(
    grid: &Grid,
    measurements: &Vec<Measurement>,
    load: &Load,
    options: &WorkspaceOptions,
) -> (out: Result<WorkspaceResult, GridError>)
    ensures
        measurements@.len() != grid.total() ==> out == Err::<WorkspaceResult, GridError>(
            GridError::OutcomeCount,
        ),
        measurements@.len() == grid.total() ==> out is Ok,
        out matches Ok(r) ==> r.summarizes(grid.poses(), verdicts(measurements@, *load, *options)),
{
    let mut outcomes: Vec<Option<Reason>> = Vec::new();
    let mut k: usize = 0;
    while k < measurements.len()
        invariant
            k <= measurements@.len(),
            outcomes@.len() == k,
            forall|j: int|
                0 <= j < k ==> #[trigger] outcomes@[j] == measurements@[j].verdict(*load, *options),
        decreases measurements@.len() - k,
    {
        outcomes.push(classify(&measurements[k], load, options));
        k += 1;
    }
    proof {
        assert(outcomes@ =~= verdicts(measurements@, *load, *options));
    }
    tabulate(grid, &outcomes)
}

/// Sweeps the grid through the platform: the load is taken once, then each
/// pose is applied, measured and set back, and the measurements are judged.
/// The ball joints are measured only at poses whose verdict reaches them.
///
/// Fails, with the platform untouched, where the grid has more poses than can
/// be counted. Else the result is the summary of the grid's poses in sweep
/// order, under the outcomes that the platform's answers were classified to;
/// every pose is on one side of it, every rejected pose is counted once, and
/// the platform is left at the position and orientation it reported at the
/// start, with the layout it had.
pub fn compute_workspace<P: Platform>(
    platform: &mut P,
    grid: &Grid,
    options: WorkspaceOptions,
) -> (out: Result<WorkspaceResult, GridError>)
    ensures
        grid.total() > usize::MAX ==> out == Err::<WorkspaceResult, GridError>(
            GridError::TooManyPoses,
        ) && *final(platform) == *old(platform),
        grid.total() <= usize::MAX ==> out is Ok,
        out matches Ok(r) ==> r.sweeps(grid.poses()),
        out matches Ok(r) ==> r.reachable@.len() + r.unreachable@.len() == grid.total()
            && r.coverage.total == grid.total() && r.coverage.reachable == r.reachable@.len(),
        out matches Ok(r) ==> count_sum(r.violations@) == r.unreachable@.len(),
        final(platform).position_model() == old(platform).position_model(),
        final(platform).orientation_model() == old(platform).orientation_model(),
        final(platform).layout_model() == old(platform).layout_model(),
{
    let total: usize = match grid.size() {
        Ok(t) => t,
        Err(e) => {
            return Err(e);
        },
    };
    let arm = torque_arm(platform.horn_length());
    let load = Load { horn_limit: platform.horn_limit(), torque: platform.torque(&options, arm) };
    let mut measurements: Vec<Measurement> = Vec::new();
    let mut k: usize = 0;
    while k < total
        invariant
            k <= total,
            total == grid.total(),
            measurements@.len() == k,
            platform.position_model() == old(platform).position_model(),
            platform.orientation_model() == old(platform).orientation_model(),
            platform.layout_model() == old(platform).layout_model(),
        decreases total - k,
    {
        let pose = grid.pose(k);
        let prev_position = platform.translation();
        let prev_orientation = platform.orientation();
        platform.place(pose);
        let horn_spans = platform.horn_spans();
        let angles = platform.compute_angles();
        let servo_range = platform.servo_range();
        let mut m = Measurement { angles, servo_range, horn_spans, joints: None };
        if needs_joints(&m, &load, &options) {
            m.joints = platform.joint_angles();
        }
        measurements.push(m);
        platform.update(prev_position, prev_orientation);
        k += 1;
    }
    let out = judge(grid, &measurements, &load, &options);
    proof {
        if out is Ok {
            let outcomes = verdicts(measurements@, load, options);
            assert(out->Ok_0.summarizes(grid.poses(), outcomes));
            lemma_result_accounts_for_every_pose(out->Ok_0, grid.poses(), outcomes);
        }
    }
    out
}

} // verus!
