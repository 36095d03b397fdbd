//! The feasibility checks that one sample of the sweep goes through.

use vstd::prelude::*;
use crate::scalar::{Scalar, ONE_BITS};

verus! {

/// Why a pose was rejected.
#[derive(Clone, Copy, Debug, PartialEq, Eq, Structural)]
pub enum Reason {
    Ik,
    ServoRange,
    HornStretch,
    BallJoint,
    Torque,
}

impl Reason {
    /// The name under which a reason is reported.
    pub open spec fn label(self) -> Seq<char> {
        match self {
            Reason::Ik => "IK"@,
            Reason::ServoRange => "servo range"@,
            Reason::HornStretch => "horn stretch"@,
            Reason::BallJoint => "ball joint"@,
            Reason::Torque => "torque"@,
        }
    }

    pub fn as_string(self) -> (s: String)
        ensures
            s@ == self.label(),
    {
        match self {
            Reason::Ik => "IK".to_owned(),
            Reason::ServoRange => "servo range".to_owned(),
            Reason::HornStretch => "horn stretch".to_owned(),
            Reason::BallJoint => "ball joint".to_owned(),
            Reason::Torque => "torque".to_owned(),
        }
    }
}

/// Options controlling one evaluation.
#[derive(Clone, Copy, Debug)]
pub struct WorkspaceOptions {
    pub payload: Scalar,
    pub stroke: Scalar,
    pub frequency: Scalar,
    pub servo_torque_limit: Scalar,
    pub ball_joint_limit_deg: Scalar,
    pub ball_joint_clamp: bool,
}

/// The pattern of `90.0`.
pub const NINETY_BITS: u64 = 0x4056_8000_0000_0000;

impl Default for WorkspaceOptions {
    /// No load, no torque limit (positive infinity), ball joints held to 90 degrees.
    fn default() -> (o: WorkspaceOptions)
        ensures
            o.payload.bits == 0,
            o.stroke.bits == 0,
            o.frequency.bits == 0,
            o.servo_torque_limit.bits == crate::scalar::INFINITY_BITS,
            o.ball_joint_limit_deg.bits == NINETY_BITS,
            o.ball_joint_clamp,
    {
        WorkspaceOptions {
            payload: Scalar { bits: 0 },
            stroke: Scalar { bits: 0 },
            frequency: Scalar { bits: 0 },
            servo_torque_limit: Scalar { bits: crate::scalar::INFINITY_BITS },
            ball_joint_limit_deg: Scalar { bits: NINETY_BITS },
            ball_joint_clamp: true,
        }
    }
}

/// The smallest and the largest angle that a servo can take.
#[derive(Clone, Copy, Debug)]
pub struct ServoLimits {
    pub min: Scalar,
    pub max: Scalar,
}

/// What holds for a whole sweep: how far a horn tip may be from its base
/// point (the horn length plus the tolerance; `None` where the platform does
/// not know its horns' length), and the torque that one servo bears.
#[derive(Clone, Copy, Debug)]
pub struct Load {
    pub horn_limit: Option<Scalar>,
    pub torque: Scalar,
}

/// The swing of one rod against the base axis and against the platform normal,
/// in degrees.
#[derive(Clone, Copy, Debug)]
pub struct JointAngles {
    pub base: Scalar,
    pub plat: Scalar,
}

/// What a platform reports of one pose: the actuator angles, the servos'
/// range, the distance of each horn tip from its base point, and the swing of
/// each rod. A capability that the platform lacks is `None`; in `joints`, a
/// leg whose rod has no length is `None`.
pub struct Measurement {
    pub angles: Option<Vec<Scalar>>,
    pub servo_range: Option<ServoLimits>,
    pub horn_spans: Option<Vec<Scalar>>,
    pub joints: Option<Vec<Option<JointAngles>>>,
}

/// Some entry is a NaN.
pub open spec fn any_nan(values: Seq<Scalar>) -> bool {
    exists|i: int| 0 <= i < values.len() && (#[trigger] values[i]).nan()
}

/// Some entry is below `min` or above `max`.
pub open spec fn any_outside(values: Seq<Scalar>, min: Scalar, max: Scalar) -> bool {
    exists|i: int|
        0 <= i < values.len() && ((#[trigger] values[i]).less(min) || values[i].greater(max))
}

/// Some entry is above `limit`.
pub open spec fn any_above(values: Seq<Scalar>, limit: Scalar) -> bool {
    exists|i: int| 0 <= i < values.len() && (#[trigger] values[i]).greater(limit)
}

/// Some leg with a rod swings further than `limit` at either end.
pub open spec fn any_swing_above(joints: Seq<Option<JointAngles>>, limit: Scalar) -> bool {
    exists|i: int|
        0 <= i < joints.len() && (#[trigger] joints[i]) is Some && (joints[i]->0.base.greater(limit)
            || joints[i]->0.plat.greater(limit))
}

impl Measurement {
    /// No angles, or a NaN among them.
    pub open spec fn fails_ik(self) -> bool {
        self.angles matches Some(a) ==> any_nan(a@)
    }

    /// The platform has a servo range and some angle is outside it.
    pub open spec fn fails_servo_range(self) -> bool {
        self.angles is Some && self.servo_range is Some && any_outside(
            self.angles->0@,
            self.servo_range->0.min,
            self.servo_range->0.max,
        )
    }

    /// The platform knows its horns' tips, base points and length, and some
    /// horn is stretched past the limit.
    pub open spec fn fails_horn_stretch(self, load: Load) -> bool {
        self.horn_spans is Some && load.horn_limit is Some && any_above(
            self.horn_spans->0@,
            load.horn_limit->0,
        )
    }

    /// Ball joints are checked, the platform reports them, and some joint swings too far.
    pub open spec fn fails_ball_joint(self, options: WorkspaceOptions) -> bool {
        options.ball_joint_clamp && self.joints is Some && any_swing_above(
            self.joints->0@,
            options.ball_joint_limit_deg,
        )
    }

    /// The first of the checks before the ball joints that fails.
    pub open spec fn early_verdict(self, load: Load) -> Option<Reason> {
        if self.fails_ik() {
            Some(Reason::Ik)
        } else if self.fails_servo_range() {
            Some(Reason::ServoRange)
        } else if self.fails_horn_stretch(load) {
            Some(Reason::HornStretch)
        } else {
            None
        }
    }

    /// The check of the ball joints is reached: it is asked for and no
    /// earlier check fails.
    pub open spec fn reaches_ball_joint(self, load: Load, options: WorkspaceOptions) -> bool {
        options.ball_joint_clamp && self.early_verdict(load) is None
    }

    /// The first check that fails, in the order in which the checks run.
    pub open spec fn verdict(self, load: Load, options: WorkspaceOptions) -> Option<Reason> {
        if self.fails_ik() {
            Some(Reason::Ik)
        } else if self.fails_servo_range() {
            Some(Reason::ServoRange)
        } else if self.fails_horn_stretch(load) {
            Some(Reason::HornStretch)
        } else if self.fails_ball_joint(options) {
            Some(Reason::BallJoint)
        } else if load.fails_torque(options) {
            Some(Reason::Torque)
        } else {
            None
        }
    }
}

/// The arm on which a leg's force turns its servo: the horn length, or one
/// where the platform does not know it.
pub open spec fn arm_of(horn_length: Option<Scalar>) -> Scalar {
    match horn_length {
        Some(length) => length,
        None => Scalar { bits: ONE_BITS },
    }
}

/// The arm for a platform that reports `horn_length`.
pub fn torque_arm(horn_length: Option<Scalar>) -> (arm: Scalar)
    ensures
        arm == arm_of(horn_length),
{
    match horn_length {
        Some(length) => length,
        None => Scalar { bits: ONE_BITS },
    }
}

impl Load {
    /// The torque is above the servo's limit.
    pub open spec fn fails_torque(self, options: WorkspaceOptions) -> bool {
        self.torque.greater(options.servo_torque_limit)
    }
}

pub fn has_nan(values: &Vec<Scalar>) -> (b: bool)
    ensures
        b == any_nan(values@),
{
    let mut i: usize = 0;
    while i < values.len()
        invariant
            i <= values.len(),
            forall|j: int| 0 <= j < i ==> !(#[trigger] values[j]).nan(),
        decreases values.len() - i,
    {
        if values[i].is_nan() {
            return true;
        }
        i += 1;
    }
    false
}

pub fn has_outside(values: &Vec<Scalar>, min: Scalar, max: Scalar) -> (b: bool)
    ensures
        b == any_outside(values@, min, max),
{
    let mut i: usize = 0;
    while i < values.len()
        invariant
            i <= values.len(),
            forall|j: int|
                0 <= j < i ==> !((#[trigger] values[j]).less(min) || values[j].greater(max)),
        decreases values.len() - i,
    {
        if values[i].lt(min) || values[i].gt(max) {
            return true;
        }
        i += 1;
    }
    false
}

pub fn has_above(values: &Vec<Scalar>, limit: Scalar) -> (b: bool)
    ensures
        b == any_above(values@, limit),
{
    let mut i: usize = 0;
    while i < values.len()
        invariant
            i <= values.len(),
            forall|j: int| 0 <= j < i ==> !(#[trigger] values[j]).greater(limit),
        decreases values.len() - i,
    {
        if values[i].gt(limit) {
            return true;
        }
        i += 1;
    }
    false
}

pub fn has_swing_above(joints: &Vec<Option<JointAngles>>, limit: Scalar) -> (b: bool)
    ensures
        b == any_swing_above(joints@, limit),
{
    let mut i: usize = 0;
    while i < joints.len()
        invariant
            i <= joints.len(),
            forall|j: int|
                0 <= j < i ==> !((#[trigger] joints[j]) is Some && (joints[j]->0.base.greater(limit)
                    || joints[j]->0.plat.greater(limit))),
        decreases joints.len() - i,
    {
        match joints[i] {
            Some(a) => {
                if a.base.gt(limit) || a.plat.gt(limit) {
                    return true;
                }
            },
            None => {},
        }
        i += 1;
    }
    false
}

/// Runs the checks that come before the ball joints and names the first
/// that fails.
pub fn classify_early(m: &Measurement, load: &Load) -> (outcome: Option<Reason>)
    ensures
        outcome == m.early_verdict(*load),
{
    match &m.angles {
        None => {
            return Some(Reason::Ik);
        },
        Some(angles) => {
            if has_nan(angles) {
                return Some(Reason::Ik);
            }
            match m.servo_range {
                Some(range) => {
                    if has_outside(angles, range.min, range.max) {
                        return Some(Reason::ServoRange);
                    }
                },
                None => {},
            }
        },
    }
    match (&m.horn_spans, load.horn_limit) {
        (Some(spans), Some(limit)) => {
            if has_above(spans, limit) {
                return Some(Reason::HornStretch);
            }
        },
        _ => {},
    }
    None
}

/// Whether the swing of the rods must be measured: where the ball joints
/// are checked and the checks before theirs pass.
pub fn needs_joints(m: &Measurement, load: &Load, options: &WorkspaceOptions) -> (b: bool)
    ensures
        b == m.reaches_ball_joint(*load, *options),
{
    options.ball_joint_clamp && classify_early(m, load).is_none()
}

/// Runs the checks in their order on what a platform reported and names the
/// first that fails.
pub fn classify(m: &Measurement, load: &Load, options: &WorkspaceOptions) -> (outcome: Option<
    Reason,
>)
    ensures
        outcome == m.verdict(*load, *options),
{
    let early = classify_early(m, load);
    if early.is_some() {
        return early;
    }
    if options.ball_joint_clamp {
        match &m.joints {
            Some(joints) => {
                if has_swing_above(joints, options.ball_joint_limit_deg) {
                    return Some(Reason::BallJoint);
                }
            },
            None => {},
        }
    }
    if load.torque.gt(options.servo_torque_limit) {
        return Some(Reason::Torque);
    }
    None
}

/// Joints that the verdict does not reach do not change it: they need not
/// be measured.
pub proof fn lemma_unreached_joints_are_idle(
    m: Measurement,
    n: Measurement,
    load: Load,
    options: WorkspaceOptions,
)
    requires
        m.angles == n.angles,
        m.servo_range == n.servo_range,
        m.horn_spans == n.horn_spans,
        !m.reaches_ball_joint(load, options),
    ensures
        m.verdict(load, options) == n.verdict(load, options),
{
}

/// A capability that the platform lacks fails no pose, and neither do the
/// ball joints where they are not checked.
pub proof fn lemma_absent_capabilities_are_skipped(
    m: Measurement,
    load: Load,
    options: WorkspaceOptions,
)
    ensures
        m.servo_range is None ==> !m.fails_servo_range(),
        m.horn_spans is None || load.horn_limit is None ==> !m.fails_horn_stretch(load),
        m.joints is None ==> !m.fails_ball_joint(options),
        !options.ball_joint_clamp ==> !m.fails_ball_joint(options),
{
}

/// A platform that reports angles that are all numbers, and nothing else,
/// passes every check as long as the torque is within the limit.
pub proof fn lemma_bare_platform_passes(m: Measurement, load: Load, options: WorkspaceOptions)
    requires
        m.angles is Some,
        !any_nan(m.angles->0@),
        m.servo_range is None,
        m.horn_spans is None,
        m.joints is None,
        !load.torque.greater(options.servo_torque_limit),
    ensures
        m.verdict(load, options) is None,
{
}

} // verus!
