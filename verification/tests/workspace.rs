use stewart_sim::checks::{
    JointAngles, Load, Measurement, Reason, ServoLimits, WorkspaceOptions,
};
use stewart_sim::grid::{Axis, Grid, GridError, Pose, Range, Ranges};
use stewart_sim::scalar::Scalar;
use stewart_sim::workspace::{
    compute_workspace, judge, tabulate, Coverage, Failure, Orientation, Platform, Position,
    Violation, WorkspaceResult,
};

fn s(v: f64) -> Scalar {
    Scalar::from_bits(v.to_bits())
}

fn f(v: Scalar) -> f64 {
    f64::from_bits(v.to_bits())
}

fn discretize(ranges: &Ranges) -> Grid {
    let mut grid = Grid::new();
    for axis in [Axis::X, Axis::Y, Axis::Z, Axis::Rx, Axis::Ry, Axis::Rz] {
        let quotient = match ranges.get(axis) {
            Some(r) => (f(r.max) - f(r.min)) / f(r.effective_step()),
            None => 0.0,
        };
        let plan = ranges.plan(axis, s(quotient)).unwrap();
        let mut values = Vec::new();
        let mut v = f(plan.start);
        for _ in 0..plan.count {
            values.push(s(v));
            v += f(plan.step);
        }
        grid.set_axis(axis, values);
    }
    grid
}

fn point_ranges() -> Ranges {
    let mut ranges = Ranges::new();
    ranges.insert(Axis::X, Range { min: s(0.0), max: s(0.0), step: s(1.0) });
    ranges.insert(Axis::Y, Range { min: s(0.0), max: s(0.0), step: s(1.0) });
    ranges.insert(Axis::Z, Range { min: s(0.0), max: s(0.0), step: s(1.0) });
    ranges.insert(Axis::Rx, Range { min: s(0.0), max: s(0.0), step: s(1.0) });
    ranges.insert(Axis::Ry, Range { min: s(0.0), max: s(0.0), step: s(1.0) });
    ranges.insert(Axis::Rz, Range { min: s(0.0), max: s(0.0), step: s(1.0) });
    ranges
}

fn leg_force(options: &WorkspaceOptions) -> f64 {
    let accel = (2.0 * std::f64::consts::PI * f(options.frequency)).powi(2)
        * (f(options.stroke) / 1000.0);
    f(options.payload) * (9.81 + accel) / 6.0
}

struct DummyPlatform {
    pos: Position,
    q: Orientation,
}

impl DummyPlatform {
    fn new() -> Self {
        Self {
            pos: Position { x: s(0.0), y: s(0.0), z: s(0.0) },
            q: Orientation { w: s(1.0), x: s(0.0), y: s(0.0), z: s(0.0) },
        }
    }
}

impl Platform for DummyPlatform {
    fn position_model(&self) -> Position {
        self.pos
    }
    fn orientation_model(&self) -> Orientation {
        self.q
    }
    fn update(&mut self, position: Position, orientation: Orientation) {
        self.pos = position;
        self.q = orientation;
    }
    fn place(&mut self, pose: Pose) {
        let q = quaternion::euler_angles(
            f(pose.rx).to_radians(),
            f(pose.ry).to_radians(),
            f(pose.rz).to_radians(),
        );
        self.pos = Position { x: pose.x, y: pose.y, z: pose.z };
        self.q = Orientation { w: s(q.0), x: s(q.1[0]), y: s(q.1[1]), z: s(q.1[2]) };
    }
    fn compute_angles(&self) -> Option<Vec<Scalar>> {
        Some(vec![s(0.0); 6])
    }
    fn torque(&self, options: &WorkspaceOptions, arm: Scalar) -> Scalar {
        s(leg_force(options) * f(arm))
    }
    fn orientation(&self) -> Orientation {
        self.q
    }
    fn translation(&self) -> Position {
        self.pos
    }
}

#[test]
fn simple_workspace() {
    let mut platform = DummyPlatform::new();
    let ranges = point_ranges();
    let grid = discretize(&ranges);
    let result = compute_workspace(&mut platform, &grid, WorkspaceOptions::default()).unwrap();
    assert_eq!(ratio(result.coverage), 1.0);
    assert_eq!(result.reachable.len(), 1);
    assert!(result.unreachable.is_empty());
}

fn ratio(c: Coverage) -> f64 {
    if c.total > 0 {
        c.reachable as f64 / c.total as f64
    } else {
        0.0
    }
}

fn pose(x: f64, y: f64, z: f64, rx: f64, ry: f64, rz: f64) -> Pose {
    Pose { x: s(x), y: s(y), z: s(z), rx: s(rx), ry: s(ry), rz: s(rz) }
}

/// A platform whose answers are read off its position: the angles are the
/// three coordinates, horn `i` is as long as coordinate `i` is far from zero,
/// and the one rod swings by `10 * y` degrees at both ends.
struct ProbePlatform {
    pos: Position,
    q: Orientation,
    servo: Option<(f64, f64)>,
    horn_length: Option<f64>,
    rods: bool,
    updates: usize,
    joint_calls: std::cell::Cell<usize>,
}

impl ProbePlatform {
    fn new() -> Self {
        Self {
            pos: Position { x: s(0.25), y: s(-0.5), z: s(3.0) },
            q: Orientation { w: s(0.5), x: s(0.5), y: s(-0.5), z: s(0.5) },
            servo: None,
            horn_length: None,
            rods: false,
            updates: 0,
            joint_calls: std::cell::Cell::new(0),
        }
    }
}

impl Platform for ProbePlatform {
    fn position_model(&self) -> Position {
        self.pos
    }
    fn orientation_model(&self) -> Orientation {
        self.q
    }
    fn update(&mut self, position: Position, orientation: Orientation) {
        self.pos = position;
        self.q = orientation;
        self.updates += 1;
    }
    fn place(&mut self, pose: Pose) {
        let q = quaternion::euler_angles(
            f(pose.rx).to_radians(),
            f(pose.ry).to_radians(),
            f(pose.rz).to_radians(),
        );
        self.pos = Position { x: pose.x, y: pose.y, z: pose.z };
        self.q = Orientation { w: s(q.0), x: s(q.1[0]), y: s(q.1[1]), z: s(q.1[2]) };
    }
    fn compute_angles(&self) -> Option<Vec<Scalar>> {
        if f(self.pos.z) < 0.0 {
            return None;
        }
        Some(vec![self.pos.x, self.pos.y, self.pos.z])
    }
    fn servo_range(&self) -> Option<ServoLimits> {
        self.servo.map(|(min, max)| ServoLimits { min: s(min), max: s(max) })
    }
    fn horn_limit(&self) -> Option<Scalar> {
        self.horn_length.map(|len| s(len + f64::max(1e-3 * len, 0.5)))
    }
    fn horn_spans(&self) -> Option<Vec<Scalar>> {
        Some(vec![s(f(self.pos.x).abs()), s(f(self.pos.y).abs()), s(f(self.pos.z).abs())])
    }
    fn joint_angles(&self) -> Option<Vec<Option<JointAngles>>> {
        self.joint_calls.set(self.joint_calls.get() + 1);
        if self.rods {
            let a = s(10.0 * f(self.pos.y).abs());
            Some(vec![None, Some(JointAngles { base: a, plat: a })])
        } else {
            None
        }
    }
    fn horn_length(&self) -> Option<Scalar> {
        self.horn_length.map(s)
    }
    fn torque(&self, options: &WorkspaceOptions, arm: Scalar) -> Scalar {
        s(leg_force(options) * f(arm))
    }
    fn orientation(&self) -> Orientation {
        self.q
    }
    fn translation(&self) -> Position {
        self.pos
    }
}

fn grid(xs: &[f64], ys: &[f64], zs: &[f64]) -> Grid {
    let mut g = Grid::new();
    g.set_axis(Axis::X, xs.iter().map(|v| s(*v)).collect());
    g.set_axis(Axis::Y, ys.iter().map(|v| s(*v)).collect());
    g.set_axis(Axis::Z, zs.iter().map(|v| s(*v)).collect());
    g
}

fn count_of(result: &WorkspaceResult, reason: &str) -> usize {
    result.violations.iter().filter(|v| v.reason == reason).map(|v| v.count).sum()
}

fn check_invariants(result: &WorkspaceResult, total: usize) {
    assert_eq!(result.reachable.len() + result.unreachable.len(), total);
    assert_eq!(result.coverage.total, total);
    assert_eq!(result.coverage.reachable, result.reachable.len());
    let sum: usize = result.violations.iter().map(|v| v.count).sum();
    assert_eq!(sum, result.unreachable.len());
    for v in &result.violations {
        assert!(v.count > 0);
        let n = result.unreachable.iter().filter(|u| u.reason == v.reason).count();
        assert_eq!(n, v.count);
        assert_eq!(result.violations.iter().filter(|w| w.reason == v.reason).count(), 1);
    }
}

#[test]
fn reference_scenario_has_full_coverage() {
    let mut platform = DummyPlatform::new();
    let result = compute_workspace(&mut platform, &Grid::new(), WorkspaceOptions::default()).unwrap();
    assert_eq!(ratio(result.coverage), 1.0);
    assert_eq!(result.reachable, vec![pose(0.0, 0.0, 0.0, 0.0, 0.0, 0.0)]);
    assert_eq!(result.unreachable.len(), 0);
    assert!(result.violations.is_empty());
}

#[test]
fn single_point_grid_is_all_or_nothing() {
    let g = grid(&[1.0], &[2.0], &[-3.0]);
    assert_eq!(g.size(), Ok(1));
    let mut platform = ProbePlatform::new();
    let result = compute_workspace(&mut platform, &g, WorkspaceOptions::default()).unwrap();
    assert_eq!(result.coverage, Coverage { reachable: 0, total: 1 });
    assert_eq!(ratio(result.coverage), 0.0);
    assert!(result.coverage.is_none());
    assert!(!result.coverage.is_full());
    assert_eq!(
        result.unreachable,
        vec![Failure { pose: pose(1.0, 2.0, -3.0, 0.0, 0.0, 0.0), reason: "IK".to_string() }]
    );
    assert_eq!(result.violations, vec![Violation { reason: "IK".to_string(), count: 1 }]);
    let g = grid(&[1.0], &[2.0], &[3.0]);
    let result = compute_workspace(&mut platform, &g, WorkspaceOptions::default()).unwrap();
    assert_eq!(ratio(result.coverage), 1.0);
    assert!(result.coverage.is_full());
}

#[test]
fn every_pose_is_counted_once() {
    let g = grid(&[-2.0, -1.0, 0.0, 1.0, 2.0], &[0.0, 4.0, 8.0], &[-1.0, 0.0, 1.0, 20.0]);
    let mut platform = ProbePlatform::new();
    platform.servo = Some((-1.0, 10.0));
    platform.horn_length = Some(10.0);
    platform.rods = true;
    let mut options = WorkspaceOptions::default();
    options.ball_joint_limit_deg = s(45.0);
    let result = compute_workspace(&mut platform, &g, options).unwrap();
    check_invariants(&result, 60);
    assert_eq!(count_of(&result, "IK"), 15);
    assert_eq!(count_of(&result, "servo range"), 21);
    assert_eq!(count_of(&result, "horn stretch"), 0);
    assert_eq!(count_of(&result, "ball joint"), 8);
    assert_eq!(count_of(&result, "torque"), 0);
    assert_eq!(result.reachable.len(), 16);
    assert_eq!(ratio(result.coverage), 16.0 / 60.0);
    assert_eq!(
        result.violations,
        vec![
            Violation { reason: "IK".to_string(), count: 15 },
            Violation { reason: "servo range".to_string(), count: 21 },
            Violation { reason: "ball joint".to_string(), count: 8 },
        ]
    );
}

#[test]
fn results_keep_sweep_order() {
    let g = grid(&[0.0, 1.0], &[0.0, 1.0], &[-1.0, 1.0]);
    let mut platform = ProbePlatform::new();
    let result = compute_workspace(&mut platform, &g, WorkspaceOptions::default()).unwrap();
    assert_eq!(
        result.reachable,
        vec![
            pose(0.0, 0.0, 1.0, 0.0, 0.0, 0.0),
            pose(0.0, 1.0, 1.0, 0.0, 0.0, 0.0),
            pose(1.0, 0.0, 1.0, 0.0, 0.0, 0.0),
            pose(1.0, 1.0, 1.0, 0.0, 0.0, 0.0),
        ]
    );
    let rejected: Vec<Pose> = result.unreachable.iter().map(|u| u.pose).collect();
    assert_eq!(
        rejected,
        vec![
            pose(0.0, 0.0, -1.0, 0.0, 0.0, 0.0),
            pose(0.0, 1.0, -1.0, 0.0, 0.0, 0.0),
            pose(1.0, 0.0, -1.0, 0.0, 0.0, 0.0),
            pose(1.0, 1.0, -1.0, 0.0, 0.0, 0.0),
        ]
    );
    assert_eq!(ratio(result.coverage), 0.5);
}

#[test]
fn horn_stretch_uses_length_plus_tolerance() {
    let g = grid(&[10.5, 10.6, 0.0], &[0.0], &[0.0]);
    let mut platform = ProbePlatform::new();
    platform.horn_length = Some(10.0);
    let result = compute_workspace(&mut platform, &g, WorkspaceOptions::default()).unwrap();
    check_invariants(&result, 3);
    assert_eq!(
        result.unreachable,
        vec![Failure {
            pose: pose(10.6, 0.0, 0.0, 0.0, 0.0, 0.0),
            reason: "horn stretch".to_string()
        }]
    );
}

#[test]
fn torque_is_leg_force_times_horn_length() {
    let g = grid(&[0.0, 1.0], &[0.0], &[0.0]);
    let mut options = WorkspaceOptions::default();
    options.payload = s(6.0);
    assert_eq!(leg_force(&options), 9.81);
    options.servo_torque_limit = s(9.81);
    let mut platform = ProbePlatform::new();
    let result = compute_workspace(&mut platform, &g, options).unwrap();
    assert_eq!(ratio(result.coverage), 1.0);
    options.servo_torque_limit = s(9.8);
    let result = compute_workspace(&mut platform, &g, options).unwrap();
    assert_eq!(ratio(result.coverage), 0.0);
    assert_eq!(result.violations, vec![Violation { reason: "torque".to_string(), count: 2 }]);
    options.servo_torque_limit = s(19.0);
    platform.horn_length = Some(2.0);
    let result = compute_workspace(&mut platform, &g, options).unwrap();
    assert_eq!(count_of(&result, "torque"), 2);
    options.stroke = s(1000.0);
    options.frequency = s(1.0);
    options.payload = s(1.0);
    let expected = (9.81 + (2.0 * std::f64::consts::PI).powi(2)) / 6.0;
    assert_eq!(leg_force(&options), expected);
}

#[test]
fn platform_pose_is_restored() {
    let g = grid(&[-2.0, 5.0], &[1.0, 2.0, 3.0], &[-1.0, 1.0]);
    let mut platform = ProbePlatform::new();
    let before = (platform.translation(), platform.orientation());
    let result = compute_workspace(&mut platform, &g, WorkspaceOptions::default()).unwrap();
    check_invariants(&result, 12);
    assert_eq!(platform.updates, 12);
    assert_eq!((platform.translation(), platform.orientation()), before);
}

#[test]
fn evaluation_is_idempotent() {
    let g = grid(&[-2.0, -1.0, 0.0, 1.0, 2.0], &[0.0, 4.0, 8.0], &[-1.0, 0.0, 1.0, 20.0]);
    let mut platform = ProbePlatform::new();
    platform.servo = Some((-1.0, 10.0));
    platform.rods = true;
    let first = compute_workspace(&mut platform, &g, WorkspaceOptions::default()).unwrap();
    let second = compute_workspace(&mut platform, &g, WorkspaceOptions::default()).unwrap();
    assert_eq!(first, second);
}

#[test]
fn empty_sweep_has_zero_coverage() {
    let g = grid(&[1.0, 2.0], &[], &[3.0]);
    let mut platform = ProbePlatform::new();
    let result = compute_workspace(&mut platform, &g, WorkspaceOptions::default()).unwrap();
    check_invariants(&result, 0);
    assert_eq!(ratio(result.coverage), 0.0);
    assert!(result.coverage.is_none());
    assert!(!result.coverage.is_full());
    assert_eq!(platform.updates, 0);
}

#[test]
fn a_grid_too_large_to_count_is_refused() {
    let mut g = Grid::new();
    for axis in [Axis::X, Axis::Y, Axis::Z, Axis::Rx, Axis::Ry, Axis::Rz] {
        g.set_axis(axis, vec![s(0.0); 2048]);
    }
    assert_eq!(g.size(), Err(GridError::TooManyPoses));
    let mut platform = ProbePlatform::new();
    let out = compute_workspace(&mut platform, &g, WorkspaceOptions::default());
    assert_eq!(out, Err(GridError::TooManyPoses));
    assert_eq!(platform.updates, 0);
}

#[test]
fn tabulate_sums_up_the_outcomes() {
    let g = grid(&[1.0, 2.0, 3.0], &[0.0], &[0.0, 1.0]);
    let outcomes = vec![
        Some(Reason::Torque),
        None,
        Some(Reason::Ik),
        Some(Reason::Torque),
        None,
        Some(Reason::HornStretch),
    ];
    let result = tabulate(&g, &outcomes).unwrap();
    check_invariants(&result, 6);
    assert_eq!(result.coverage, Coverage { reachable: 2, total: 6 });
    assert_eq!(
        result.reachable,
        vec![pose(1.0, 0.0, 1.0, 0.0, 0.0, 0.0), pose(3.0, 0.0, 0.0, 0.0, 0.0, 0.0)]
    );
    assert_eq!(
        result.unreachable,
        vec![
            Failure { pose: pose(1.0, 0.0, 0.0, 0.0, 0.0, 0.0), reason: "torque".to_string() },
            Failure { pose: pose(2.0, 0.0, 0.0, 0.0, 0.0, 0.0), reason: "IK".to_string() },
            Failure { pose: pose(2.0, 0.0, 1.0, 0.0, 0.0, 0.0), reason: "torque".to_string() },
            Failure {
                pose: pose(3.0, 0.0, 1.0, 0.0, 0.0, 0.0),
                reason: "horn stretch".to_string()
            },
        ]
    );
    assert_eq!(
        result.violations,
        vec![
            Violation { reason: "IK".to_string(), count: 1 },
            Violation { reason: "horn stretch".to_string(), count: 1 },
            Violation { reason: "torque".to_string(), count: 2 },
        ]
    );
}

#[test]
fn tabulate_refuses_outcomes_that_do_not_match_the_grid() {
    let g = grid(&[1.0, 2.0], &[0.0], &[0.0]);
    assert_eq!(tabulate(&g, &vec![None]), Err(GridError::OutcomeCount));
    assert_eq!(tabulate(&g, &vec![None, None, None]), Err(GridError::OutcomeCount));
    assert!(tabulate(&g, &vec![None, None]).is_ok());
    let empty = grid(&[], &[0.0], &[0.0]);
    let result = tabulate(&empty, &vec![]).unwrap();
    check_invariants(&result, 0);
}

#[test]
fn joints_are_measured_only_where_their_check_is_reached() {
    let g = grid(&[-2.0, -1.0, 0.0, 1.0, 2.0], &[0.0, 4.0, 8.0], &[-1.0, 0.0, 1.0, 20.0]);
    let mut platform = ProbePlatform::new();
    platform.servo = Some((-1.0, 10.0));
    platform.horn_length = Some(10.0);
    platform.rods = true;
    let mut options = WorkspaceOptions::default();
    options.ball_joint_limit_deg = s(45.0);
    let result = compute_workspace(&mut platform, &g, options).unwrap();
    assert_eq!(count_of(&result, "IK") + count_of(&result, "servo range"), 36);
    assert_eq!(platform.joint_calls.get(), 60 - 36);
    options.ball_joint_clamp = false;
    platform.joint_calls.set(0);
    let result = compute_workspace(&mut platform, &g, options).unwrap();
    assert_eq!(count_of(&result, "ball joint"), 0);
    assert_eq!(platform.joint_calls.get(), 0);
}

#[test]
fn judge_classifies_each_measurement_in_order() {
    let g = grid(&[1.0, 2.0, 3.0, 4.0], &[0.0], &[0.0]);
    let angles = |a: f64| Some(vec![s(a)]);
    let m = |angles: Option<Vec<Scalar>>, span: f64, swing: f64| Measurement {
        angles,
        servo_range: Some(ServoLimits { min: s(-1.0), max: s(1.0) }),
        horn_spans: Some(vec![s(span)]),
        joints: Some(vec![Some(JointAngles { base: s(swing), plat: s(0.0) })]),
    };
    let measurements = vec![
        m(angles(0.0), 1.0, 10.0),
        m(None, 99.0, 99.0),
        m(angles(0.5), 11.0, 99.0),
        m(angles(0.5), 1.0, 99.0),
    ];
    let load = Load { horn_limit: Some(s(10.5)), torque: s(1.0) };
    let mut options = WorkspaceOptions::default();
    let result = judge(&g, &measurements, &load, &options).unwrap();
    check_invariants(&result, 4);
    assert_eq!(result.reachable, vec![pose(1.0, 0.0, 0.0, 0.0, 0.0, 0.0)]);
    let reasons: Vec<&str> = result.unreachable.iter().map(|u| u.reason.as_str()).collect();
    assert_eq!(reasons, vec!["IK", "horn stretch", "ball joint"]);
    options.servo_torque_limit = s(0.5);
    let result = judge(&g, &measurements, &load, &options).unwrap();
    let reasons: Vec<&str> = result.unreachable.iter().map(|u| u.reason.as_str()).collect();
    assert_eq!(reasons, vec!["torque", "IK", "horn stretch", "ball joint"]);
    let short = vec![m(angles(0.0), 1.0, 10.0)];
    assert_eq!(judge(&g, &short, &load, &options).err(), Some(GridError::OutcomeCount));
}
