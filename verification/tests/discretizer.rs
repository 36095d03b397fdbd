use stewart_sim::grid::{
    axis_plan, sample_count, whole_part_of, Axis, AxisPlan, Grid, GridError, Pose, Range, Ranges,
};
use stewart_sim::scalar::Scalar;

fn s(v: f64) -> Scalar {
    Scalar::from_bits(v.to_bits())
}

fn f(v: Scalar) -> f64 {
    f64::from_bits(v.to_bits())
}

fn range(min: f64, max: f64, step: f64) -> Range {
    Range { min: s(min), max: s(max), step: s(step) }
}

fn list(ranges: &Ranges, axis: Axis) -> Result<Vec<f64>, GridError> {
    let quotient = match ranges.get(axis) {
        Some(r) => (f(r.max) - f(r.min)) / f(r.effective_step()),
        None => f64::NAN,
    };
    let plan = ranges.plan(axis, s(quotient))?;
    let mut arr = Vec::new();
    let mut v = f(plan.start);
    for _ in 0..plan.count {
        arr.push(v);
        v += f(plan.step);
    }
    Ok(arr)
}

#[test]
fn range_default_is_all_zero() {
    let r = Range::default();
    assert_eq!(f(r.min), 0.0);
    assert_eq!(f(r.max), 0.0);
    assert_eq!(f(r.step), 0.0);
}

#[test]
fn step_defaults_to_five_when_not_positive() {
    assert_eq!(f(range(0.0, 1.0, 0.0).effective_step()), 5.0);
    assert_eq!(f(range(0.0, 1.0, -0.0).effective_step()), 5.0);
    assert_eq!(f(range(0.0, 1.0, -2.0).effective_step()), 5.0);
    assert_eq!(f(range(0.0, 1.0, f64::NAN).effective_step()), 5.0);
    assert_eq!(f(range(0.0, 1.0, f64::NEG_INFINITY).effective_step()), 5.0);
    assert_eq!(f(range(0.0, 1.0, 0.25).effective_step()), 0.25);
    assert_eq!(f(range(0.0, 1.0, 1e-320).effective_step()), 1e-320);
    assert_eq!(f(range(0.0, 1.0, f64::INFINITY).effective_step()), f64::INFINITY);
}

#[test]
fn whole_part_agrees_with_the_saturating_cast() {
    let values = [
        0.0,
        -0.0,
        0.5,
        0.999999,
        1.0,
        1.5,
        2.0,
        2.9999999,
        3.0,
        4.0,
        1023.75,
        4503599627370496.0,
        4503599627370497.0,
        9007199254740992.0,
        9007199254740993.0,
        1e18,
        9223372036854775808.0,
        1.8e19,
        18446744073709549568.0,
        18446744073709551616.0,
        1e300,
        f64::INFINITY,
        f64::NEG_INFINITY,
        f64::NAN,
        -1.0,
        -0.5,
        -1e300,
        1e-320,
        f64::MIN_POSITIVE,
    ];
    for v in values {
        assert_eq!(whole_part_of(s(v)), v.floor() as u64, "{v}");
    }
}

#[test]
fn sample_count_is_whole_part_and_one() {
    assert_eq!(sample_count(s(4.0)), Ok(5));
    assert_eq!(sample_count(s(4.9)), Ok(5));
    assert_eq!(sample_count(s(0.0)), Ok(1));
    assert_eq!(sample_count(s(0.5)), Ok(1));
    assert_eq!(sample_count(s(1.0)), Ok(2));
    assert_eq!(sample_count(s(9007199254740992.0)), Ok(9007199254740993));
}

#[test]
fn sample_count_is_one_for_negative_and_nan() {
    assert_eq!(sample_count(s(-3.0)), Ok(1));
    assert_eq!(sample_count(s(-0.0)), Ok(1));
    assert_eq!(sample_count(s(f64::NEG_INFINITY)), Ok(1));
    assert_eq!(sample_count(s(f64::NAN)), Ok(1));
}

#[test]
fn sample_count_refuses_what_cannot_be_counted() {
    assert_eq!(sample_count(s(f64::INFINITY)), Err(GridError::TooManySamples));
    assert_eq!(sample_count(s(1e300)), Err(GridError::TooManySamples));
    assert_eq!(sample_count(s(18446744073709551616.0)), Err(GridError::TooManySamples));
}

#[test]
fn discretizer_boundary() {
    let mut ranges = Ranges::new();
    ranges.insert(Axis::X, range(-10.0, 10.0, 5.0));
    assert_eq!(list(&ranges, Axis::X), Ok(vec![-10.0, -5.0, 0.0, 5.0, 10.0]));
}

#[test]
fn discretizer_single_point() {
    let mut ranges = Ranges::new();
    ranges.insert(Axis::Rx, range(0.0, 0.0, 1.0));
    assert_eq!(list(&ranges, Axis::Rx), Ok(vec![0.0]));
}

#[test]
fn discretizer_missing_axis() {
    let ranges = Ranges::new();
    for axis in [Axis::X, Axis::Y, Axis::Z, Axis::Rx, Axis::Ry, Axis::Rz] {
        assert!(ranges.get(axis).is_none());
        assert_eq!(list(&ranges, axis), Ok(vec![0.0]));
    }
    let grid = Grid::new();
    assert_eq!(grid.size(), Ok(1));
    assert_eq!(grid.pose(0), Pose { x: s(0.0), y: s(0.0), z: s(0.0), rx: s(0.0), ry: s(0.0), rz: s(0.0) });
}

#[test]
fn discretizer_default_step_and_inverted_range() {
    let mut ranges = Ranges::new();
    ranges.insert(Axis::Y, range(0.0, 12.0, 0.0));
    assert_eq!(list(&ranges, Axis::Y), Ok(vec![0.0, 5.0, 10.0]));
    ranges.insert(Axis::Z, range(3.0, -3.0, 1.0));
    assert_eq!(list(&ranges, Axis::Z), Ok(vec![3.0]));
}

#[test]
fn discretizer_accumulates_by_addition() {
    let mut ranges = Ranges::new();
    ranges.insert(Axis::X, range(0.0, 0.35, 0.1));
    let xs = list(&ranges, Axis::X).unwrap();
    assert_eq!(xs.len(), 4);
    assert_eq!(xs[3], 0.1 + 0.1 + 0.1);
    assert_ne!(xs[3], 0.1 * 3.0 + 1e-9);
    assert_eq!(xs[3].to_bits(), 0.30000000000000004f64.to_bits());
}

#[test]
fn discretizer_refuses_unbounded_range() {
    let mut ranges = Ranges::new();
    ranges.insert(Axis::X, range(0.0, f64::INFINITY, 1.0));
    assert_eq!(list(&ranges, Axis::X), Err(GridError::TooManySamples));
}

#[test]
fn insert_replaces_and_returns_previous() {
    let mut ranges = Ranges::new();
    assert!(ranges.insert(Axis::Ry, range(1.0, 2.0, 3.0)).is_none());
    let prev = ranges.insert(Axis::Ry, range(4.0, 5.0, 6.0)).unwrap();
    assert_eq!(f(prev.min), 1.0);
    assert_eq!(f(ranges.get(Axis::Ry).unwrap().max), 5.0);
    assert!(ranges.get(Axis::Rz).is_none());
}

#[test]
fn grid_size_is_the_product() {
    let mut grid = Grid::new();
    grid.set_axis(Axis::X, vec![s(1.0), s(2.0)]);
    grid.set_axis(Axis::Ry, vec![s(1.0), s(2.0), s(3.0)]);
    grid.set_axis(Axis::Rz, vec![s(0.0); 4]);
    assert_eq!(grid.size(), Ok(24));
    grid.set_axis(Axis::Z, vec![]);
    assert_eq!(grid.size(), Ok(0));
}

#[test]
fn sweep_moves_rz_fastest_and_x_slowest() {
    let mut grid = Grid::new();
    grid.set_axis(Axis::X, vec![s(1.0), s(2.0)]);
    grid.set_axis(Axis::Y, vec![s(10.0), s(20.0)]);
    grid.set_axis(Axis::Z, vec![s(7.0)]);
    grid.set_axis(Axis::Rx, vec![s(-1.0), s(-2.0)]);
    grid.set_axis(Axis::Ry, vec![s(0.5)]);
    grid.set_axis(Axis::Rz, vec![s(100.0), s(200.0), s(300.0)]);
    let mut expected = Vec::new();
    for x in [1.0, 2.0] {
        for y in [10.0, 20.0] {
            for z in [7.0] {
                for rx in [-1.0, -2.0] {
                    for ry in [0.5] {
                        for rz in [100.0, 200.0, 300.0] {
                            expected.push(Pose {
                                x: s(x),
                                y: s(y),
                                z: s(z),
                                rx: s(rx),
                                ry: s(ry),
                                rz: s(rz),
                            });
                        }
                    }
                }
            }
        }
    }
    let total = grid.size().unwrap();
    assert_eq!(total, expected.len());
    for k in 0..total {
        assert_eq!(grid.pose(k), expected[k], "place {k}");
    }
}

#[test]
fn an_axis_without_a_range_is_the_single_sample_zero() {
    for q in [0.0, 7.0, f64::INFINITY, f64::NAN] {
        assert_eq!(axis_plan(None, s(q)), Ok(AxisPlan { start: s(0.0), step: s(5.0), count: 1 }));
    }
}

#[test]
fn an_axis_with_a_range_starts_at_its_lower_end() {
    let plan = axis_plan(Some(range(-10.0, 10.0, 5.0)), s(4.0)).unwrap();
    assert_eq!(plan, AxisPlan { start: s(-10.0), step: s(5.0), count: 5 });
    let plan = axis_plan(Some(range(2.0, 3.0, -1.0)), s(0.2)).unwrap();
    assert_eq!(plan, AxisPlan { start: s(2.0), step: s(5.0), count: 1 });
    let plan = axis_plan(Some(range(2.0, 3.0, 0.25)), s(4.0)).unwrap();
    assert_eq!(plan, AxisPlan { start: s(2.0), step: s(0.25), count: 5 });
    assert_eq!(
        axis_plan(Some(range(0.0, f64::INFINITY, 1.0)), s(f64::INFINITY)),
        Err(GridError::TooManySamples)
    );
    let mut ranges = Ranges::new();
    ranges.insert(Axis::Rz, range(1.0, 2.0, 0.5));
    assert_eq!(ranges.plan(Axis::Rz, s(2.0)), Ok(AxisPlan { start: s(1.0), step: s(0.5), count: 3 }));
    assert_eq!(ranges.plan(Axis::X, s(2.0)), Ok(AxisPlan { start: s(0.0), step: s(5.0), count: 1 }));
}
