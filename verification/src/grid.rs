//! The swept ranges, their discretization, and the grid of poses in sweep order.

use vstd::prelude::*;
use vstd::arithmetic::power2::{pow2, lemma2_to64, lemma_pow2_pos};
use vstd::bits::{lemma_u64_shr_is_div, lemma_u64_shl_is_mul};
use vstd::arithmetic::div_mod::lemma_fundamental_div_mod_converse;
use crate::scalar::{Scalar, FIVE_BITS, SIGN_BIT};

verus! {

/// One of the six swept axes.
#[derive(Clone, Copy, Debug, PartialEq, Eq, Structural)]
pub enum Axis {
    X,
    Y,
    Z,
    Rx,
    Ry,
    Rz,
}

/// Range for a single axis.
#[derive(Clone, Copy, Debug)]
pub struct Range {
    pub min: Scalar,
    pub max: Scalar,
    pub step: Scalar,
}

impl Default for Range {
    fn default() -> (r: Range)
        ensures
            r.min.bits == 0,
            r.max.bits == 0,
            r.step.bits == 0,
    {
        Range { min: Scalar { bits: 0 }, max: Scalar { bits: 0 }, step: Scalar { bits: 0 } }
    }
}

impl Range {
    /// The step that the axis is walked with: the range's own where it is
    /// above zero, else `5.0`.
    pub open spec fn step_or_default(self) -> Scalar {
        if self.step.greater(Scalar { bits: 0 }) {
            self.step
        } else {
            Scalar { bits: FIVE_BITS }
        }
    }

    pub fn effective_step(&self) -> (s: Scalar)
        ensures
            s == self.step_or_default(),
            s.greater(Scalar { bits: 0 }),
    {
        if self.step.gt(Scalar::zero()) {
            self.step
        } else {
            Scalar::five()
        }
    }
}

/// The ranges to sweep, by axis. An axis without a range is swept at the
/// single value `0.0`.
#[derive(Clone, Copy, Debug)]
pub struct Ranges {
    pub x: Option<Range>,
    pub y: Option<Range>,
    pub z: Option<Range>,
    pub rx: Option<Range>,
    pub ry: Option<Range>,
    pub rz: Option<Range>,
}

impl Ranges {
    pub open spec fn lookup(self, axis: Axis) -> Option<Range> {
        match axis {
            Axis::X => self.x,
            Axis::Y => self.y,
            Axis::Z => self.z,
            Axis::Rx => self.rx,
            Axis::Ry => self.ry,
            Axis::Rz => self.rz,
        }
    }

    /// No axis has a range.
    pub fn new() -> (r: Ranges)
        ensures
            forall|a: Axis| r.lookup(a) is None,
    {
        Ranges { x: None, y: None, z: None, rx: None, ry: None, rz: None }
    }

    /// Gives `axis` the range `range` and hands back the one it had.
    pub fn insert(&mut self, axis: Axis, range: Range) -> (previous: Option<Range>)
        ensures
            previous == old(self).lookup(axis),
            final(self).lookup(axis) == Some(range),
            forall|a: Axis| a != axis ==> final(self).lookup(a) == old(self).lookup(a),
    {
        let previous = self.get(axis);
        match axis {
            Axis::X => {
                self.x = Some(range);
            },
            Axis::Y => {
                self.y = Some(range);
            },
            Axis::Z => {
                self.z = Some(range);
            },
            Axis::Rx => {
                self.rx = Some(range);
            },
            Axis::Ry => {
                self.ry = Some(range);
            },
            Axis::Rz => {
                self.rz = Some(range);
            },
        }
        previous
    }

    pub fn get(&self, axis: Axis) -> (r: Option<Range>)
        ensures
            r == self.lookup(axis),
    {
        match axis {
            Axis::X => self.x,
            Axis::Y => self.y,
            Axis::Z => self.z,
            Axis::Rx => self.rx,
            Axis::Ry => self.ry,
            Axis::Rz => self.rz,
        }
    }
}

/// Why a sweep cannot be laid out.
#[derive(Clone, Copy, Debug, PartialEq, Eq, Structural)]
pub enum GridError {
    /// An axis would have more samples than can be counted.
    TooManySamples,
    /// The grid would have more poses than can be counted.
    TooManyPoses,
    /// There is not one outcome for each pose of the grid.
    OutcomeCount,
}

/// Two to the 52nd: the number of fractions under one exponent.
pub const FRACTION_RANGE: u64 = 0x0010_0000_0000_0000;

/// The exponent field of `1.0`.
pub const EXPONENT_BIAS: u64 = 1023;

/// The exponent field under which the significand is the value itself.
pub const EXPONENT_UNIT: u64 = 1075;

/// The whole part of a quotient, as a count: 0 for a NaN, for a negative value
/// and for a value below one; the largest 64-bit number from two to the 64th on;
/// else the significand scaled by its exponent, rounded down.
pub open spec fn whole_part(q: Scalar) -> int {
    let e = q.magnitude() / (FRACTION_RANGE as int);
    let m = FRACTION_RANGE + q.magnitude() % (FRACTION_RANGE as int);
    if q.nan() || q.sign() || e < EXPONENT_BIAS {
        0
    } else if e > EXPONENT_UNIT + 11 {
        u64::MAX as int
    } else if e <= EXPONENT_UNIT {
        m / (pow2((EXPONENT_UNIT - e) as nat) as int)
    } else {
        m * pow2((e - EXPONENT_UNIT) as nat)
    }
}

/// The number of samples on an axis whose span divided by its step is `q`:
/// the whole part of `q`, and one more.
pub open spec fn samples_for(q: Scalar) -> int {
    whole_part(q) + 1
}

proof fn lemma_small_pow2(k: nat)
    requires
        k <= 11,
    ensures
        1 <= pow2(k) <= 2048,
{
    lemma2_to64();
    assert(k == 0 || k == 1 || k == 2 || k == 3 || k == 4 || k == 5 || k == 6 || k == 7 || k == 8
        || k == 9 || k == 10 || k == 11);
}

/// The whole part of a quotient as a 64-bit count.
pub fn whole_part_of(q: Scalar) -> (w: u64)
    ensures
        w == whole_part(q),
{
    let a: u64 = q.abs_bits();
    let e: u64 = a / FRACTION_RANGE;
    let m: u64 = FRACTION_RANGE + a % FRACTION_RANGE;
    if q.is_nan() || q.bits >= SIGN_BIT || e < EXPONENT_BIAS {
        0
    } else if e > EXPONENT_UNIT + 11 {
        u64::MAX
    } else if e <= EXPONENT_UNIT {
        let k: u64 = EXPONENT_UNIT - e;
        proof {
            lemma_u64_shr_is_div(m, k);
            lemma_pow2_pos(k as nat);
        }
        m >> k
    } else {
        let k: u64 = e - EXPONENT_UNIT;
        proof {
            lemma_small_pow2(k as nat);
            assert(m * pow2(k as nat) <= u64::MAX) by (nonlinear_arith)
                requires
                    m < 0x0020_0000_0000_0000,
                    1 <= pow2(k as nat) <= 2048,
            ;
            lemma_u64_shl_is_mul(m, k);
        }
        m << k
    }
}

/// The number of samples on an axis whose span divided by its step is `q`.
/// Fails where that number cannot be counted.
pub fn sample_count(q: Scalar) -> (r: Result<usize, GridError>)
    ensures
        samples_for(q) <= usize::MAX ==> r == Ok::<usize, GridError>(samples_for(q) as usize),
        samples_for(q) > usize::MAX ==> r == Err::<usize, GridError>(GridError::TooManySamples),
        r matches Ok(n) ==> n >= 1,
{
    let w: u64 = whole_part_of(q);
    if w >= usize::MAX as u64 {
        Err(GridError::TooManySamples)
    } else {
        Ok(w as usize + 1)
    }
}

/// How one axis is walked: `count` samples from `start`, each `step` after
/// the one before.
#[derive(Clone, Copy, Debug, PartialEq, Eq, Structural)]
pub struct AxisPlan {
    pub start: Scalar,
    pub step: Scalar,
    pub count: usize,
}

/// The plan of an axis. Without a range it is the single sample `0.0`. With
/// one it starts at the range's lower end, walks with the range's step or the
/// default, and has as many samples as `quotient` asks for, which is the
/// range's span divided by that step.
pub open spec fn plan_of(range: Option<Range>, quotient: Scalar) -> AxisPlan {
    match range {
        None => AxisPlan { start: Scalar { bits: 0 }, step: Scalar { bits: FIVE_BITS }, count: 1 },
        Some(r) => AxisPlan {
            start: r.min,
            step: r.step_or_default(),
            count: samples_for(quotient) as usize,
        },
    }
}

/// Plans an axis. Fails where the axis has a range and more samples than can
/// be counted.
pub fn axis_plan(range: Option<Range>, quotient: Scalar) -> (r: Result<AxisPlan, GridError>)
    ensures
        range is Some && samples_for(quotient) > usize::MAX ==> r == Err::<AxisPlan, GridError>(
            GridError::TooManySamples,
        ),
        range is None || samples_for(quotient) <= usize::MAX ==> r == Ok::<AxisPlan, GridError>(
            plan_of(range, quotient),
        ),
        r matches Ok(plan) ==> plan.count >= 1,
{
    match range {
        None => Ok(AxisPlan { start: Scalar::zero(), step: Scalar::five(), count: 1 }),
        Some(r) => {
            let count: usize = match sample_count(quotient) {
                Ok(count) => count,
                Err(e) => {
                    return Err(e);
                },
            };
            Ok(AxisPlan { start: r.min, step: r.effective_step(), count })
        },
    }
}

impl Ranges {
    /// Plans the axis `axis` from its range, if it has one.
    pub fn plan(&self, axis: Axis, quotient: Scalar) -> (r: Result<AxisPlan, GridError>)
        ensures
            self.lookup(axis) is Some && samples_for(quotient) > usize::MAX ==> r == Err::<
                AxisPlan,
                GridError,
            >(GridError::TooManySamples),
            self.lookup(axis) is None || samples_for(quotient) <= usize::MAX ==> r == Ok::<
                AxisPlan,
                GridError,
            >(plan_of(self.lookup(axis), quotient)),
    {
        axis_plan(self.get(axis), quotient)
    }
}

/// One sample point: translation in linear units, rotation in degrees.
#[derive(Clone, Copy, Debug, PartialEq, Eq, Structural)]
pub struct Pose {
    pub x: Scalar,
    pub y: Scalar,
    pub z: Scalar,
    pub rx: Scalar,
    pub ry: Scalar,
    pub rz: Scalar,
}

/// The sample values of the six axes.
#[derive(Clone, Debug)]
pub struct Grid {
    pub xs: Vec<Scalar>,
    pub ys: Vec<Scalar>,
    pub zs: Vec<Scalar>,
    pub rxs: Vec<Scalar>,
    pub rys: Vec<Scalar>,
    pub rzs: Vec<Scalar>,
}

impl Grid {
    /// The sample values of one axis.
    pub open spec fn samples(self, axis: Axis) -> Seq<Scalar> {
        match axis {
            Axis::X => self.xs@,
            Axis::Y => self.ys@,
            Axis::Z => self.zs@,
            Axis::Rx => self.rxs@,
            Axis::Ry => self.rys@,
            Axis::Rz => self.rzs@,
        }
    }

    /// The number of poses: the product of the six axes' sample counts.
    pub open spec fn total(self) -> nat {
        self.xs@.len() * self.ys@.len() * self.zs@.len() * self.rxs@.len() * self.rys@.len()
            * self.rzs@.len()
    }

    /// The place of a pose in the sweep, from its place on each axis: `rz`
    /// moves fastest, `x` slowest.
    pub open spec fn position_of(self, ix: int, iy: int, iz: int, irx: int, iry: int, irz: int) -> int {
        ((((ix * self.ys@.len() + iy) * self.zs@.len() + iz) * self.rxs@.len() + irx)
            * self.rys@.len() + iry) * self.rzs@.len() + irz
    }

    /// The pose at place `k` of the sweep.
    pub open spec fn pose_at(self, k: int) -> Pose {
        let k5 = k / (self.rzs@.len() as int);
        let k4 = k5 / (self.rys@.len() as int);
        let k3 = k4 / (self.rxs@.len() as int);
        let k2 = k3 / (self.zs@.len() as int);
        let k1 = k2 / (self.ys@.len() as int);
        Pose {
            x: self.xs@[k1],
            y: self.ys@[k2 % (self.ys@.len() as int)],
            z: self.zs@[k3 % (self.zs@.len() as int)],
            rx: self.rxs@[k4 % (self.rxs@.len() as int)],
            ry: self.rys@[k5 % (self.rys@.len() as int)],
            rz: self.rzs@[k % (self.rzs@.len() as int)],
        }
    }

    /// All poses, in sweep order.
    pub open spec fn poses(self) -> Seq<Pose> {
        Seq::new(self.total(), |k: int| self.pose_at(k))
    }

    /// The grid of the single pose at the origin: every axis at `0.0`.
    pub fn new() -> (g: Grid)
        ensures
            forall|a: Axis| g.samples(a) == seq![Scalar { bits: 0 }],
            g.total() == 1,
    {
        let g = Grid {
            xs: vec![Scalar::zero()],
            ys: vec![Scalar::zero()],
            zs: vec![Scalar::zero()],
            rxs: vec![Scalar::zero()],
            rys: vec![Scalar::zero()],
            rzs: vec![Scalar::zero()],
        };
        proof {
            assert forall|a: Axis| g.samples(a) == seq![Scalar { bits: 0 }] by {
                assert(g.samples(a) =~= seq![Scalar { bits: 0 }]);
            }
            assert(g.samples(Axis::X).len() == 1);
            assert(g.samples(Axis::Y).len() == 1);
            assert(g.samples(Axis::Z).len() == 1);
            assert(g.samples(Axis::Rx).len() == 1);
            assert(g.samples(Axis::Ry).len() == 1);
            assert(g.samples(Axis::Rz).len() == 1);
        }
        g
    }

    /// Replaces the sample values of one axis.
    pub fn set_axis(&mut self, axis: Axis, values: Vec<Scalar>)
        ensures
            final(self).samples(axis) == values@,
            forall|a: Axis| a != axis ==> final(self).samples(a) == old(self).samples(a),
    {
        match axis {
            Axis::X => {
                self.xs = values;
            },
            Axis::Y => {
                self.ys = values;
            },
            Axis::Z => {
                self.zs = values;
            },
            Axis::Rx => {
                self.rxs = values;
            },
            Axis::Ry => {
                self.rys = values;
            },
            Axis::Rz => {
                self.rzs = values;
            },
        }
    }

    /// The number of poses, where it can be counted.
    pub fn size(&self) -> (r: Result<usize, GridError>)
        ensures
            self.total() <= usize::MAX ==> r == Ok::<usize, GridError>(self.total() as usize),
            self.total() > usize::MAX ==> r == Err::<usize, GridError>(GridError::TooManyPoses),
    {
        let n1: usize = self.xs.len();
        let n2: usize = self.ys.len();
        let n3: usize = self.zs.len();
        let n4: usize = self.rxs.len();
        let n5: usize = self.rys.len();
        let n6: usize = self.rzs.len();
        if n1 == 0 || n2 == 0 || n3 == 0 || n4 == 0 || n5 == 0 || n6 == 0 {
            assert(n1 * n2 * n3 * n4 * n5 * n6 == 0) by (nonlinear_arith)
                requires
                    n1 == 0 || n2 == 0 || n3 == 0 || n4 == 0 || n5 == 0 || n6 == 0,
            ;
            return Ok(0);
        }
        let p2: usize = match n1.checked_mul(n2) {
            Some(p) => p,
            None => {
                proof {
                    lemma_product_grows(n1 * n2, n3 as int, n4 as int, n5 as int, n6 as int);
                }
                return Err(GridError::TooManyPoses);
            },
        };
        let p3: usize = match p2.checked_mul(n3) {
            Some(p) => p,
            None => {
                proof {
                    lemma_product_grows(n1 * n2 * n3, n4 as int, n5 as int, n6 as int, 1);
                }
                return Err(GridError::TooManyPoses);
            },
        };
        let p4: usize = match p3.checked_mul(n4) {
            Some(p) => p,
            None => {
                proof {
                    lemma_product_grows(n1 * n2 * n3 * n4, n5 as int, n6 as int, 1, 1);
                }
                return Err(GridError::TooManyPoses);
            },
        };
        let p5: usize = match p4.checked_mul(n5) {
            Some(p) => p,
            None => {
                proof {
                    lemma_product_grows(n1 * n2 * n3 * n4 * n5, n6 as int, 1, 1, 1);
                }
                return Err(GridError::TooManyPoses);
            },
        };
        match p5.checked_mul(n6) {
            Some(p) => Ok(p),
            None => Err(GridError::TooManyPoses),
        }
    }

    /// The pose at place `k` of the sweep.
    pub fn pose(&self, k: usize) -> (p: Pose)
        requires
            k < self.total(),
        ensures
            p == self.pose_at(k as int),
    {
        let n2: usize = self.ys.len();
        let n3: usize = self.zs.len();
        let n4: usize = self.rxs.len();
        let n5: usize = self.rys.len();
        let n6: usize = self.rzs.len();
        proof {
            lemma_digits_in_range(
                k as int,
                self.xs@.len() as int,
                n2 as int,
                n3 as int,
                n4 as int,
                n5 as int,
                n6 as int,
            );
        }
        let k5: usize = k / n6;
        let k4: usize = k5 / n5;
        let k3: usize = k4 / n4;
        let k2: usize = k3 / n3;
        let k1: usize = k2 / n2;
        Pose {
            x: self.xs[k1],
            y: self.ys[k2 % n2],
            z: self.zs[k3 % n3],
            rx: self.rxs[k4 % n4],
            ry: self.rys[k5 % n5],
            rz: self.rzs[k % n6],
        }
    }
}

proof fn lemma_product_grows(p: int, a: int, b: int, c: int, d: int)
    requires
        p >= 0,
        a >= 1,
        b >= 1,
        c >= 1,
        d >= 1,
    ensures
        p * a * b * c * d >= p,
{
    assert(p * a >= p) by (nonlinear_arith)
        requires
            p >= 0,
            a >= 1,
    ;
    assert(p * a * b >= p * a) by (nonlinear_arith)
        requires
            p * a >= 0,
            b >= 1,
    ;
    assert(p * a * b * c >= p * a * b) by (nonlinear_arith)
        requires
            p * a * b >= 0,
            c >= 1,
    ;
    assert(p * a * b * c * d >= p * a * b * c) by (nonlinear_arith)
        requires
            p * a * b * c >= 0,
            d >= 1,
    ;
}

proof fn lemma_quotient_below(k: int, a: int, b: int)
    requires
        0 <= k < a * b,
        0 <= a,
        0 <= b,
    ensures
        b > 0,
        0 <= k / b < a,
{
    assert(b > 0) by (nonlinear_arith)
        requires
            0 <= k < a * b,
            0 <= b,
    ;
    assert(0 <= k / b < a) by (nonlinear_arith)
        requires
            0 <= k < a * b,
            b > 0,
    ;
}

/// Under the number of poses, each successive quotient stays under the
/// product of the axes that are left, so each digit is a place on its axis.
proof fn lemma_digits_in_range(k: int, n1: int, n2: int, n3: int, n4: int, n5: int, n6: int)
    requires
        0 <= k < n1 * n2 * n3 * n4 * n5 * n6,
        n1 >= 0,
        n2 >= 0,
        n3 >= 0,
        n4 >= 0,
        n5 >= 0,
        n6 >= 0,
    ensures
        n2 > 0 && n3 > 0 && n4 > 0 && n5 > 0 && n6 > 0,
        0 <= k / n6 < n1 * n2 * n3 * n4 * n5,
        0 <= k / n6 / n5 < n1 * n2 * n3 * n4,
        0 <= k / n6 / n5 / n4 < n1 * n2 * n3,
        0 <= k / n6 / n5 / n4 / n3 < n1 * n2,
        0 <= k / n6 / n5 / n4 / n3 / n2 < n1,
{
    assert(n1 * n2 >= 0 && n1 * n2 * n3 >= 0 && n1 * n2 * n3 * n4 >= 0 && n1 * n2 * n3 * n4 * n5
        >= 0) by (nonlinear_arith)
        requires
            n1 >= 0,
            n2 >= 0,
            n3 >= 0,
            n4 >= 0,
            n5 >= 0,
    ;
    lemma_quotient_below(k, n1 * n2 * n3 * n4 * n5, n6);
    lemma_quotient_below(k / n6, n1 * n2 * n3 * n4, n5);
    lemma_quotient_below(k / n6 / n5, n1 * n2 * n3, n4);
    lemma_quotient_below(k / n6 / n5 / n4, n1 * n2, n3);
    lemma_quotient_below(k / n6 / n5 / n4 / n3, n1, n2);
}

proof fn lemma_digit(a: int, bound: int, b: int, radix: int)
    requires
        0 <= a < bound,
        0 <= b < radix,
    ensures
        0 <= a * radix + b < bound * radix,
        (a * radix + b) / radix == a,
        (a * radix + b) % radix == b,
{
    assert(0 <= a * radix + b < bound * radix) by (nonlinear_arith)
        requires
            0 <= a < bound,
            0 <= b < radix,
    ;
    lemma_fundamental_div_mod_converse(a * radix + b, radix, a, b);
}

/// An axis whose span divided by its step is zero, or is no number, has one
/// sample: so has every axis whose range is a single point.
pub proof fn lemma_point_axis_has_one_sample(q: Scalar)
    requires
        q.bits == 0 || q.nan(),
    ensures
        samples_for(q) == 1,
{
}

/// A grid with one sample on every axis has one pose.
pub proof fn lemma_point_grid_has_one_pose(g: Grid)
    requires
        forall|a: Axis| (#[trigger] g.samples(a)).len() == 1,
    ensures
        g.total() == 1,
{
    assert(g.samples(Axis::X).len() == 1);
    assert(g.samples(Axis::Y).len() == 1);
    assert(g.samples(Axis::Z).len() == 1);
    assert(g.samples(Axis::Rx).len() == 1);
    assert(g.samples(Axis::Ry).len() == 1);
    assert(g.samples(Axis::Rz).len() == 1);
    let n1 = g.xs@.len();
    let n2 = g.ys@.len();
    let n3 = g.zs@.len();
    let n4 = g.rxs@.len();
    let n5 = g.rys@.len();
    let n6 = g.rzs@.len();
    assert(n1 * n2 * n3 * n4 * n5 * n6 == 1) by (nonlinear_arith)
        requires
            n1 == 1 && n2 == 1 && n3 == 1 && n4 == 1 && n5 == 1 && n6 == 1,
    ;
}

/// The sweep is that of six nested loops with `x` outermost and `rz`
/// innermost: the pose made of sample `ix` of `x`, `iy` of `y` and so on
/// stands at the place that those loops reach it at.
pub proof fn lemma_sweep_order(g: Grid, ix: int, iy: int, iz: int, irx: int, iry: int, irz: int)
    requires
        0 <= ix < g.xs@.len(),
        0 <= iy < g.ys@.len(),
        0 <= iz < g.zs@.len(),
        0 <= irx < g.rxs@.len(),
        0 <= iry < g.rys@.len(),
        0 <= irz < g.rzs@.len(),
    ensures
        0 <= g.position_of(ix, iy, iz, irx, iry, irz) < g.total(),
        g.poses()[g.position_of(ix, iy, iz, irx, iry, irz)] == (Pose {
            x: g.xs@[ix],
            y: g.ys@[iy],
            z: g.zs@[iz],
            rx: g.rxs@[irx],
            ry: g.rys@[iry],
            rz: g.rzs@[irz],
        }),
{
    let n1 = g.xs@.len() as int;
    let n2 = g.ys@.len() as int;
    let n3 = g.zs@.len() as int;
    let n4 = g.rxs@.len() as int;
    let n5 = g.rys@.len() as int;
    let n6 = g.rzs@.len() as int;
    let k2 = ix * n2 + iy;
    let k3 = k2 * n3 + iz;
    let k4 = k3 * n4 + irx;
    let k5 = k4 * n5 + iry;
    let k = k5 * n6 + irz;
    lemma_digit(ix, n1, iy, n2);
    lemma_digit(k2, n1 * n2, iz, n3);
    lemma_digit(k3, n1 * n2 * n3, irx, n4);
    lemma_digit(k4, n1 * n2 * n3 * n4, iry, n5);
    lemma_digit(k5, n1 * n2 * n3 * n4 * n5, irz, n6);
    assert(k == g.position_of(ix, iy, iz, irx, iry, irz));
    assert(g.total() == n1 * n2 * n3 * n4 * n5 * n6);
}

} // verus!
