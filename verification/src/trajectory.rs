use vstd::prelude::*;

verus! {

use crate::fixed::{
    iabs, isqrt, lemma_sqrt_floor, lemma_tdiv_mag, sqrt_floor, tdiv, tdiv128, SCALE,
};
use crate::quad::{gl_weight, gl_weight_spec, lemma_gl_table_bounds, quad_point, quad_point_exec,
    sum_from, QUAD_NODES, WEIGHT_MAX};

/// A two-dimensional point or vector on the fixed-point grid.
#[derive(Clone, Copy, PartialEq, Eq, Structural, Debug)]
pub struct Vec2 {
    pub x: i64,
    pub y: i64,
}

/// Largest curve parameter (and shape parameter) magnitude the kernel
/// accepts; a machine limit keeping every intermediate product in range.
pub const PARAM_MAX: i64 = 10_000_000_000;

/// Largest position-component magnitude a curve family may produce.
pub const POS_MAX: i64 = 10_000_000_000;

/// Largest amplitude magnitude a curve family may produce.
pub const AMP_MAX: i64 = 10_000_000_000;

/// The finite-difference step for the velocity: `1e-4` on the grid.
pub const H_FX: i64 = 100;

/// `SCALE / H_FX`: dividing by the step is an exact multiplication.
pub const DERIV_FACTOR: i64 = 10_000;

/// Bound on each velocity component that follows from `POS_MAX`.
pub const VEL_MAX: i64 = 200_000_000_000_000;

/// Bound on the speed that follows from `VEL_MAX`.
pub const SPEED_MAX: i64 = 283_000_000_000_000;

/// Speeds below this threshold (`1e-6`, one grid unit) count as
/// degenerate and get the fallback normal instead of a division.
pub const SPEED_EPS: i64 = 1;

pub open spec fn in_param_range(t: int) -> bool {
    -PARAM_MAX <= t <= PARAM_MAX
}

/// The parameter range on which the derived quantities sample the curve:
/// `t` itself and every quadrature sample must leave room for the
/// forward step `H_FX`.
pub open spec fn in_step_range(t: int) -> bool {
    -PARAM_MAX <= t && t + H_FX <= PARAM_MAX
}

/// A family of parametric plane curves: a position for every sample
/// `(t, theta)`, and a family-level modulation amplitude. Everything
/// else -- velocity, arc-length, unit normal, wave offset -- is derived
/// from these two capabilities by the free functions of this crate, so a
/// new curve family needs nothing beyond this implementation.
pub trait Trajectory: Sized {
    /// Mathematical position of the curve, x component.
    spec fn pos_x_spec(&self, t: int, theta: int) -> int;

    /// Mathematical position of the curve, y component.
    spec fn pos_y_spec(&self, t: int, theta: int) -> int;

    /// Mathematical modulation amplitude; a property of the curve family,
    /// not of one instance, so it does not take `self`.
    spec fn amp_spec(t: int, theta: int) -> int;

    /// Position of the curve at a sample. Implementations must stay on
    /// the `POS_MAX` grid so that every derived quantity fits its type.
    fn position(&self, t: i64, theta: i64) -> (p: Vec2)
        requires
            in_param_range(t as int),
            in_param_range(theta as int),
        ensures
            p.x == self.pos_x_spec(t as int, theta as int),
            p.y == self.pos_y_spec(t as int, theta as int),
            -POS_MAX <= p.x <= POS_MAX,
            -POS_MAX <= p.y <= POS_MAX,
    ;

    /// Modulation amplitude of the family at a sample.
    fn a(t: i64, theta: i64) -> (r: i64)
        requires
            in_param_range(t as int),
            in_param_range(theta as int),
        ensures
            r == Self::amp_spec(t as int, theta as int),
            -AMP_MAX <= r <= AMP_MAX,
    ;
}

/// Forward finite difference of the position over the fixed step `H_FX`;
/// dividing by the step is the exact factor `DERIV_FACTOR`.
pub open spec fn vel_x_spec<T: Trajectory>(c: &T, t: int, theta: int) -> int {
    (c.pos_x_spec(t + H_FX, theta) - c.pos_x_spec(t, theta)) * DERIV_FACTOR
}

pub open spec fn vel_y_spec<T: Trajectory>(c: &T, t: int, theta: int) -> int {
    (c.pos_y_spec(t + H_FX, theta) - c.pos_y_spec(t, theta)) * DERIV_FACTOR
}

/// Magnitude of the velocity, rounded down to the grid.
pub open spec fn speed_spec<T: Trajectory>(c: &T, t: int, theta: int) -> int {
    sqrt_floor(
        vel_x_spec(c, t, theta) * vel_x_spec(c, t, theta) + vel_y_spec(c, t, theta) * vel_y_spec(
            c,
            t,
            theta,
        ),
    )
}

/// The weighted speed samples the quadrature adds up: entry `i` is the
/// `i`-th Gauss-Legendre weight times the speed at the `i`-th sample of
/// the interval from `0` to `t`.
pub open spec fn quad_terms<T: Trajectory>(c: &T, t: int, theta: int) -> Seq<int> {
    Seq::new(QUAD_NODES as nat, |i: int| gl_weight_spec(i) * speed_spec(c, quad_point(t, i), theta))
}

/// Weighted sum of the speeds at all quadrature samples.
pub open spec fn quad_acc_spec<T: Trajectory>(c: &T, t: int, theta: int) -> int {
    sum_from(quad_terms(c, t, theta), 0)
}

/// Arc length from parameter `0` to `t`: the 50-point Gauss-Legendre
/// approximation of the integral of the speed. A negative `t` is passed
/// through as a reversed integration interval, which makes the result
/// negative for a curve of positive speed (signed arc length).
pub open spec fn s_spec<T: Trajectory>(c: &T, t: int, theta: int) -> int {
    tdiv(t * quad_acc_spec(c, t, theta), 2 * SCALE * SCALE)
}

/// Unit normal, x component: the velocity rotated a quarter turn
/// counter-clockwise and divided by the speed -- or the fallback
/// `(SCALE, 0)` at a degenerate (near-stationary) sample.
pub open spec fn n_x_spec<T: Trajectory>(c: &T, t: int, theta: int) -> int {
    if speed_spec(c, t, theta) < SPEED_EPS {
        SCALE as int
    } else {
        tdiv(-vel_y_spec(c, t, theta) * SCALE, speed_spec(c, t, theta))
    }
}

pub open spec fn n_y_spec<T: Trajectory>(c: &T, t: int, theta: int) -> int {
    if speed_spec(c, t, theta) < SPEED_EPS {
        0
    } else {
        tdiv(vel_x_spec(c, t, theta) * SCALE, speed_spec(c, t, theta))
    }
}

/// Velocity by forward finite difference with step `H_FX`. The quotient
/// approximates the true derivative to first order in the step; this
/// contract pins down the computed value exactly.
pub fn velocity<T: Trajectory>(c: &T, t: i64, theta: i64) -> (v: Vec2)
    requires
        in_step_range(t as int),
        in_param_range(theta as int),
    ensures
        v.x == vel_x_spec(c, t as int, theta as int),
        v.y == vel_y_spec(c, t as int, theta as int),
        -VEL_MAX <= v.x <= VEL_MAX,
        -VEL_MAX <= v.y <= VEL_MAX,
{
    let p0 = c.position(t, theta);
    let p1 = c.position(t + H_FX, theta);
    Vec2 { x: (p1.x - p0.x) * DERIV_FACTOR, y: (p1.y - p0.y) * DERIV_FACTOR }
}

/// Speed at a sample: the magnitude of the velocity, rounded down.
pub fn speed<T: Trajectory>(c: &T, t: i64, theta: i64) -> (sp: i64)
    requires
        in_step_range(t as int),
        in_param_range(theta as int),
    ensures
        sp == speed_spec(c, t as int, theta as int),
        0 <= sp <= SPEED_MAX,
{
    let v = velocity(c, t, theta);
    proof {
        assert(0 <= v.x as int * v.x as int <= VEL_MAX as int * VEL_MAX as int && 0 <= v.y as int
            * v.y as int <= VEL_MAX as int * VEL_MAX as int) by (nonlinear_arith)
            requires
                -VEL_MAX <= v.x <= VEL_MAX,
                -VEL_MAX <= v.y <= VEL_MAX,
        ;
    }
    let q: i128 = (v.x as i128) * (v.x as i128) + (v.y as i128) * (v.y as i128);
    let sp: u128 = isqrt(q as u128);
    proof {
        assert(sp as int <= SPEED_MAX) by (nonlinear_arith)
            requires
                sp as int * sp as int <= 2 * (VEL_MAX as int * VEL_MAX as int),
                sp as int >= 0,
        ;
    }
    sp as i64
}

/// Arc length from `0` to `t`, by 50-point Gauss-Legendre quadrature of
/// the speed.
pub fn s<T: Trajectory>(c: &T, t: i64, theta: i64) -> (r: i64)
    requires
        in_step_range(t as int),
        in_param_range(theta as int),
    ensures
        r == s_spec(c, t as int, theta as int),
{
    let mut acc: i128 = 0;
    let mut i: usize = 0;
    while i < QUAD_NODES
        invariant
            0 <= i <= QUAD_NODES,
            in_step_range(t as int),
            in_param_range(theta as int),
            0 <= acc <= i as int * (WEIGHT_MAX as int * SPEED_MAX as int),
            acc + sum_from(quad_terms(c, t as int, theta as int), i as int) == quad_acc_spec(
                c,
                t as int,
                theta as int,
            ),
        decreases QUAD_NODES - i,
    {
        let u: i64 = quad_point_exec(t, i);
        let sp: i64 = speed(c, u, theta);
        proof {
            lemma_gl_table_bounds(i as int);
        }
        let w: i64 = gl_weight(i);
        proof {
            assert(0 <= w as int * (sp as int) <= WEIGHT_MAX as int * SPEED_MAX as int)
                by (nonlinear_arith)
                requires
                    0 < w as int <= WEIGHT_MAX as int,
                    0 <= sp as int <= SPEED_MAX as int,
            ;
            assert(quad_terms(c, t as int, theta as int)[i as int] == w as int * (sp as int));
            assert(acc <= QUAD_NODES as int * (WEIGHT_MAX as int * SPEED_MAX as int))
                by (nonlinear_arith)
                requires
                    acc <= i as int * (WEIGHT_MAX as int * SPEED_MAX as int),
                    0 <= i as int <= QUAD_NODES as int,
            ;
            assert((i as int + 1) * (WEIGHT_MAX as int * SPEED_MAX as int) == i as int * (
            WEIGHT_MAX as int * SPEED_MAX as int) + WEIGHT_MAX as int * SPEED_MAX as int)
                by (nonlinear_arith);
        }
        acc = acc + (w as i128) * (sp as i128);
        i = i + 1;
    }
    proof {
        assert(iabs(t as int * acc) <= PARAM_MAX as int * (QUAD_NODES as int * (WEIGHT_MAX as int
            * SPEED_MAX as int))) by (nonlinear_arith)
            requires
                iabs(t as int) <= PARAM_MAX as int,
                0 <= acc <= QUAD_NODES as int * (WEIGHT_MAX as int * SPEED_MAX as int),
        ;
        lemma_tdiv_mag(t as int * acc, 2 * (SCALE as int) * (SCALE as int));
        vstd::arithmetic::div_mod::lemma_div_is_ordered(
            iabs(t as int * acc),
            PARAM_MAX as int * (QUAD_NODES as int * (WEIGHT_MAX as int * SPEED_MAX as int)),
            2 * (SCALE as int) * (SCALE as int),
        );
    }
    let num: i128 = (t as i128) * acc;
    let r: i128 = tdiv128(num, 2 * (SCALE as i128) * (SCALE as i128));
    proof {
        assert(iabs(r as int) <= PARAM_MAX as int * (QUAD_NODES as int * (WEIGHT_MAX as int
            * SPEED_MAX as int)) / (2 * (SCALE as int) * (SCALE as int)));
        assert(-9_000_000_000_000_000_000 <= r <= 9_000_000_000_000_000_000);
    }
    r as i64
}

/// Unit normal at a sample: the velocity rotated a quarter turn
/// counter-clockwise and scaled to length `SCALE`, or the fixed fallback
/// `(SCALE, 0)` when the speed falls below `SPEED_EPS`, so that no
/// caller ever sees a division by a vanishing magnitude.
pub fn n<T: Trajectory>(c: &T, t: i64, theta: i64) -> (r: Vec2)
    requires
        in_step_range(t as int),
        in_param_range(theta as int),
    ensures
        r.x == n_x_spec(c, t as int, theta as int),
        r.y == n_y_spec(c, t as int, theta as int),
        -SCALE <= r.x <= SCALE,
        -SCALE <= r.y <= SCALE,
{
    let v = velocity(c, t, theta);
    let sp: i64 = speed(c, t, theta);
    if sp < SPEED_EPS {
        Vec2 { x: SCALE, y: 0 }
    } else {
        proof {
            lemma_component_le_speed(v.x as int, v.y as int, sp as int);
            lemma_tdiv_mag(-(v.y as int) * SCALE, sp as int);
            lemma_tdiv_mag(v.x as int * SCALE, sp as int);
            lemma_scaled_component_le(v.y as int, sp as int);
            lemma_scaled_component_le(v.x as int, sp as int);
        }
        let nx: i128 = tdiv128(-(v.y as i128) * (SCALE as i128), sp as i128);
        let ny: i128 = tdiv128((v.x as i128) * (SCALE as i128), sp as i128);
        Vec2 { x: nx as i64, y: ny as i64 }
    }
}

/// Each velocity component is at most the rounded speed in magnitude:
/// were it larger, its own square would already exceed the radicand.
pub proof fn lemma_component_le_speed(vx: int, vy: int, sp: int)
    requires
        sp == sqrt_floor(vx * vx + vy * vy),
        0 <= sp,
    ensures
        iabs(vx) <= sp,
        iabs(vy) <= sp,
{
    assert(vx * vx + vy * vy >= 0) by (nonlinear_arith);
    lemma_sqrt_floor(vx * vx + vy * vy);
    if iabs(vx) > sp {
        assert((sp + 1) * (sp + 1) <= iabs(vx) * iabs(vx)) by (nonlinear_arith)
            requires
                0 <= sp + 1 <= iabs(vx),
        ;
        assert(iabs(vx) * iabs(vx) <= vx * vx + vy * vy) by (nonlinear_arith);
    }
    if iabs(vy) > sp {
        assert((sp + 1) * (sp + 1) <= iabs(vy) * iabs(vy)) by (nonlinear_arith)
            requires
                0 <= sp + 1 <= iabs(vy),
        ;
        assert(iabs(vy) * iabs(vy) <= vx * vx + vy * vy) by (nonlinear_arith);
    }
}

/// A component no larger than the speed, scaled by `SCALE` and divided by
/// the speed, stays within `SCALE`.
pub proof fn lemma_scaled_component_le(v: int, sp: int)
    requires
        0 < sp,
        iabs(v) <= sp,
    ensures
        iabs(v * SCALE) / sp <= SCALE as int,
        iabs(-v * SCALE) / sp <= SCALE as int,
{
    assert(iabs(v * SCALE) == iabs(v) * SCALE && iabs(-v * SCALE) == iabs(v) * SCALE)
        by (nonlinear_arith);
    vstd::arithmetic::mul::lemma_mul_inequality(iabs(v), sp, SCALE as int);
    vstd::arithmetic::div_mod::lemma_div_is_ordered(iabs(v) * SCALE, sp * SCALE, sp);
    vstd::arithmetic::div_mod::lemma_div_multiples_vanish(SCALE as int, sp);
    assert(sp * SCALE == SCALE * sp) by (nonlinear_arith);
}

} // verus!
