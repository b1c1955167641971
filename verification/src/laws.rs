use vstd::prelude::*;

verus! {

use crate::fixed::{
    iabs, lemma_sin_periodic, lemma_sin_zeros, lemma_sqrt_floor, lemma_tdiv_identity, sin_spec,
    sqrt_floor, tdiv, PI_FX, SCALE, TWO_PI_FX,
};
use crate::line::UnitLine;
use crate::quad::{
    gl_weight_spec, lemma_weight_total, quad_point, sum_from, weight_tail, QUAD_NODES,
};
use crate::trajectory::{
    n_x_spec, n_y_spec, quad_acc_spec, quad_terms, s_spec, speed_spec, vel_x_spec, vel_y_spec,
    Trajectory, SPEED_EPS,
};
use crate::wave::{normal_offset_spec, offset_x_spec, offset_y_spec};

/// Law: away from the degenerate case the unit normal is perpendicular
/// to the velocity and has magnitude `SCALE`, both up to the one rounding
/// unit per component that truncating division can lose. The first
/// clause bounds the dot product by less than one grid unit per velocity
/// component -- vanishing relative to `speed * SCALE`, the product of
/// the two magnitudes. The last clauses pin the squared magnitude of the
/// scaled normal between explicit rounding margins around
/// `SCALE^2 * (speed^2 rounded)`.
#[verifier::rlimit(80)]
pub proof fn lemma_normal_orthogonal<T: Trajectory>(c: &T, t: int, theta: int)
    requires
        speed_spec(c, t, theta) >= SPEED_EPS,
    ensures
        ({
            let vx = vel_x_spec(c, t, theta);
            let vy = vel_y_spec(c, t, theta);
            let nx = n_x_spec(c, t, theta);
            let ny = n_y_spec(c, t, theta);
            let sp = speed_spec(c, t, theta);
            iabs(vx * nx + vy * ny) < iabs(vx) + iabs(vy) && sp * sp <= vx * vx + vy * vy < (sp
                + 1) * (sp + 1) && sp * sp * (nx * nx + ny * ny) <= SCALE * SCALE * (vx * vx + vy
                * vy) + 2 * (sp * sp) && sp * sp * (nx * nx + ny * ny) >= SCALE * SCALE * (vx * vx
                + vy * vy) - 2 * SCALE * ((iabs(vx) + iabs(vy)) * sp)
        }),
{
    let vx = vel_x_spec(c, t, theta);
    let vy = vel_y_spec(c, t, theta);
    let nx = n_x_spec(c, t, theta);
    let ny = n_y_spec(c, t, theta);
    let sp = speed_spec(c, t, theta);
    let q = vx * vx + vy * vy;
    assert(q >= 0) by (nonlinear_arith)
        requires
            q == vx * vx + vy * vy,
    ;
    lemma_sqrt_floor(q);
    assert(sp * sp <= q < (sp + 1) * (sp + 1));
    assert(nx == tdiv(-vy * SCALE, sp) && ny == tdiv(vx * SCALE, sp));
    lemma_tdiv_identity(-vy * SCALE, sp);
    lemma_tdiv_identity(vx * SCALE, sp);
    let r1 = -vy * SCALE - sp * nx;
    let r2 = vx * SCALE - sp * ny;
    assert(iabs(r1) <= sp - 1 && iabs(r2) <= sp - 1);
    assert(vy >= 0 ==> -vy * SCALE <= 0) by (nonlinear_arith);
    assert(vy <= 0 ==> -vy * SCALE >= 0) by (nonlinear_arith);
    assert(vx >= 0 ==> vx * SCALE >= 0) by (nonlinear_arith);
    assert(vx <= 0 ==> vx * SCALE <= 0) by (nonlinear_arith);
    assert(vy * r1 <= 0) by (nonlinear_arith)
        requires
            vy >= 0 ==> r1 <= 0,
            vy <= 0 ==> r1 >= 0,
    ;
    assert(vx * r2 >= 0) by (nonlinear_arith)
        requires
            vx >= 0 ==> r2 >= 0,
            vx <= 0 ==> r2 <= 0,
    ;
    // The dot product: multiplied by the speed it collapses to the two
    // rounding remainders, because the exact rotation is orthogonal.
    assert(sp * (vx * nx + vy * ny) == -(vx * r1) - vy * r2) by (nonlinear_arith)
        requires
            sp * nx == -vy * SCALE - r1,
            sp * ny == vx * SCALE - r2,
    ;
    assert(iabs(-(vx * r1) - vy * r2) <= (iabs(vx) + iabs(vy)) * (sp - 1)) by (nonlinear_arith)
        requires
            iabs(r1) <= sp - 1,
            iabs(r2) <= sp - 1,
            sp >= 1,
    ;
    assert(iabs(vx) + iabs(vy) >= 1) by (nonlinear_arith)
        requires
            vx * vx + vy * vy >= sp * sp,
            sp >= 1,
    ;
    assert(iabs(vx * nx + vy * ny) < iabs(vx) + iabs(vy)) by (nonlinear_arith)
        requires
            sp >= 1,
            iabs(sp * (vx * nx + vy * ny)) <= (iabs(vx) + iabs(vy)) * (sp - 1),
            iabs(vx) + iabs(vy) >= 1,
    ;
    // The squared magnitude of the scaled normal.
    assert((sp * nx) * (sp * nx) == SCALE * SCALE * (vy * vy) + 2 * SCALE * (vy * r1) + r1 * r1)
        by (nonlinear_arith)
        requires
            sp * nx == -vy * SCALE - r1,
    ;
    assert((sp * ny) * (sp * ny) == SCALE * SCALE * (vx * vx) - 2 * SCALE * (vx * r2) + r2 * r2)
        by (nonlinear_arith)
        requires
            sp * ny == vx * SCALE - r2,
    ;
    assert(sp * sp * (nx * nx + ny * ny) == (sp * nx) * (sp * nx) + (sp * ny) * (sp * ny))
        by (nonlinear_arith);
    assert(sp * sp * (nx * nx + ny * ny) == SCALE * SCALE * q + 2 * SCALE * (vy * r1 - vx * r2)
        + r1 * r1 + r2 * r2) by (nonlinear_arith)
        requires
            (sp * nx) * (sp * nx) == SCALE * SCALE * (vy * vy) + 2 * SCALE * (vy * r1) + r1 * r1,
            (sp * ny) * (sp * ny) == SCALE * SCALE * (vx * vx) - 2 * SCALE * (vx * r2) + r2 * r2,
            sp * sp * (nx * nx + ny * ny) == (sp * nx) * (sp * nx) + (sp * ny) * (sp * ny),
            q == vx * vx + vy * vy,
    ;
    assert(r1 * r1 + r2 * r2 <= 2 * (sp * sp)) by (nonlinear_arith)
        requires
            iabs(r1) <= sp - 1,
            iabs(r2) <= sp - 1,
            sp >= 1,
    ;
    assert(r1 * r1 + r2 * r2 >= 0) by (nonlinear_arith);
    assert(2 * SCALE * (vy * r1 - vx * r2) <= 0) by (nonlinear_arith)
        requires
            vy * r1 <= 0,
            vx * r2 >= 0,
    ;
    assert(2 * SCALE * (vy * r1 - vx * r2) >= -(2 * SCALE * ((iabs(vx) + iabs(vy)) * sp)))
        by (nonlinear_arith)
        requires
            iabs(r1) <= sp - 1,
            iabs(r2) <= sp - 1,
            sp >= 1,
    ;
}

/// Law: for speeds of at least one real unit the normal really has unit
/// length up to rounding: its squared magnitude differs from `SCALE^2`
/// by at most a few grid units in either direction.
pub proof fn lemma_normal_unit_magnitude<T: Trajectory>(c: &T, t: int, theta: int)
    requires
        speed_spec(c, t, theta) >= SCALE,
    ensures
        ({
            let nx = n_x_spec(c, t, theta);
            let ny = n_y_spec(c, t, theta);
            SCALE * SCALE - 4 * SCALE <= nx * nx + ny * ny <= SCALE * SCALE + 2 * SCALE + 2
        }),
{
    lemma_normal_orthogonal(c, t, theta);
    let vx = vel_x_spec(c, t, theta);
    let vy = vel_y_spec(c, t, theta);
    let nx = n_x_spec(c, t, theta);
    let ny = n_y_spec(c, t, theta);
    let sp = speed_spec(c, t, theta);
    let q = vx * vx + vy * vy;
    let m2 = nx * nx + ny * ny;
    crate::trajectory::lemma_component_le_speed(vx, vy, sp);
    assert(iabs(vx) + iabs(vy) <= 2 * sp);
    assert(sp * sp * m2 >= sp * sp * (SCALE * SCALE - 4 * SCALE)) by (nonlinear_arith)
        requires
            sp * sp * m2 >= SCALE * SCALE * q - 2 * SCALE * ((iabs(vx) + iabs(vy)) * sp),
            q >= sp * sp,
            iabs(vx) + iabs(vy) <= 2 * sp,
            sp >= 1,
    ;
    assert(m2 >= SCALE * SCALE - 4 * SCALE) by (nonlinear_arith)
        requires
            sp * sp * m2 >= sp * sp * (SCALE * SCALE - 4 * SCALE),
            sp >= 1,
    ;
    assert(sp * sp * m2 <= SCALE * SCALE * (sp * sp) + 2 * (SCALE * SCALE) * sp + 2 * (sp * sp))
        by (nonlinear_arith)
        requires
            sp * sp * m2 <= SCALE * SCALE * q + 2 * (sp * sp),
            q < (sp + 1) * (sp + 1),
            sp >= 1,
    ;
    assert(m2 <= SCALE * SCALE + 2 * SCALE + 2) by (nonlinear_arith)
        requires
            sp * sp * m2 <= SCALE * SCALE * (sp * sp) + 2 * (SCALE * SCALE) * sp + 2 * (sp * sp),
            sp >= SCALE,
            SCALE >= 1,
    ;
}

/// Law: at a degenerate sample -- speed below the threshold, which on
/// this grid means a velocity of exactly zero -- the normal is the fixed
/// fallback `(SCALE, 0)`, never a division by a vanishing magnitude.
pub proof fn lemma_degenerate_fallback<T: Trajectory>(c: &T, t: int, theta: int)
    requires
        speed_spec(c, t, theta) < SPEED_EPS,
    ensures
        n_x_spec(c, t, theta) == SCALE,
        n_y_spec(c, t, theta) == 0,
{
}

/// The quadrature term sequence of a curve whose speed is the constant
/// `cs` at every sample sums to `weight_tail(i) * cs`.
proof fn lemma_sum_const_speed(terms: Seq<int>, cs: int, i: int)
    requires
        terms.len() == QUAD_NODES,
        0 <= i <= QUAD_NODES,
        forall|j: int| i <= j < QUAD_NODES ==> terms[j] == gl_weight_spec(j) * cs,
    ensures
        sum_from(terms, i) == weight_tail(i) * cs,
    decreases QUAD_NODES - i,
{
    if i >= QUAD_NODES {
        assert(weight_tail(i) * cs == 0) by (nonlinear_arith)
            requires
                weight_tail(i) == 0,
        ;
    } else {
        lemma_sum_const_speed(terms, cs, i + 1);
        assert((gl_weight_spec(i) + weight_tail(i + 1)) * cs == gl_weight_spec(i) * cs
            + weight_tail(i + 1) * cs) by (nonlinear_arith);
    }
}

/// Law: for a curve of constant positive speed the arc length grows
/// strictly with the parameter, as soon as the parameter step times the
/// speed amounts to at least one grid unit of arc. (Some gap is needed:
/// below that, the two rounded arc lengths can coincide -- with a speed
/// of half a unit, one grid step of `t` moves the arc length by half a
/// grid unit, which truncation erases.)
pub proof fn lemma_arc_length_monotone<T: Trajectory>(
    c: &T,
    t1: int,
    t2: int,
    theta: int,
    cs: int,
)
    requires
        forall|u: int| #[trigger] speed_spec(c, u, theta) == cs,
        cs >= 1,
        0 <= t1 < t2,
        (t2 - t1) * cs >= SCALE,
    ensures
        s_spec(c, t2, theta) > s_spec(c, t1, theta),
{
    lemma_weight_total();
    assert forall|j: int| 0 <= j < QUAD_NODES implies quad_terms(c, t1, theta)[j]
        == gl_weight_spec(j) * cs by {
        assert(speed_spec(c, quad_point(t1, j), theta) == cs);
    }
    assert forall|j: int| 0 <= j < QUAD_NODES implies quad_terms(c, t2, theta)[j]
        == gl_weight_spec(j) * cs by {
        assert(speed_spec(c, quad_point(t2, j), theta) == cs);
    }
    lemma_sum_const_speed(quad_terms(c, t1, theta), cs, 0);
    lemma_sum_const_speed(quad_terms(c, t2, theta), cs, 0);
    let k = 2 * SCALE * cs;
    let d = 2 * SCALE * SCALE;
    assert(weight_tail(0) * cs == k) by (nonlinear_arith)
        requires
            weight_tail(0) == 2 * SCALE,
            k == 2 * SCALE * cs,
    ;
    assert(quad_acc_spec(c, t1, theta) == k);
    assert(quad_acc_spec(c, t2, theta) == k);
    assert(k > 0 && d > 0) by (nonlinear_arith)
        requires
            cs >= 1,
            k == 2 * SCALE * cs,
            d == 2 * SCALE * SCALE,
    ;
    assert(t1 * k >= 0 && t2 * k >= t1 * k + d) by (nonlinear_arith)
        requires
            0 <= t1,
            t1 < t2,
            (t2 - t1) * cs >= SCALE,
            k == 2 * SCALE * cs,
            d == 2 * SCALE * SCALE,
            k > 0,
    ;
    assert(s_spec(c, t1, theta) == (t1 * k) / d && s_spec(c, t2, theta) == (t2 * k) / d);
    vstd::arithmetic::div_mod::lemma_div_plus_one(t1 * k, d);
    vstd::arithmetic::div_mod::lemma_div_is_ordered(t1 * k + d, t2 * k, d);
}

/// Law: the quadrature reproduces the arc length of the unit-speed line
/// `position(t, theta) = (t, 0)` exactly: `arcLength(t) == t`, for
/// positive and for negative `t` alike (a reversed interval gives the
/// signed arc length). This holds with no rounding error because the
/// rounded weights sum to exactly `2 * SCALE`.
pub proof fn lemma_unit_line_arc_length(t: int, theta: int)
    ensures
        s_spec(&UnitLine, t, theta) == t,
{
    let c = &UnitLine;
    lemma_weight_total();
    assert forall|u: int| #[trigger] speed_spec(c, u, theta) == SCALE by {
        assert(vel_x_spec(c, u, theta) == 100 * 10_000);
        assert(vel_y_spec(c, u, theta) == 0);
        assert(SCALE * SCALE <= 1_000_000 * 1_000_000 < (SCALE + 1) * (SCALE + 1));
        crate::fixed::lemma_sqrt_unique((1_000_000 * 1_000_000 + 0 * 0) as int, SCALE as int);
    }
    assert forall|j: int| 0 <= j < QUAD_NODES implies quad_terms(c, t, theta)[j]
        == gl_weight_spec(j) * SCALE by {
        assert(speed_spec(c, quad_point(t, j), theta) == SCALE);
    }
    lemma_sum_const_speed(quad_terms(c, t, theta), SCALE as int, 0);
    let d = 2 * SCALE * SCALE;
    assert(weight_tail(0) * (SCALE as int) == d) by (nonlinear_arith)
        requires
            weight_tail(0) == 2 * SCALE,
            d == 2 * SCALE * SCALE,
    ;
    assert(quad_acc_spec(c, t, theta) == d);
    assert(s_spec(c, t, theta) == tdiv(t * d, d));
    if t >= 0 {
        assert(t * d >= 0) by (nonlinear_arith)
            requires
                t >= 0,
                d > 0,
        ;
        assert(iabs(t * d) == t * d && iabs(d) == d) by (nonlinear_arith)
            requires
                t >= 0,
                d > 0,
        ;
        vstd::arithmetic::div_mod::lemma_div_multiples_vanish(t, d);
        assert(t * d == d * t) by (nonlinear_arith);
    } else {
        assert(t * d < 0) by (nonlinear_arith)
            requires
                t < 0,
                d > 0,
        ;
        assert(iabs(t * d) == (-t) * d && iabs(d) == d) by (nonlinear_arith)
            requires
                t < 0,
                d > 0,
        ;
        vstd::arithmetic::div_mod::lemma_div_multiples_vanish(-t, d);
        assert((-t) * d == d * (-t)) by (nonlinear_arith);
    }
}

/// Law: a family whose amplitude vanishes at a sample leaves the curve
/// untouched there: the wave-modulated point is exactly the base
/// position, whatever the normal and the scale `ta`.
pub proof fn lemma_zero_amplitude<T: Trajectory>(c: &T, t: int, theta: int, ta: int)
    requires
        T::amp_spec(t, theta) == 0,
    ensures
        normal_offset_spec(c, t, theta, ta) == 0,
        offset_x_spec(c, t, theta, ta) == c.pos_x_spec(t, theta),
        offset_y_spec(c, t, theta, ta) == c.pos_y_spec(t, theta),
{
    let sv = sin_spec(tdiv(s_spec(c, t, theta) * SCALE, ta));
    assert(0 * sv == 0) by (nonlinear_arith);
    assert(normal_offset_spec(c, t, theta, ta) == tdiv(0, SCALE as int));
    assert(tdiv(0, SCALE as int) == 0);
    assert(n_x_spec(c, t, theta) * 0 == 0) by (nonlinear_arith);
    assert(n_y_spec(c, t, theta) * 0 == 0) by (nonlinear_arith);
}

/// Law: the modulation vanishes exactly at a half-turn phase: whenever
/// arc-length over `ta` lands on the grid value of `pi`, the normal
/// offset is zero -- the sine zero-crossing.
pub proof fn lemma_modulation_half_turn<T: Trajectory>(c: &T, t: int, theta: int, ta: int)
    requires
        tdiv(s_spec(c, t, theta) * SCALE, ta) == PI_FX,
    ensures
        normal_offset_spec(c, t, theta, ta) == 0,
{
    lemma_sin_zeros();
    assert(T::amp_spec(t, theta) * 0 == 0) by (nonlinear_arith);
    assert(tdiv(0, SCALE as int) == 0);
}

/// Law: the modulation is periodic in the phase `arcLength / ta`: two
/// samples whose phases differ by one full period `TWO_PI_FX` get the
/// same normal offset, provided the family amplitude agrees there.
pub proof fn lemma_modulation_periodic<T: Trajectory>(
    c: &T,
    t1: int,
    t2: int,
    theta: int,
    ta1: int,
    ta2: int,
)
    requires
        T::amp_spec(t1, theta) == T::amp_spec(t2, theta),
        tdiv(s_spec(c, t2, theta) * SCALE, ta2) == tdiv(s_spec(c, t1, theta) * SCALE, ta1)
            + TWO_PI_FX,
    ensures
        normal_offset_spec(c, t2, theta, ta2) == normal_offset_spec(c, t1, theta, ta1),
{
    lemma_sin_periodic(tdiv(s_spec(c, t1, theta) * SCALE, ta1));
}

} // verus!
