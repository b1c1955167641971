use wave_curve::fixed::{emod128, isqrt, sin_fx, tdiv128, PI_FX, SCALE, TWO_PI_FX};
use wave_curve::line::{AmpLine, Diagonal, StillPoint, UnitLine};
use wave_curve::quad::{gl_weight, quad_point_exec, QUAD_NODES};
use wave_curve::trajectory::{n, s, speed, velocity, Vec2};
use wave_curve::wave::WaveFunction;

#[test]
fn truncating_division_rounds_toward_zero() {
    assert_eq!(tdiv128(-7, 2), -3);
    assert_eq!(tdiv128(7, 2), 3);
    assert_eq!(tdiv128(7, -2), -3);
    assert_eq!(tdiv128(-7, -2), 3);
    assert_eq!(tdiv128(0, 5), 0);
}

#[test]
fn euclidean_remainder_is_nonnegative() {
    assert_eq!(emod128(-7, 3), 2);
    assert_eq!(emod128(7, 3), 1);
    assert_eq!(emod128(-9, 3), 0);
}

#[test]
fn integer_square_root_rounds_down() {
    assert_eq!(isqrt(0), 0);
    assert_eq!(isqrt(1), 1);
    assert_eq!(isqrt(2), 1);
    assert_eq!(isqrt(1_000_000_000_000), 1_000_000);
    assert_eq!(isqrt(2_000_000_000_000), 1_414_213);
}

#[test]
fn sine_hits_the_exact_table_values() {
    // sin(pi / 6) is exactly one half on the grid.
    assert_eq!(sin_fx(523_599), 500_000);
    // The zero crossings at phase zero and at pi are exact.
    assert_eq!(sin_fx(0), 0);
    assert_eq!(sin_fx(PI_FX as i128), 0);
    // Near pi / 2 the truncated polynomial sits just under one.
    assert_eq!(sin_fx(1_570_796), 999_844);
}

#[test]
fn sine_is_periodic_on_the_grid() {
    for phase in [0i128, 523_599, 1_570_796, 3_141_593, 5_000_000] {
        assert_eq!(sin_fx(phase + TWO_PI_FX as i128), sin_fx(phase));
        assert_eq!(sin_fx(phase - TWO_PI_FX as i128), sin_fx(phase));
    }
}

#[test]
fn weights_sum_to_two() {
    let mut total: i64 = 0;
    let mut i: usize = 0;
    while i < QUAD_NODES {
        total += gl_weight(i);
        i += 1;
    }
    assert_eq!(total, 2 * SCALE);
}

#[test]
fn quadrature_samples_stay_inside_the_interval() {
    assert_eq!(quad_point_exec(1_000_000, 0), 567);
    for i in 0..QUAD_NODES {
        let u = quad_point_exec(1_000_000, i);
        assert!(0 <= u && u <= 1_000_000);
        let v = quad_point_exec(-1_000_000, i);
        assert!(-1_000_000 <= v && v <= 0);
    }
}

#[test]
fn unit_line_velocity_and_speed() {
    let v = velocity(&UnitLine, 42, 7);
    assert_eq!(v, Vec2 { x: SCALE, y: 0 });
    assert_eq!(speed(&UnitLine, 42, 7), SCALE);
}

#[test]
fn unit_line_arc_length_is_exact() {
    // The known curve of speed one: arc length equals the parameter.
    assert_eq!(s(&UnitLine, 3_000_000, 0), 3_000_000);
    assert_eq!(s(&UnitLine, 1, 5), 1);
    assert_eq!(s(&UnitLine, 0, 0), 0);
}

#[test]
fn reversed_interval_gives_signed_arc_length() {
    assert_eq!(s(&UnitLine, -2_000_000, 0), -2_000_000);
}

#[test]
fn arc_length_grows_with_the_parameter() {
    let s1 = s(&UnitLine, 1_000_000, 0);
    let s2 = s(&UnitLine, 2_000_000, 0);
    let s3 = s(&UnitLine, 3_000_000, 0);
    assert!(s1 < s2 && s2 < s3);
}

#[test]
fn normal_is_perpendicular_and_unit_for_the_diagonal() {
    let v = velocity(&Diagonal, 0, 0);
    let nrm = n(&Diagonal, 0, 0);
    assert_eq!(nrm, Vec2 { x: -707_107, y: 707_107 });
    // Exact orthogonality for this family: the dot product vanishes.
    assert_eq!(v.x * nrm.x + v.y * nrm.y, 0);
    // Squared magnitude within rounding of SCALE^2.
    let m2 = nrm.x * nrm.x + nrm.y * nrm.y;
    assert!((SCALE * SCALE - m2).abs() < 3 * SCALE);
}

#[test]
fn stationary_curve_gets_the_fallback_normal() {
    assert_eq!(speed(&StillPoint, 123, 4), 0);
    assert_eq!(n(&StillPoint, 123, 4), Vec2 { x: SCALE, y: 0 });
}

#[test]
fn zero_amplitude_leaves_the_curve_untouched() {
    let base = wave_curve::trajectory::Trajectory::position(&UnitLine, 2_000_000, 7);
    let p = UnitLine.offset(2_000_000, 7, 555);
    assert_eq!(p, base);
    assert_eq!(UnitLine.normal_offset(2_000_000, 7, 555), 0);
}

#[test]
fn modulation_vanishes_at_a_half_turn() {
    // Arc length pi, scale one: the phase lands exactly on PI_FX.
    assert_eq!(AmpLine.normal_offset(PI_FX, 0, SCALE), 0);
}

#[test]
fn modulation_peaks_at_a_quarter_turn() {
    // Arc length pi / 2, scale one: amplitude two times sin(pi / 2).
    assert_eq!(AmpLine.normal_offset(1_570_796, 0, SCALE), 1_999_688);
}

#[test]
fn modulation_is_periodic_in_the_phase() {
    let one_turn_later = 1_570_796 + TWO_PI_FX;
    assert_eq!(
        AmpLine.normal_offset(one_turn_later, 0, SCALE),
        AmpLine.normal_offset(1_570_796, 0, SCALE),
    );
}

#[test]
fn offset_displaces_along_the_normal() {
    let p = AmpLine.offset(1_570_796, 0, SCALE);
    assert_eq!(p, Vec2 { x: 1_570_796, y: 1_999_688 });
}

#[test]
fn offset_with_negative_scale_flips_the_phase() {
    let plus = AmpLine.normal_offset(1_570_796, 0, SCALE);
    let minus = AmpLine.normal_offset(1_570_796, 0, -SCALE);
    assert_eq!(minus, -plus);
}

#[test]
fn arc_length_is_exact_up_to_the_parameter_bound() {
    // The largest parameter the kernel accepts still reproduces the
    // unit line's arc length with no rounding error.
    let t_big = wave_curve::trajectory::PARAM_MAX - wave_curve::trajectory::H_FX;
    assert_eq!(s(&UnitLine, t_big, 0), t_big);
    assert_eq!(s(&UnitLine, -wave_curve::trajectory::PARAM_MAX, 0),
        -wave_curve::trajectory::PARAM_MAX);
}

#[test]
fn diagonal_arc_length_matches_root_two() {
    // Speed is isqrt(2) * SCALE everywhere on the diagonal, so the arc
    // length of one parameter unit is within rounding of sqrt(2).
    let got = s(&Diagonal, 1_000_000, 0);
    assert!((got - 1_414_213).abs() <= 2);
}

#[test]
fn still_point_arc_length_is_zero() {
    assert_eq!(s(&StillPoint, 4_000_000, 1), 0);
}
