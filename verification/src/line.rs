use vstd::prelude::*;

verus! {

use crate::trajectory::{in_param_range, Trajectory, Vec2, PARAM_MAX, POS_MAX};

/// The unit-speed reference family: `position(t, theta) = (t, 0)` with
/// amplitude zero. Its speed is exactly one unit everywhere, which makes
/// it the natural witness for the arc-length laws: the quadrature
/// reproduces `arc_length(t) == t` with no rounding error at all.
pub struct UnitLine;

impl Trajectory for UnitLine {
    open spec fn pos_x_spec(&self, t: int, theta: int) -> int {
        t
    }

    open spec fn pos_y_spec(&self, t: int, theta: int) -> int {
        0
    }

    open spec fn amp_spec(t: int, theta: int) -> int {
        0
    }

    fn position(&self, t: i64, theta: i64) -> (p: Vec2) {
        Vec2 { x: t, y: 0 }
    }

    fn a(t: i64, theta: i64) -> (r: i64) {
        0
    }
}

/// A curve that never moves: every sample sits at one fixed point, so
/// the velocity vanishes identically. It is the witness for the
/// degenerate-speed fallback of the unit normal.
pub struct StillPoint;

impl Trajectory for StillPoint {
    open spec fn pos_x_spec(&self, t: int, theta: int) -> int {
        5_000_000
    }

    open spec fn pos_y_spec(&self, t: int, theta: int) -> int {
        -3_000_000
    }

    open spec fn amp_spec(t: int, theta: int) -> int {
        1_000_000
    }

    fn position(&self, t: i64, theta: i64) -> (p: Vec2) {
        Vec2 { x: 5_000_000, y: -3_000_000 }
    }

    fn a(t: i64, theta: i64) -> (r: i64) {
        1_000_000
    }
}

/// The diagonal line `position(t, theta) = (t, t)`: constant velocity in
/// both components, so the normal-vector arithmetic is exercised away
/// from the axes.
pub struct Diagonal;

impl Trajectory for Diagonal {
    open spec fn pos_x_spec(&self, t: int, theta: int) -> int {
        t
    }

    open spec fn pos_y_spec(&self, t: int, theta: int) -> int {
        t
    }

    open spec fn amp_spec(t: int, theta: int) -> int {
        0
    }

    fn position(&self, t: i64, theta: i64) -> (p: Vec2) {
        Vec2 { x: t, y: t }
    }

    fn a(t: i64, theta: i64) -> (r: i64) {
        0
    }
}

/// The unit-speed line with a fixed amplitude of two units, so the wave
/// layer has something to displace.
pub struct AmpLine;

impl Trajectory for AmpLine {
    open spec fn pos_x_spec(&self, t: int, theta: int) -> int {
        t
    }

    open spec fn pos_y_spec(&self, t: int, theta: int) -> int {
        0
    }

    open spec fn amp_spec(t: int, theta: int) -> int {
        2_000_000
    }

    fn position(&self, t: i64, theta: i64) -> (p: Vec2) {
        Vec2 { x: t, y: 0 }
    }

    fn a(t: i64, theta: i64) -> (r: i64) {
        2_000_000
    }
}

} // verus!
