use vstd::prelude::*;

verus! {

use crate::fixed::{iabs, lemma_tdiv_mag, sin_fx, sin_spec, tdiv, tdiv128, SCALE, SIN_BOUND};
use crate::trajectory::{
    in_param_range, in_step_range, n, n_x_spec, n_y_spec, s, s_spec, Trajectory, Vec2, AMP_MAX,
};

/// Bound on the magnitude of the normal offset, from `AMP_MAX` and
/// `SIN_BOUND`.
pub const OFFSET_MAX: i64 = 16_504_900_000;

/// Signed magnitude of the sinusoidal normal displacement at a sample:
/// the family amplitude times the sine of arc-length divided by the
/// wavelength-like scale `ta`. The displacement is a function of how far
/// along the curve the sample lies by arc length, not of `t` itself.
pub open spec fn normal_offset_spec<T: Trajectory>(c: &T, t: int, theta: int, ta: int) -> int {
    tdiv(T::amp_spec(t, theta) * sin_spec(tdiv(s_spec(c, t, theta) * SCALE, ta)), SCALE as int)
}

/// The wave-modulated point, x component: the base position nudged along
/// the unit normal by the normal offset.
pub open spec fn offset_x_spec<T: Trajectory>(c: &T, t: int, theta: int, ta: int) -> int {
    c.pos_x_spec(t, theta) + tdiv(
        n_x_spec(c, t, theta) * normal_offset_spec(c, t, theta, ta),
        SCALE as int,
    )
}

pub open spec fn offset_y_spec<T: Trajectory>(c: &T, t: int, theta: int, ta: int) -> int {
    c.pos_y_spec(t, theta) + tdiv(
        n_y_spec(c, t, theta) * normal_offset_spec(c, t, theta, ta),
        SCALE as int,
    )
}

/// The wave capability: every `Trajectory` gets the sinusoidal normal
/// displacement and the displaced point for free, with no extra code per
/// curve family (see the blanket implementation below).
pub trait WaveFunction: Trajectory {
    /// Signed normal displacement at a sample. `ta` must not be zero;
    /// there is no meaningful phase for a vanishing scale.
    fn normal_offset(&self, t: i64, theta: i64, ta: i64) -> (r: i64)
        requires
            in_step_range(t as int),
            in_param_range(theta as int),
            ta != 0,
        ensures
            r == normal_offset_spec(self, t as int, theta as int, ta as int),
            -OFFSET_MAX <= r <= OFFSET_MAX,
    {
        let cur: i64 = s(self, t, theta);
        let amp: i64 = Self::a(t, theta);
        proof {
            assert(iabs(cur as int * SCALE as int) < 100_000_000_000_000_000_000_000_000)
                by (nonlinear_arith)
                requires
                    -9_223_372_036_854_775_808 <= cur as int <= 9_223_372_036_854_775_807,
            ;
        }
        let phase: i128 = tdiv128((cur as i128) * (SCALE as i128), ta as i128);
        let sv: i64 = sin_fx(phase);
        proof {
            assert(iabs(amp as int * sv as int) <= AMP_MAX as int * SIN_BOUND as int)
                by (nonlinear_arith)
                requires
                    -AMP_MAX <= amp <= AMP_MAX,
                    -SIN_BOUND <= sv <= SIN_BOUND,
            ;
            lemma_tdiv_mag(amp as int * sv as int, SCALE as int);
            vstd::arithmetic::div_mod::lemma_div_is_ordered(
                iabs(amp as int * sv as int),
                AMP_MAX as int * SIN_BOUND as int,
                SCALE as int,
            );
        }
        let prod: i128 = (amp as i128) * (sv as i128);
        let r: i128 = tdiv128(prod, SCALE as i128);
        r as i64
    }

    /// The wave-modulated point: the base curve point displaced along
    /// its own unit normal by the sinusoidal normal offset.
    fn offset(&self, t: i64, theta: i64, ta: i64) -> (p: Vec2)
        requires
            in_step_range(t as int),
            in_param_range(theta as int),
            ta != 0,
        ensures
            p.x == offset_x_spec(self, t as int, theta as int, ta as int),
            p.y == offset_y_spec(self, t as int, theta as int, ta as int),
    {
        let nrm = n(self, t, theta);
        let no: i64 = self.normal_offset(t, theta, ta);
        let base = self.position(t, theta);
        proof {
            assert(iabs(nrm.x as int * no as int) <= SCALE as int * OFFSET_MAX as int && iabs(
                nrm.y as int * no as int,
            ) <= SCALE as int * OFFSET_MAX as int) by (nonlinear_arith)
                requires
                    -SCALE <= nrm.x <= SCALE,
                    -SCALE <= nrm.y <= SCALE,
                    -OFFSET_MAX <= no <= OFFSET_MAX,
            ;
            lemma_tdiv_mag(nrm.x as int * no as int, SCALE as int);
            lemma_tdiv_mag(nrm.y as int * no as int, SCALE as int);
            vstd::arithmetic::div_mod::lemma_div_is_ordered(
                iabs(nrm.x as int * no as int),
                SCALE as int * OFFSET_MAX as int,
                SCALE as int,
            );
            vstd::arithmetic::div_mod::lemma_div_is_ordered(
                iabs(nrm.y as int * no as int),
                SCALE as int * OFFSET_MAX as int,
                SCALE as int,
            );
        }
        let dx: i128 = tdiv128((nrm.x as i128) * (no as i128), SCALE as i128);
        let dy: i128 = tdiv128((nrm.y as i128) * (no as i128), SCALE as i128);
        Vec2 { x: base.x + (dx as i64), y: base.y + (dy as i64) }
    }
}

/// Universal extension: the wave capability comes for free with the
/// trajectory capability.
impl<T: Trajectory> WaveFunction for T {
}

} // verus!
