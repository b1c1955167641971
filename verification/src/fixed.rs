use vstd::prelude::*;

verus! {

use vstd::arithmetic::div_mod::{
    lemma_div_is_ordered, lemma_fundamental_div_mod, lemma_fundamental_div_mod_converse,
    lemma_mod_division_less_than_divisor,
};

/// One fixed-point unit: every scalar in this crate carries six decimal
/// places, so the value `v` stands for the real number `v / SCALE`.
pub const SCALE: i64 = 1_000_000;

/// `pi / 2`, `pi` and `2 * pi` rounded to the fixed-point grid.
pub const HALF_PI_FX: i64 = 1_570_796;

pub const PI_FX: i64 = 3_141_593;

pub const TWO_PI_FX: i64 = 6_283_185;

/// Magnitude of an integer.
pub open spec fn iabs(a: int) -> int {
    if a < 0 {
        -a
    } else {
        a
    }
}

/// Division rounding toward zero, the rule every executable division in
/// this kernel follows (spec-level `/` on `int` rounds toward negative
/// infinity, which differs on negative dividends).
pub open spec fn tdiv(a: int, b: int) -> int {
    if (a < 0) == (b < 0) {
        iabs(a) / iabs(b)
    } else {
        -(iabs(a) / iabs(b))
    }
}

pub proof fn lemma_tdiv_mag(a: int, b: int)
    requires
        b != 0,
    ensures
        iabs(tdiv(a, b)) == iabs(a) / iabs(b),
        iabs(tdiv(a, b)) <= iabs(a),
{
    vstd::arithmetic::div_mod::lemma_div_pos_is_pos(iabs(a), iabs(b));
    vstd::arithmetic::div_mod::lemma_div_nonincreasing(iabs(a), iabs(b));
}

/// Characterization of the truncating division: the remainder is smaller
/// than the divisor in magnitude and carries the sign of the dividend.
pub proof fn lemma_tdiv_identity(a: int, b: int)
    requires
        b > 0,
    ensures
        iabs(a - b * tdiv(a, b)) < b,
        a >= 0 ==> a - b * tdiv(a, b) >= 0,
        a <= 0 ==> a - b * tdiv(a, b) <= 0,
{
    let q = iabs(a) / b;
    lemma_fundamental_div_mod(iabs(a), b);
    lemma_mod_division_less_than_divisor(iabs(a), b);
    vstd::arithmetic::div_mod::lemma_div_pos_is_pos(iabs(a), b);
    if a < 0 {
        assert(b * (-q) == -(b * q)) by (nonlinear_arith);
    }
}

/// Truncating division on `i128`, computed on magnitudes so that the
/// executable result provably matches `tdiv`.
pub fn tdiv128(a: i128, b: i128) -> (q: i128)
    requires
        b != 0,
        a != i128::MIN,
        b != i128::MIN,
    ensures
        q == tdiv(a as int, b as int),
        iabs(q as int) <= iabs(a as int),
{
    proof {
        lemma_tdiv_mag(a as int, b as int);
    }
    let aa: i128 = if a < 0 {
        -a
    } else {
        a
    };
    let bb: i128 = if b < 0 {
        -b
    } else {
        b
    };
    let qq: i128 = aa / bb;
    if (a < 0) != (b < 0) {
        -qq
    } else {
        qq
    }
}

/// Euclidean remainder on `i128`: the result always lies in `[0, m)`,
/// which is what reducing a phase into one period needs.
pub fn emod128(a: i128, m: i128) -> (r: i128)
    requires
        m > 0,
        a != i128::MIN,
    ensures
        r == a as int % m as int,
        0 <= r < m,
{
    proof {
        lemma_mod_division_less_than_divisor(a as int, m as int);
    }
    let aa: i128 = if a < 0 {
        -a
    } else {
        a
    };
    let rr: i128 = aa % m;
    proof {
        lemma_mod_division_less_than_divisor(aa as int, m as int);
        lemma_fundamental_div_mod(aa as int, m as int);
    }
    proof {
        let q0 = aa as int / m as int;
        assert(aa == m * q0 + rr);
        assert((-q0) * (m as int) == -(m * q0) && (-q0 - 1) * (m as int) == -(m * q0) - m)
            by (nonlinear_arith);
    }
    if a < 0 {
        if rr == 0 {
            proof {
                lemma_fundamental_div_mod_converse(a as int, m as int, -(aa as int / m as int), 0);
            }
            0
        } else {
            proof {
                lemma_fundamental_div_mod_converse(
                    a as int,
                    m as int,
                    -(aa as int / m as int) - 1,
                    m - rr,
                );
            }
            m - rr
        }
    } else {
        rr
    }
}

/// Integer square root, rounded down.
pub open spec fn sqrt_floor(n: int) -> int
    decreases n,
    when n >= 0
{
    if n <= 0 {
        0
    } else {
        let r = sqrt_floor(n - 1);
        if (r + 1) * (r + 1) <= n {
            r + 1
        } else {
            r
        }
    }
}

pub proof fn lemma_sqrt_floor(n: int)
    requires
        n >= 0,
    ensures
        0 <= sqrt_floor(n),
        sqrt_floor(n) * sqrt_floor(n) <= n,
        n < (sqrt_floor(n) + 1) * (sqrt_floor(n) + 1),
    decreases n,
{
    if n > 0 {
        lemma_sqrt_floor(n - 1);
        let r = sqrt_floor(n - 1);
        if (r + 1) * (r + 1) <= n {
            assert(sqrt_floor(n) == r + 1);
            assert(n <= (r + 1) * (r + 1));
            assert((r + 2) * (r + 2) > (r + 1) * (r + 1)) by (nonlinear_arith)
                requires
                    r >= 0,
            ;
        } else {
            assert(sqrt_floor(n) == r);
            assert(r * r <= n - 1);
        }
    } else {
        assert(sqrt_floor(0) == 0);
    }
}

pub proof fn lemma_sqrt_unique(n: int, r: int)
    requires
        0 <= r,
        r * r <= n,
        n < (r + 1) * (r + 1),
    ensures
        r == sqrt_floor(n),
{
    let s = sqrt_floor(n);
    lemma_sqrt_floor(n);
    if r < s {
        assert((r + 1) * (r + 1) <= s * s) by (nonlinear_arith)
            requires
                0 <= r + 1 <= s,
        ;
    }
    if s < r {
        assert((s + 1) * (s + 1) <= r * r) by (nonlinear_arith)
            requires
                0 <= s + 1 <= r,
        ;
    }
}

/// Largest argument `isqrt` accepts; wide enough for any sum of two
/// squared velocity components the kernel can produce.
pub const ISQRT_MAX: u128 = 1_000_000_000_000_000_000_000_000_000_000;

/// Binary-search integer square root.
pub fn isqrt(n: u128) -> (r: u128)
    requires
        n <= ISQRT_MAX,
    ensures
        r == sqrt_floor(n as int),
        r * r <= n,
        n < (r + 1) * (r + 1),
        r <= 1_000_000_000_000_000,
{
    let mut lo: u128 = 0;
    let mut hi: u128 = 1_000_000_000_000_001;
    proof {
        assert(hi * hi > n);
    }
    while lo + 1 < hi
        invariant
            lo * lo <= n,
            n < hi * hi,
            lo < hi,
            hi <= 1_000_000_000_000_001,
        decreases hi - lo,
    {
        let mid: u128 = lo + (hi - lo) / 2;
        proof {
            assert(mid * mid <= 1_000_000_000_000_001 * 1_000_000_000_000_001) by (nonlinear_arith)
                requires
                    0 <= mid <= 1_000_000_000_000_001,
            ;
        }
        if mid * mid <= n {
            lo = mid;
        } else {
            hi = mid;
        }
    }
    proof {
        lemma_sqrt_unique(n as int, lo as int);
    }
    lo
}

/// Largest argument the quarter-wave sine polynomial takes after folding.
pub const QUARTER_MAX: i64 = 1_570_797;

/// Degree-seven Taylor polynomial for sine on `[0, pi / 2]`, evaluated in
/// fixed point with truncating divisions.
pub open spec fn sin_poly_spec(y: int) -> int {
    let p2 = y * y / (SCALE as int);
    let t3 = p2 * y / (SCALE as int) / 6;
    let t5 = t3 * p2 / (SCALE as int) / 20;
    let t7 = t5 * p2 / (SCALE as int) / 42;
    y - t3 + t5 - t7
}

pub fn sin_poly(y: i64) -> (r: i64)
    requires
        0 <= y <= QUARTER_MAX,
    ensures
        r == sin_poly_spec(y as int),
        -650_646 <= r <= 1_650_490,
{
    proof {
        assert(y * y <= 2_467_403_215_209) by (nonlinear_arith)
            requires
                0 <= y <= 1_570_797,
        ;
        assert(y * y >= 0) by (nonlinear_arith);
    }
    let p2: i64 = y * y / SCALE;
    proof {
        lemma_div_is_ordered(0, y as int * y as int, SCALE as int);
        lemma_div_is_ordered(y as int * y as int, 2_467_403_215_209, SCALE as int);
        assert(p2 * y <= 3_875_789_230_191 && p2 * y >= 0) by (nonlinear_arith)
            requires
                0 <= p2 <= 2_467_403 && 0 <= y <= 1_570_797,
        ;
    }
    let t3: i64 = p2 * y / SCALE / 6;
    proof {
        lemma_div_is_ordered(0, p2 as int * y as int, SCALE as int);
        lemma_div_is_ordered(p2 as int * y as int, 3_875_789_230_191, SCALE as int);
        lemma_div_is_ordered(0, p2 as int * y as int / (SCALE as int), 6);
        lemma_div_is_ordered(p2 as int * y as int / (SCALE as int), 3_875_789, 6);
        assert(t3 * p2 <= 1_593_853_511_492 && t3 * p2 >= 0) by (nonlinear_arith)
            requires
                0 <= t3 <= 645_964 && 0 <= p2 <= 2_467_403,
        ;
    }
    let t5: i64 = t3 * p2 / SCALE / 20;
    proof {
        lemma_div_is_ordered(0, t3 as int * p2 as int, SCALE as int);
        lemma_div_is_ordered(t3 as int * p2 as int, 1_593_853_511_492, SCALE as int);
        lemma_div_is_ordered(0, t3 as int * p2 as int / (SCALE as int), 20);
        lemma_div_is_ordered(t3 as int * p2 as int / (SCALE as int), 1_593_853, 20);
        assert(t5 * p2 <= 196_632_279_876 && t5 * p2 >= 0) by (nonlinear_arith)
            requires
                0 <= t5 <= 79_692 && 0 <= p2 <= 2_467_403,
        ;
    }
    let t7: i64 = t5 * p2 / SCALE / 42;
    proof {
        lemma_div_is_ordered(0, t5 as int * p2 as int, SCALE as int);
        lemma_div_is_ordered(t5 as int * p2 as int, 196_632_279_876, SCALE as int);
        lemma_div_is_ordered(0, t5 as int * p2 as int / (SCALE as int), 42);
        lemma_div_is_ordered(t5 as int * p2 as int / (SCALE as int), 196_632, 42);
    }
    y - t3 + t5 - t7
}

/// Fixed-point sine: the phase is reduced into one period of length
/// `TWO_PI_FX` and folded onto the quarter-wave polynomial.
pub open spec fn sin_spec(x: int) -> int {
    let r = x % (TWO_PI_FX as int);
    if r <= HALF_PI_FX {
        sin_poly_spec(r)
    } else if r <= PI_FX {
        sin_poly_spec(PI_FX - r)
    } else if r <= PI_FX + HALF_PI_FX {
        -sin_poly_spec(r - PI_FX)
    } else {
        -sin_poly_spec((TWO_PI_FX as int) - r)
    }
}

/// Bound on the magnitude of `sin_fx`; slightly above `SCALE` because the
/// truncated polynomial overshoots by less than `1e-1` near `pi / 2`.
pub const SIN_BOUND: i64 = 1_650_490;

pub fn sin_fx(x: i128) -> (r: i64)
    requires
        x != i128::MIN,
    ensures
        r == sin_spec(x as int),
        -SIN_BOUND <= r <= SIN_BOUND,
{
    let m: i128 = emod128(x, TWO_PI_FX as i128);
    let mi: i64 = m as i64;
    if mi <= HALF_PI_FX {
        sin_poly(mi)
    } else if mi <= PI_FX {
        sin_poly(PI_FX - mi)
    } else if mi <= PI_FX + HALF_PI_FX {
        let v: i64 = sin_poly(mi - PI_FX);
        -v
    } else {
        let v: i64 = sin_poly(TWO_PI_FX - mi);
        -v
    }
}

/// The reduced phase is all that matters: shifting the argument by one
/// full period leaves the fixed-point sine unchanged.
pub proof fn lemma_sin_periodic(x: int)
    ensures
        sin_spec(x + TWO_PI_FX) == sin_spec(x),
{
    vstd::arithmetic::div_mod::lemma_mod_add_multiples_vanish(x, TWO_PI_FX as int);
}

/// The fixed-point sine vanishes exactly at phase zero and at `PI_FX`,
/// one half period.
pub proof fn lemma_sin_zeros()
    ensures
        sin_spec(0) == 0,
        sin_spec(PI_FX as int) == 0,
{
    lemma_mod_division_less_than_divisor(0, TWO_PI_FX as int);
    vstd::arithmetic::div_mod::lemma_small_mod(0, TWO_PI_FX as nat);
    vstd::arithmetic::div_mod::lemma_small_mod(PI_FX as nat, TWO_PI_FX as nat);
    assert(sin_poly_spec(0) == 0);
}

} // verus!
