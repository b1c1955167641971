use vstd::prelude::*;

verus! {

use crate::fixed::{iabs, lemma_tdiv_mag, tdiv, tdiv128, SCALE};

/// Number of quadrature samples used for every arc-length evaluation.
pub const QUAD_NODES: usize = 50;

/// Largest single weight in the table below.
pub const WEIGHT_MAX: i64 = 62_173;

/// Nodes of the 50-point Gauss-Legendre rule on `[-1, 1]`, rounded to the
/// fixed-point grid, in ascending order.
pub open spec fn gl_node_spec(i: int) -> int {
    if i == 0 {
        -998_866
    } else if i == 1 {
        -994_032
    } else if i == 2 {
        -985_354
    } else if i == 3 {
        -972_864
    } else if i == 4 {
        -956_611
    } else if i == 5 {
        -936_657
    } else if i == 6 {
        -913_079
    } else if i == 7 {
        -885_968
    } else if i == 8 {
        -855_430
    } else if i == 9 {
        -821_582
    } else if i == 10 {
        -784_556
    } else if i == 11 {
        -744_494
    } else if i == 12 {
        -701_552
    } else if i == 13 {
        -655_896
    } else if i == 14 {
        -607_703
    } else if i == 15 {
        -557_158
    } else if i == 16 {
        -504_458
    } else if i == 17 {
        -449_806
    } else if i == 18 {
        -393_414
    } else if i == 19 {
        -335_500
    } else if i == 20 {
        -276_288
    } else if i == 21 {
        -216_007
    } else if i == 22 {
        -154_891
    } else if i == 23 {
        -93_175
    } else if i == 24 {
        -31_098
    } else if i == 25 {
        31_098
    } else if i == 26 {
        93_175
    } else if i == 27 {
        154_891
    } else if i == 28 {
        216_007
    } else if i == 29 {
        276_288
    } else if i == 30 {
        335_500
    } else if i == 31 {
        393_414
    } else if i == 32 {
        449_806
    } else if i == 33 {
        504_458
    } else if i == 34 {
        557_158
    } else if i == 35 {
        607_703
    } else if i == 36 {
        655_896
    } else if i == 37 {
        701_552
    } else if i == 38 {
        744_494
    } else if i == 39 {
        784_556
    } else if i == 40 {
        821_582
    } else if i == 41 {
        855_430
    } else if i == 42 {
        885_968
    } else if i == 43 {
        913_079
    } else if i == 44 {
        936_657
    } else if i == 45 {
        956_611
    } else if i == 46 {
        972_864
    } else if i == 47 {
        985_354
    } else if i == 48 {
        994_032
    } else if i == 49 {
        998_866
    } else {
        0
    }
}

/// Weights of the 50-point Gauss-Legendre rule, matching `gl_node_spec`
/// index by index. The table is symmetric, and the central weights were
/// rounded so that the fifty entries sum to exactly `2 * SCALE`: the rule
/// integrates a constant with no rounding error at all.
pub open spec fn gl_weight_spec(i: int) -> int {
    if i == 0 {
        2_909
    } else if i == 1 {
        6_760
    } else if i == 2 {
        10_591
    } else if i == 3 {
        14_381
    } else if i == 4 {
        18_116
    } else if i == 5 {
        21_780
    } else if i == 6 {
        25_361
    } else if i == 7 {
        28_843
    } else if i == 8 {
        32_214
    } else if i == 9 {
        35_460
    } else if i == 10 {
        38_569
    } else if i == 11 {
        41_528
    } else if i == 12 {
        44_328
    } else if i == 13 {
        46_955
    } else if i == 14 {
        49_401
    } else if i == 15 {
        51_656
    } else if i == 16 {
        53_711
    } else if i == 17 {
        55_558
    } else if i == 18 {
        57_190
    } else if i == 19 {
        58_601
    } else if i == 20 {
        59_785
    } else if i == 21 {
        60_738
    } else if i == 22 {
        61_456
    } else if i == 23 {
        61_936
    } else if i == 24 {
        62_173
    } else if i == 25 {
        62_173
    } else if i == 26 {
        61_936
    } else if i == 27 {
        61_456
    } else if i == 28 {
        60_738
    } else if i == 29 {
        59_785
    } else if i == 30 {
        58_601
    } else if i == 31 {
        57_190
    } else if i == 32 {
        55_558
    } else if i == 33 {
        53_711
    } else if i == 34 {
        51_656
    } else if i == 35 {
        49_401
    } else if i == 36 {
        46_955
    } else if i == 37 {
        44_328
    } else if i == 38 {
        41_528
    } else if i == 39 {
        38_569
    } else if i == 40 {
        35_460
    } else if i == 41 {
        32_214
    } else if i == 42 {
        28_843
    } else if i == 43 {
        25_361
    } else if i == 44 {
        21_780
    } else if i == 45 {
        18_116
    } else if i == 46 {
        14_381
    } else if i == 47 {
        10_591
    } else if i == 48 {
        6_760
    } else if i == 49 {
        2_909
    } else {
        0
    }
}

pub fn gl_node(i: usize) -> (x: i64)
    requires
        i < QUAD_NODES,
    ensures
        x == gl_node_spec(i as int),
{
    match i {
        0 => -998_866,
        1 => -994_032,
        2 => -985_354,
        3 => -972_864,
        4 => -956_611,
        5 => -936_657,
        6 => -913_079,
        7 => -885_968,
        8 => -855_430,
        9 => -821_582,
        10 => -784_556,
        11 => -744_494,
        12 => -701_552,
        13 => -655_896,
        14 => -607_703,
        15 => -557_158,
        16 => -504_458,
        17 => -449_806,
        18 => -393_414,
        19 => -335_500,
        20 => -276_288,
        21 => -216_007,
        22 => -154_891,
        23 => -93_175,
        24 => -31_098,
        25 => 31_098,
        26 => 93_175,
        27 => 154_891,
        28 => 216_007,
        29 => 276_288,
        30 => 335_500,
        31 => 393_414,
        32 => 449_806,
        33 => 504_458,
        34 => 557_158,
        35 => 607_703,
        36 => 655_896,
        37 => 701_552,
        38 => 744_494,
        39 => 784_556,
        40 => 821_582,
        41 => 855_430,
        42 => 885_968,
        43 => 913_079,
        44 => 936_657,
        45 => 956_611,
        46 => 972_864,
        47 => 985_354,
        48 => 994_032,
        49 => 998_866,
        _ => 0,
    }
}

pub fn gl_weight(i: usize) -> (w: i64)
    requires
        i < QUAD_NODES,
    ensures
        w == gl_weight_spec(i as int),
{
    match i {
        0 => 2_909,
        1 => 6_760,
        2 => 10_591,
        3 => 14_381,
        4 => 18_116,
        5 => 21_780,
        6 => 25_361,
        7 => 28_843,
        8 => 32_214,
        9 => 35_460,
        10 => 38_569,
        11 => 41_528,
        12 => 44_328,
        13 => 46_955,
        14 => 49_401,
        15 => 51_656,
        16 => 53_711,
        17 => 55_558,
        18 => 57_190,
        19 => 58_601,
        20 => 59_785,
        21 => 60_738,
        22 => 61_456,
        23 => 61_936,
        24 => 62_173,
        25 => 62_173,
        26 => 61_936,
        27 => 61_456,
        28 => 60_738,
        29 => 59_785,
        30 => 58_601,
        31 => 57_190,
        32 => 55_558,
        33 => 53_711,
        34 => 51_656,
        35 => 49_401,
        36 => 46_955,
        37 => 44_328,
        38 => 41_528,
        39 => 38_569,
        40 => 35_460,
        41 => 32_214,
        42 => 28_843,
        43 => 25_361,
        44 => 21_780,
        45 => 18_116,
        46 => 14_381,
        47 => 10_591,
        48 => 6_760,
        49 => 2_909,
        _ => 0,
    }
}

/// Every node lies strictly inside `(-SCALE, SCALE)` and every weight is
/// positive and at most `WEIGHT_MAX`.
pub proof fn lemma_gl_table_bounds(i: int)
    requires
        0 <= i < QUAD_NODES,
    ensures
        -SCALE < gl_node_spec(i) < SCALE,
        0 < gl_weight_spec(i) <= WEIGHT_MAX,
{
}

/// Sum of the entries of `terms` from index `i` to the end.
pub open spec fn sum_from(terms: Seq<int>, i: int) -> int
    decreases terms.len() - i,
    when 0 <= i <= terms.len()
{
    if i >= terms.len() {
        0
    } else {
        terms[i] + sum_from(terms, i + 1)
    }
}

/// Partial sum of the weights from index `i` to the end of the table.
pub open spec fn weight_tail(i: int) -> int
    decreases QUAD_NODES - i,
    when i <= QUAD_NODES
{
    if i >= QUAD_NODES {
        0
    } else {
        gl_weight_spec(i) + weight_tail(i + 1)
    }
}

/// The fifty weights sum to exactly `2 * SCALE`.
pub proof fn lemma_weight_total()
    ensures
        weight_tail(0) == 2 * SCALE,
{
    reveal_with_fuel(weight_tail, 51);
}

/// Parameter value of the `i`-th quadrature sample for an integration
/// interval running from `0` to `t`: the node is mapped affinely from
/// `[-1, 1]` onto the interval, rounding toward zero.
pub open spec fn quad_point(t: int, i: int) -> int {
    tdiv(t * (gl_node_spec(i) + SCALE), 2 * SCALE)
}

/// The quadrature samples never leave the integration interval: each one
/// lies between `0` and `t`, whichever way round those are ordered.
pub proof fn lemma_quad_point_range(t: int, i: int)
    requires
        0 <= i < QUAD_NODES,
    ensures
        iabs(quad_point(t, i)) <= iabs(t),
        t >= 0 ==> 0 <= quad_point(t, i),
        t <= 0 ==> quad_point(t, i) <= 0,
{
    lemma_gl_table_bounds(i);
    let g = gl_node_spec(i) + SCALE;
    assert(iabs(t * g) <= iabs(t) * (2 * SCALE)) by (nonlinear_arith)
        requires
            0 < g < 2 * SCALE,
    ;
    lemma_tdiv_mag(t * g, 2 * SCALE);
    vstd::arithmetic::div_mod::lemma_div_is_ordered(
        iabs(t * g),
        iabs(t) * (2 * SCALE),
        2 * SCALE,
    );
    vstd::arithmetic::div_mod::lemma_div_multiples_vanish(iabs(t), 2 * SCALE);
    assert(iabs(t) * (2 * SCALE) == (2 * SCALE) * iabs(t)) by (nonlinear_arith);
    assert(t >= 0 ==> t * g >= 0) by (nonlinear_arith)
        requires
            g > 0,
    ;
    assert(t <= 0 ==> t * g <= 0) by (nonlinear_arith)
        requires
            g > 0,
    ;
}

/// Executable form of `quad_point`.
pub fn quad_point_exec(t: i64, i: usize) -> (u: i64)
    requires
        i < QUAD_NODES,
        -1_000_000_000_000 <= t <= 1_000_000_000_000,
    ensures
        u == quad_point(t as int, i as int),
        iabs(u as int) <= iabs(t as int),
        t >= 0 ==> 0 <= u,
        t <= 0 ==> u <= 0,
{
    proof {
        lemma_quad_point_range(t as int, i as int);
        lemma_gl_table_bounds(i as int);
        assert(iabs(t as int * (gl_node_spec(i as int) + SCALE)) <= 2_000_000_000_000_000_000)
            by (nonlinear_arith)
            requires
                iabs(t as int) <= 1_000_000_000_000,
                0 < gl_node_spec(i as int) + SCALE < 2 * SCALE,
        ;
    }
    let g: i64 = gl_node(i) + SCALE;
    let num: i128 = (t as i128) * (g as i128);
    tdiv128(num, 2 * (SCALE as i128)) as i64
}

} // verus!
