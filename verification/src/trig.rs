//! Fixed-point angles and an integer sine approximation.
//!
//! A heading is an angle measured clockwise from "up" (the positive y
//! direction), held in thousandths of a degree in `[0, FULL_TURN_MDEG)`.
//! The unit vector it denotes is `(sin a, cos a)` on whole degrees, with
//! both components scaled by `TRIG_SCALE`. The squared norm of that vector
//! stays within 0.4% of `TRIG_SCALE * TRIG_SCALE` over the whole circle
//! (`lemma_unit_norm`), which is the sense in which headings remain unit
//! vectors.

use vstd::prelude::*;

verus! {

use vstd::arithmetic::div_mod::lemma_div_pos_is_pos;
use vstd::arithmetic::div_mod::lemma_div_is_ordered;
use vstd::arithmetic::div_mod::lemma_div_multiples_vanish;
use vstd::arithmetic::div_mod::lemma_fundamental_div_mod_converse;

/// Thousandths of a degree in a full turn.
pub const FULL_TURN_MDEG: u32 = 360_000;

/// Fixed-point scale of sine and cosine values.
pub const TRIG_SCALE: i64 = 10_000;

/// Least value of `sin^2 + cos^2` over all whole-degree angles
/// (99.63% of `TRIG_SCALE * TRIG_SCALE`).
pub const NORM_SQ_MIN: i64 = 99_630_728;

/// Greatest value of `sin^2 + cos^2` over all whole-degree angles
/// (100.02% of `TRIG_SCALE * TRIG_SCALE`).
pub const NORM_SQ_MAX: i64 = 100_013_220;

/// Sine of `d` whole degrees for `d` in `[0, 180]`, scaled by `TRIG_SCALE`:
/// the rational approximation `4 TRIG_SCALE u / (40500 - u)` with
/// `u = d (180 - d)`, exact at 0, 30, 90, 150 and 180 degrees and within
/// 0.16% of the scale on the whole half turn.
pub open spec fn sin_half(d: int) -> int {
    4 * TRIG_SCALE * (d * (180 - d)) / (40500 - d * (180 - d))
}

/// Sine of a whole-degree angle in `[0, 360)`, scaled by `TRIG_SCALE`.
pub open spec fn sin_deg(d: int) -> int {
    if d < 180 {
        sin_half(d)
    } else {
        -sin_half(d - 180)
    }
}

/// Cosine of a whole-degree angle in `[0, 360)`, scaled by `TRIG_SCALE`.
pub open spec fn cos_deg(d: int) -> int {
    sin_deg((d + 90) % 360)
}

/// On `[0, 180]` the argument product of the sine approximation stays in
/// `[0, 8100]`.
proof fn lemma_arg_product_bounds(d: int)
    requires
        0 <= d <= 180,
    ensures
        0 <= d * (180 - d) <= 8100,
{
    assert(0 <= d * (180 - d) <= 8100) by (nonlinear_arith)
        requires
            0 <= d <= 180,
    ;
}

/// The scaled sine lies in `[0, TRIG_SCALE]` on the half turn.
pub proof fn lemma_sin_half_bounds(d: int)
    requires
        0 <= d <= 180,
    ensures
        0 <= sin_half(d) <= TRIG_SCALE,
{
    lemma_arg_product_bounds(d);
    let u = d * (180 - d);
    let den = 40500 - u;
    lemma_div_pos_is_pos(4 * TRIG_SCALE * u, den);
    assert(4 * TRIG_SCALE * u <= TRIG_SCALE * den) by (nonlinear_arith)
        requires
            0 <= u <= 8100,
            den == 40500 - u,
    ;
    lemma_div_is_ordered(4 * TRIG_SCALE * u, TRIG_SCALE * den, den);
    lemma_div_multiples_vanish(TRIG_SCALE as int, den);
}

/// The sine approximation is symmetric about the quarter turn.
proof fn lemma_sin_half_mirror(d: int)
    requires
        0 <= d <= 180,
    ensures
        sin_half(d) == sin_half(180 - d),
{
    assert(d * (180 - d) == (180 - d) * (180 - (180 - d))) by (nonlinear_arith);
}

/// Squaring forgets the sign.
proof fn lemma_square_neg(x: int)
    ensures
        (-x) * (-x) == x * x,
{
    assert((-x) * (-x) == x * x) by (nonlinear_arith);
}

/// `sin_half(d)` equals `s` whenever the argument product `u`, the
/// numerator `v` and the division witness `r` are spelled out; the caller
/// supplies the concrete arithmetic.
proof fn lemma_sin_half_at(d: int, u: int, v: int, s: int, r: int)
    requires
        u == d * (180 - d),
        0 <= u <= 8100,
        v == 40000 * u,
        v == s * (40500 - u) + r,
        0 <= r < 40500 - u,
    ensures
        sin_half(d) == s,
{
    assert(4 * TRIG_SCALE * u == 40000 * u) by (nonlinear_arith)
        requires
            TRIG_SCALE == 10000,
    ;
    lemma_fundamental_div_mod_converse(v, 40500 - u, s, r);
}

/// One stretch of the degree-by-degree norm check.
#[verifier::spinoff_prover]
proof fn lemma_quadrant_norm_0(d: int)
    requires
        0 <= d <= 9,
    ensures
        NORM_SQ_MIN
            <= sin_half(d) * sin_half(d) + sin_half(90 - d) * sin_half(90 - d)
            <= NORM_SQ_MAX,
{
    if d == 0 {
        assert(d * (180 - d) == 0) by (nonlinear_arith)
            requires
                d == 0,
        ;
        assert((90 - d) * (180 - (90 - d)) == 8100) by (nonlinear_arith)
            requires
                d == 0,
        ;
        assert(40000 * 0 == 0) by (nonlinear_arith);
        assert(0 * (40500 - 0) + 0 == 0) by (nonlinear_arith);
        assert(40000 * 8100 == 324000000) by (nonlinear_arith);
        assert(10000 * (40500 - 8100) + 0 == 324000000) by (nonlinear_arith);
        lemma_sin_half_at(d, 0, 0, 0, 0);
        lemma_sin_half_at(90 - d, 8100, 324000000, 10000, 0);
        assert(99630728 <= 0 * 0 + 10000 * 10000 <= 100013220) by (nonlinear_arith);
    } else if d == 1 {
        assert(d * (180 - d) == 179) by (nonlinear_arith)
            requires
                d == 1,
        ;
        assert((90 - d) * (180 - (90 - d)) == 8099) by (nonlinear_arith)
            requires
                d == 1,
        ;
        assert(40000 * 179 == 7160000) by (nonlinear_arith);
        assert(177 * (40500 - 179) + 23183 == 7160000) by (nonlinear_arith);
        assert(40000 * 8099 == 323960000) by (nonlinear_arith);
        assert(9998 * (40500 - 8099) + 14802 == 323960000) by (nonlinear_arith);
        lemma_sin_half_at(d, 179, 7160000, 177, 23183);
        lemma_sin_half_at(90 - d, 8099, 323960000, 9998, 14802);
        assert(99630728 <= 177 * 177 + 9998 * 9998 <= 100013220) by (nonlinear_arith);
    } else if d == 2 {
        assert(d * (180 - d) == 356) by (nonlinear_arith)
            requires
                d == 2,
        ;
        assert((90 - d) * (180 - (90 - d)) == 8096) by (nonlinear_arith)
            requires
                d == 2,
        ;
        assert(40000 * 356 == 14240000) by (nonlinear_arith);
        assert(354 * (40500 - 356) + 29024 == 14240000) by (nonlinear_arith);
        assert(40000 * 8096 == 323840000) by (nonlinear_arith);
        assert(9993 * (40500 - 8096) + 26828 == 323840000) by (nonlinear_arith);
        lemma_sin_half_at(d, 356, 14240000, 354, 29024);
        lemma_sin_half_at(90 - d, 8096, 323840000, 9993, 26828);
        assert(99630728 <= 354 * 354 + 9993 * 9993 <= 100013220) by (nonlinear_arith);
    } else if d == 3 {
        assert(d * (180 - d) == 531) by (nonlinear_arith)
            requires
                d == 3,
        ;
        assert((90 - d) * (180 - (90 - d)) == 8091) by (nonlinear_arith)
            requires
                d == 3,
        ;
        assert(40000 * 531 == 21240000) by (nonlinear_arith);
        assert(531 * (40500 - 531) + 16461 == 21240000) by (nonlinear_arith);
        assert(40000 * 8091 == 323640000) by (nonlinear_arith);
        assert(9986 * (40500 - 8091) + 3726 == 323640000) by (nonlinear_arith);
        lemma_sin_half_at(d, 531, 21240000, 531, 16461);
        lemma_sin_half_at(90 - d, 8091, 323640000, 9986, 3726);
        assert(99630728 <= 531 * 531 + 9986 * 9986 <= 100013220) by (nonlinear_arith);
    } else if d == 4 {
        assert(d * (180 - d) == 704) by (nonlinear_arith)
            requires
                d == 4,
        ;
        assert((90 - d) * (180 - (90 - d)) == 8084) by (nonlinear_arith)
            requires
                d == 4,
        ;
        assert(40000 * 704 == 28160000) by (nonlinear_arith);
        assert(707 * (40500 - 704) + 24228 == 28160000) by (nonlinear_arith);
        assert(40000 * 8084 == 323360000) by (nonlinear_arith);
        assert(9975 * (40500 - 8084) + 10400 == 323360000) by (nonlinear_arith);
        lemma_sin_half_at(d, 704, 28160000, 707, 24228);
        lemma_sin_half_at(90 - d, 8084, 323360000, 9975, 10400);
        assert(99630728 <= 707 * 707 + 9975 * 9975 <= 100013220) by (nonlinear_arith);
    } else if d == 5 {
        assert(d * (180 - d) == 875) by (nonlinear_arith)
            requires
                d == 5,
        ;
        assert((90 - d) * (180 - (90 - d)) == 8075) by (nonlinear_arith)
            requires
                d == 5,
        ;
        assert(40000 * 875 == 35000000) by (nonlinear_arith);
        assert(883 * (40500 - 875) + 11125 == 35000000) by (nonlinear_arith);
        assert(40000 * 8075 == 323000000) by (nonlinear_arith);
        assert(9961 * (40500 - 8075) + 14575 == 323000000) by (nonlinear_arith);
        lemma_sin_half_at(d, 875, 35000000, 883, 11125);
        lemma_sin_half_at(90 - d, 8075, 323000000, 9961, 14575);
        assert(99630728 <= 883 * 883 + 9961 * 9961 <= 100013220) by (nonlinear_arith);
    } else if d == 6 {
        assert(d * (180 - d) == 1044) by (nonlinear_arith)
            requires
                d == 6,
        ;
        assert((90 - d) * (180 - (90 - d)) == 8064) by (nonlinear_arith)
            requires
                d == 6,
        ;
        assert(40000 * 1044 == 41760000) by (nonlinear_arith);
        assert(1058 * (40500 - 1044) + 15552 == 41760000) by (nonlinear_arith);
        assert(40000 * 8064 == 322560000) by (nonlinear_arith);
        assert(9944 * (40500 - 8064) + 16416 == 322560000) by (nonlinear_arith);
        lemma_sin_half_at(d, 1044, 41760000, 1058, 15552);
        lemma_sin_half_at(90 - d, 8064, 322560000, 9944, 16416);
        assert(99630728 <= 1058 * 1058 + 9944 * 9944 <= 100013220) by (nonlinear_arith);
    } else if d == 7 {
        assert(d * (180 - d) == 1211) by (nonlinear_arith)
            requires
                d == 7,
        ;
        assert((90 - d) * (180 - (90 - d)) == 8051) by (nonlinear_arith)
            requires
                d == 7,
        ;
        assert(40000 * 1211 == 48440000) by (nonlinear_arith);
        assert(1232 * (40500 - 1211) + 35952 == 48440000) by (nonlinear_arith);
        assert(40000 * 8051 == 322040000) by (nonlinear_arith);
        assert(9924 * (40500 - 8051) + 16124 == 322040000) by (nonlinear_arith);
        lemma_sin_half_at(d, 1211, 48440000, 1232, 35952);
        lemma_sin_half_at(90 - d, 8051, 322040000, 9924, 16124);
        assert(99630728 <= 1232 * 1232 + 9924 * 9924 <= 100013220) by (nonlinear_arith);
    } else if d == 8 {
        assert(d * (180 - d) == 1376) by (nonlinear_arith)
            requires
                d == 8,
        ;
        assert((90 - d) * (180 - (90 - d)) == 8036) by (nonlinear_arith)
            requires
                d == 8,
        ;
        assert(40000 * 1376 == 55040000) by (nonlinear_arith);
        assert(1406 * (40500 - 1376) + 31656 == 55040000) by (nonlinear_arith);
        assert(40000 * 8036 == 321440000) by (nonlinear_arith);
        assert(9901 * (40500 - 8036) + 13936 == 321440000) by (nonlinear_arith);
        lemma_sin_half_at(d, 1376, 55040000, 1406, 31656);
        lemma_sin_half_at(90 - d, 8036, 321440000, 9901, 13936);
        assert(99630728 <= 1406 * 1406 + 9901 * 9901 <= 100013220) by (nonlinear_arith);
    } else if d == 9 {
        assert(d * (180 - d) == 1539) by (nonlinear_arith)
            requires
                d == 9,
        ;
        assert((90 - d) * (180 - (90 - d)) == 8019) by (nonlinear_arith)
            requires
                d == 9,
        ;
        assert(40000 * 1539 == 61560000) by (nonlinear_arith);
        assert(1580 * (40500 - 1539) + 1620 == 61560000) by (nonlinear_arith);
        assert(40000 * 8019 == 320760000) by (nonlinear_arith);
        assert(9875 * (40500 - 8019) + 10125 == 320760000) by (nonlinear_arith);
        lemma_sin_half_at(d, 1539, 61560000, 1580, 1620);
        lemma_sin_half_at(90 - d, 8019, 320760000, 9875, 10125);
        assert(99630728 <= 1580 * 1580 + 9875 * 9875 <= 100013220) by (nonlinear_arith);
    } else {
        assert(false);
    }
}

/// One stretch of the degree-by-degree norm check.
#[verifier::spinoff_prover]
proof fn lemma_quadrant_norm_1(d: int)
    requires
        10 <= d <= 19,
    ensures
        NORM_SQ_MIN
            <= sin_half(d) * sin_half(d) + sin_half(90 - d) * sin_half(90 - d)
            <= NORM_SQ_MAX,
{
    if d == 10 {
        assert(d * (180 - d) == 1700) by (nonlinear_arith)
            requires
                d == 10,
        ;
        assert((90 - d) * (180 - (90 - d)) == 8000) by (nonlinear_arith)
            requires
                d == 10,
        ;
        assert(40000 * 1700 == 68000000) by (nonlinear_arith);
        assert(1752 * (40500 - 1700) + 22400 == 68000000) by (nonlinear_arith);
        assert(40000 * 8000 == 320000000) by (nonlinear_arith);
        assert(9846 * (40500 - 8000) + 5000 == 320000000) by (nonlinear_arith);
        lemma_sin_half_at(d, 1700, 68000000, 1752, 22400);
        lemma_sin_half_at(90 - d, 8000, 320000000, 9846, 5000);
        assert(99630728 <= 1752 * 1752 + 9846 * 9846 <= 100013220) by (nonlinear_arith);
    } else if d == 11 {
        assert(d * (180 - d) == 1859) by (nonlinear_arith)
            requires
                d == 11,
        ;
        assert((90 - d) * (180 - (90 - d)) == 7979) by (nonlinear_arith)
            requires
                d == 11,
        ;
        assert(40000 * 1859 == 74360000) by (nonlinear_arith);
        assert(1924 * (40500 - 1859) + 14716 == 74360000) by (nonlinear_arith);
        assert(40000 * 7979 == 319160000) by (nonlinear_arith);
        assert(9813 * (40500 - 7979) + 31427 == 319160000) by (nonlinear_arith);
        lemma_sin_half_at(d, 1859, 74360000, 1924, 14716);
        lemma_sin_half_at(90 - d, 7979, 319160000, 9813, 31427);
        assert(99630728 <= 1924 * 1924 + 9813 * 9813 <= 100013220) by (nonlinear_arith);
    } else if d == 12 {
        assert(d * (180 - d) == 2016) by (nonlinear_arith)
            requires
                d == 12,
        ;
        assert((90 - d) * (180 - (90 - d)) == 7956) by (nonlinear_arith)
            requires
                d == 12,
        ;
        assert(40000 * 2016 == 80640000) by (nonlinear_arith);
        assert(2095 * (40500 - 2016) + 16020 == 80640000) by (nonlinear_arith);
        assert(40000 * 7956 == 318240000) by (nonlinear_arith);
        assert(9778 * (40500 - 7956) + 24768 == 318240000) by (nonlinear_arith);
        lemma_sin_half_at(d, 2016, 80640000, 2095, 16020);
        lemma_sin_half_at(90 - d, 7956, 318240000, 9778, 24768);
        assert(99630728 <= 2095 * 2095 + 9778 * 9778 <= 100013220) by (nonlinear_arith);
    } else if d == 13 {
        assert(d * (180 - d) == 2171) by (nonlinear_arith)
            requires
                d == 13,
        ;
        assert((90 - d) * (180 - (90 - d)) == 7931) by (nonlinear_arith)
            requires
                d == 13,
        ;
        assert(40000 * 2171 == 86840000) by (nonlinear_arith);
        assert(2265 * (40500 - 2171) + 24815 == 86840000) by (nonlinear_arith);
        assert(40000 * 7931 == 317240000) by (nonlinear_arith);
        assert(9740 * (40500 - 7931) + 17940 == 317240000) by (nonlinear_arith);
        lemma_sin_half_at(d, 2171, 86840000, 2265, 24815);
        lemma_sin_half_at(90 - d, 7931, 317240000, 9740, 17940);
        assert(99630728 <= 2265 * 2265 + 9740 * 9740 <= 100013220) by (nonlinear_arith);
    } else if d == 14 {
        assert(d * (180 - d) == 2324) by (nonlinear_arith)
            requires
                d == 14,
        ;
        assert((90 - d) * (180 - (90 - d)) == 7904) by (nonlinear_arith)
            requires
                d == 14,
        ;
        assert(40000 * 2324 == 92960000) by (nonlinear_arith);
        assert(2435 * (40500 - 2324) + 1440 == 92960000) by (nonlinear_arith);
        assert(40000 * 7904 == 316160000) by (nonlinear_arith);
        assert(9699 * (40500 - 7904) + 11396 == 316160000) by (nonlinear_arith);
        lemma_sin_half_at(d, 2324, 92960000, 2435, 1440);
        lemma_sin_half_at(90 - d, 7904, 316160000, 9699, 11396);
        assert(99630728 <= 2435 * 2435 + 9699 * 9699 <= 100013220) by (nonlinear_arith);
    } else if d == 15 {
        assert(d * (180 - d) == 2475) by (nonlinear_arith)
            requires
                d == 15,
        ;
        assert((90 - d) * (180 - (90 - d)) == 7875) by (nonlinear_arith)
            requires
                d == 15,
        ;
        assert(40000 * 2475 == 99000000) by (nonlinear_arith);
        assert(2603 * (40500 - 2475) + 20925 == 99000000) by (nonlinear_arith);
        assert(40000 * 7875 == 315000000) by (nonlinear_arith);
        assert(9655 * (40500 - 7875) + 5625 == 315000000) by (nonlinear_arith);
        lemma_sin_half_at(d, 2475, 99000000, 2603, 20925);
        lemma_sin_half_at(90 - d, 7875, 315000000, 9655, 5625);
        assert(99630728 <= 2603 * 2603 + 9655 * 9655 <= 100013220) by (nonlinear_arith);
    } else if d == 16 {
        assert(d * (180 - d) == 2624) by (nonlinear_arith)
            requires
                d == 16,
        ;
        assert((90 - d) * (180 - (90 - d)) == 7844) by (nonlinear_arith)
            requires
                d == 16,
        ;
        assert(40000 * 2624 == 104960000) by (nonlinear_arith);
        assert(2771 * (40500 - 2624) + 5604 == 104960000) by (nonlinear_arith);
        assert(40000 * 7844 == 313760000) by (nonlinear_arith);
        assert(9608 * (40500 - 7844) + 1152 == 313760000) by (nonlinear_arith);
        lemma_sin_half_at(d, 2624, 104960000, 2771, 5604);
        lemma_sin_half_at(90 - d, 7844, 313760000, 9608, 1152);
        assert(99630728 <= 2771 * 2771 + 9608 * 9608 <= 100013220) by (nonlinear_arith);
    } else if d == 17 {
        assert(d * (180 - d) == 2771) by (nonlinear_arith)
            requires
                d == 17,
        ;
        assert((90 - d) * (180 - (90 - d)) == 7811) by (nonlinear_arith)
            requires
                d == 17,
        ;
        assert(40000 * 2771 == 110840000) by (nonlinear_arith);
        assert(2937 * (40500 - 2771) + 29927 == 110840000) by (nonlinear_arith);
        assert(40000 * 7811 == 312440000) by (nonlinear_arith);
        assert(9557 * (40500 - 7811) + 31227 == 312440000) by (nonlinear_arith);
        lemma_sin_half_at(d, 2771, 110840000, 2937, 29927);
        lemma_sin_half_at(90 - d, 7811, 312440000, 9557, 31227);
        assert(99630728 <= 2937 * 2937 + 9557 * 9557 <= 100013220) by (nonlinear_arith);
    } else if d == 18 {
        assert(d * (180 - d) == 2916) by (nonlinear_arith)
            requires
                d == 18,
        ;
        assert((90 - d) * (180 - (90 - d)) == 7776) by (nonlinear_arith)
            requires
                d == 18,
        ;
        assert(40000 * 2916 == 116640000) by (nonlinear_arith);
        assert(3103 * (40500 - 2916) + 16848 == 116640000) by (nonlinear_arith);
        assert(40000 * 7776 == 311040000) by (nonlinear_arith);
        assert(9504 * (40500 - 7776) + 31104 == 311040000) by (nonlinear_arith);
        lemma_sin_half_at(d, 2916, 116640000, 3103, 16848);
        lemma_sin_half_at(90 - d, 7776, 311040000, 9504, 31104);
        assert(99630728 <= 3103 * 3103 + 9504 * 9504 <= 100013220) by (nonlinear_arith);
    } else if d == 19 {
        assert(d * (180 - d) == 3059) by (nonlinear_arith)
            requires
                d == 19,
        ;
        assert((90 - d) * (180 - (90 - d)) == 7739) by (nonlinear_arith)
            requires
                d == 19,
        ;
        assert(40000 * 3059 == 122360000) by (nonlinear_arith);
        assert(3268 * (40500 - 3059) + 2812 == 122360000) by (nonlinear_arith);
        assert(40000 * 7739 == 309560000) by (nonlinear_arith);
        assert(9449 * (40500 - 7739) + 1311 == 309560000) by (nonlinear_arith);
        lemma_sin_half_at(d, 3059, 122360000, 3268, 2812);
        lemma_sin_half_at(90 - d, 7739, 309560000, 9449, 1311);
        assert(99630728 <= 3268 * 3268 + 9449 * 9449 <= 100013220) by (nonlinear_arith);
    } else {
        assert(false);
    }
}

/// One stretch of the degree-by-degree norm check.
#[verifier::spinoff_prover]
proof fn lemma_quadrant_norm_2(d: int)
    requires
        20 <= d <= 29,
    ensures
        NORM_SQ_MIN
            <= sin_half(d) * sin_half(d) + sin_half(90 - d) * sin_half(90 - d)
            <= NORM_SQ_MAX,
{
    if d == 20 {
        assert(d * (180 - d) == 3200) by (nonlinear_arith)
            requires
                d == 20,
        ;
        assert((90 - d) * (180 - (90 - d)) == 7700) by (nonlinear_arith)
            requires
                d == 20,
        ;
        assert(40000 * 3200 == 128000000) by (nonlinear_arith);
        assert(3431 * (40500 - 3200) + 23700 == 128000000) by (nonlinear_arith);
        assert(40000 * 7700 == 308000000) by (nonlinear_arith);
        assert(9390 * (40500 - 7700) + 8000 == 308000000) by (nonlinear_arith);
        lemma_sin_half_at(d, 3200, 128000000, 3431, 23700);
        lemma_sin_half_at(90 - d, 7700, 308000000, 9390, 8000);
        assert(99630728 <= 3431 * 3431 + 9390 * 9390 <= 100013220) by (nonlinear_arith);
    } else if d == 21 {
        assert(d * (180 - d) == 3339) by (nonlinear_arith)
            requires
                d == 21,
        ;
        assert((90 - d) * (180 - (90 - d)) == 7659) by (nonlinear_arith)
            requires
                d == 21,
        ;
        assert(40000 * 3339 == 133560000) by (nonlinear_arith);
        assert(3594 * (40500 - 3339) + 3366 == 133560000) by (nonlinear_arith);
        assert(40000 * 7659 == 306360000) by (nonlinear_arith);
        assert(9328 * (40500 - 7659) + 19152 == 306360000) by (nonlinear_arith);
        lemma_sin_half_at(d, 3339, 133560000, 3594, 3366);
        lemma_sin_half_at(90 - d, 7659, 306360000, 9328, 19152);
        assert(99630728 <= 3594 * 3594 + 9328 * 9328 <= 100013220) by (nonlinear_arith);
    } else if d == 22 {
        assert(d * (180 - d) == 3476) by (nonlinear_arith)
            requires
                d == 22,
        ;
        assert((90 - d) * (180 - (90 - d)) == 7616) by (nonlinear_arith)
            requires
                d == 22,
        ;
        assert(40000 * 3476 == 139040000) by (nonlinear_arith);
        assert(3755 * (40500 - 3476) + 14880 == 139040000) by (nonlinear_arith);
        assert(40000 * 7616 == 304640000) by (nonlinear_arith);
        assert(9264 * (40500 - 7616) + 2624 == 304640000) by (nonlinear_arith);
        lemma_sin_half_at(d, 3476, 139040000, 3755, 14880);
        lemma_sin_half_at(90 - d, 7616, 304640000, 9264, 2624);
        assert(99630728 <= 3755 * 3755 + 9264 * 9264 <= 100013220) by (nonlinear_arith);
    } else if d == 23 {
        assert(d * (180 - d) == 3611) by (nonlinear_arith)
            requires
                d == 23,
        ;
        assert((90 - d) * (180 - (90 - d)) == 7571) by (nonlinear_arith)
            requires
                d == 23,
        ;
        assert(40000 * 3611 == 144440000) by (nonlinear_arith);
        assert(3915 * (40500 - 3611) + 19565 == 144440000) by (nonlinear_arith);
        assert(40000 * 7571 == 302840000) by (nonlinear_arith);
        assert(9196 * (40500 - 7571) + 24916 == 302840000) by (nonlinear_arith);
        lemma_sin_half_at(d, 3611, 144440000, 3915, 19565);
        lemma_sin_half_at(90 - d, 7571, 302840000, 9196, 24916);
        assert(99630728 <= 3915 * 3915 + 9196 * 9196 <= 100013220) by (nonlinear_arith);
    } else if d == 24 {
        assert(d * (180 - d) == 3744) by (nonlinear_arith)
            requires
                d == 24,
        ;
        assert((90 - d) * (180 - (90 - d)) == 7524) by (nonlinear_arith)
            requires
                d == 24,
        ;
        assert(40000 * 3744 == 149760000) by (nonlinear_arith);
        assert(4074 * (40500 - 3744) + 16056 == 149760000) by (nonlinear_arith);
        assert(40000 * 7524 == 300960000) by (nonlinear_arith);
        assert(9126 * (40500 - 7524) + 21024 == 300960000) by (nonlinear_arith);
        lemma_sin_half_at(d, 3744, 149760000, 4074, 16056);
        lemma_sin_half_at(90 - d, 7524, 300960000, 9126, 21024);
        assert(99630728 <= 4074 * 4074 + 9126 * 9126 <= 100013220) by (nonlinear_arith);
    } else if d == 25 {
        assert(d * (180 - d) == 3875) by (nonlinear_arith)
            requires
                d == 25,
        ;
        assert((90 - d) * (180 - (90 - d)) == 7475) by (nonlinear_arith)
            requires
                d == 25,
        ;
        assert(40000 * 3875 == 155000000) by (nonlinear_arith);
        assert(4232 * (40500 - 3875) + 3000 == 155000000) by (nonlinear_arith);
        assert(40000 * 7475 == 299000000) by (nonlinear_arith);
        assert(9053 * (40500 - 7475) + 24675 == 299000000) by (nonlinear_arith);
        lemma_sin_half_at(d, 3875, 155000000, 4232, 3000);
        lemma_sin_half_at(90 - d, 7475, 299000000, 9053, 24675);
        assert(99630728 <= 4232 * 4232 + 9053 * 9053 <= 100013220) by (nonlinear_arith);
    } else if d == 26 {
        assert(d * (180 - d) == 4004) by (nonlinear_arith)
            requires
                d == 26,
        ;
        assert((90 - d) * (180 - (90 - d)) == 7424) by (nonlinear_arith)
            requires
                d == 26,
        ;
        assert(40000 * 4004 == 160160000) by (nonlinear_arith);
        assert(4388 * (40500 - 4004) + 15552 == 160160000) by (nonlinear_arith);
        assert(40000 * 7424 == 296960000) by (nonlinear_arith);
        assert(8978 * (40500 - 7424) + 3672 == 296960000) by (nonlinear_arith);
        lemma_sin_half_at(d, 4004, 160160000, 4388, 15552);
        lemma_sin_half_at(90 - d, 7424, 296960000, 8978, 3672);
        assert(99630728 <= 4388 * 4388 + 8978 * 8978 <= 100013220) by (nonlinear_arith);
    } else if d == 27 {
        assert(d * (180 - d) == 4131) by (nonlinear_arith)
            requires
                d == 27,
        ;
        assert((90 - d) * (180 - (90 - d)) == 7371) by (nonlinear_arith)
            requires
                d == 27,
        ;
        assert(40000 * 4131 == 165240000) by (nonlinear_arith);
        assert(4543 * (40500 - 4131) + 15633 == 165240000) by (nonlinear_arith);
        assert(40000 * 7371 == 294840000) by (nonlinear_arith);
        assert(8899 * (40500 - 7371) + 25029 == 294840000) by (nonlinear_arith);
        lemma_sin_half_at(d, 4131, 165240000, 4543, 15633);
        lemma_sin_half_at(90 - d, 7371, 294840000, 8899, 25029);
        assert(99630728 <= 4543 * 4543 + 8899 * 8899 <= 100013220) by (nonlinear_arith);
    } else if d == 28 {
        assert(d * (180 - d) == 4256) by (nonlinear_arith)
            requires
                d == 28,
        ;
        assert((90 - d) * (180 - (90 - d)) == 7316) by (nonlinear_arith)
            requires
                d == 28,
        ;
        assert(40000 * 4256 == 170240000) by (nonlinear_arith);
        assert(4697 * (40500 - 4256) + 1932 == 170240000) by (nonlinear_arith);
        assert(40000 * 7316 == 292640000) by (nonlinear_arith);
        assert(8818 * (40500 - 7316) + 23488 == 292640000) by (nonlinear_arith);
        lemma_sin_half_at(d, 4256, 170240000, 4697, 1932);
        lemma_sin_half_at(90 - d, 7316, 292640000, 8818, 23488);
        assert(99630728 <= 4697 * 4697 + 8818 * 8818 <= 100013220) by (nonlinear_arith);
    } else if d == 29 {
        assert(d * (180 - d) == 4379) by (nonlinear_arith)
            requires
                d == 29,
        ;
        assert((90 - d) * (180 - (90 - d)) == 7259) by (nonlinear_arith)
            requires
                d == 29,
        ;
        assert(40000 * 4379 == 175160000) by (nonlinear_arith);
        assert(4849 * (40500 - 4379) + 9271 == 175160000) by (nonlinear_arith);
        assert(40000 * 7259 == 290360000) by (nonlinear_arith);
        assert(8734 * (40500 - 7259) + 33106 == 290360000) by (nonlinear_arith);
        lemma_sin_half_at(d, 4379, 175160000, 4849, 9271);
        lemma_sin_half_at(90 - d, 7259, 290360000, 8734, 33106);
        assert(99630728 <= 4849 * 4849 + 8734 * 8734 <= 100013220) by (nonlinear_arith);
    } else {
        assert(false);
    }
}

/// One stretch of the degree-by-degree norm check.
#[verifier::spinoff_prover]
proof fn lemma_quadrant_norm_3(d: int)
    requires
        30 <= d <= 39,
    ensures
        NORM_SQ_MIN
            <= sin_half(d) * sin_half(d) + sin_half(90 - d) * sin_half(90 - d)
            <= NORM_SQ_MAX,
{
    if d == 30 {
        assert(d * (180 - d) == 4500) by (nonlinear_arith)
            requires
                d == 30,
        ;
        assert((90 - d) * (180 - (90 - d)) == 7200) by (nonlinear_arith)
            requires
                d == 30,
        ;
        assert(40000 * 4500 == 180000000) by (nonlinear_arith);
        assert(5000 * (40500 - 4500) + 0 == 180000000) by (nonlinear_arith);
        assert(40000 * 7200 == 288000000) by (nonlinear_arith);
        assert(8648 * (40500 - 7200) + 21600 == 288000000) by (nonlinear_arith);
        lemma_sin_half_at(d, 4500, 180000000, 5000, 0);
        lemma_sin_half_at(90 - d, 7200, 288000000, 8648, 21600);
        assert(99630728 <= 5000 * 5000 + 8648 * 8648 <= 100013220) by (nonlinear_arith);
    } else if d == 31 {
        assert(d * (180 - d) == 4619) by (nonlinear_arith)
            requires
                d == 31,
        ;
        assert((90 - d) * (180 - (90 - d)) == 7139) by (nonlinear_arith)
            requires
                d == 31,
        ;
        assert(40000 * 4619 == 184760000) by (nonlinear_arith);
        assert(5149 * (40500 - 4619) + 8731 == 184760000) by (nonlinear_arith);
        assert(40000 * 7139 == 285560000) by (nonlinear_arith);
        assert(8559 * (40500 - 7139) + 23201 == 285560000) by (nonlinear_arith);
        lemma_sin_half_at(d, 4619, 184760000, 5149, 8731);
        lemma_sin_half_at(90 - d, 7139, 285560000, 8559, 23201);
        assert(99630728 <= 5149 * 5149 + 8559 * 8559 <= 100013220) by (nonlinear_arith);
    } else if d == 32 {
        assert(d * (180 - d) == 4736) by (nonlinear_arith)
            requires
                d == 32,
        ;
        assert((90 - d) * (180 - (90 - d)) == 7076) by (nonlinear_arith)
            requires
                d == 32,
        ;
        assert(40000 * 4736 == 189440000) by (nonlinear_arith);
        assert(5296 * (40500 - 4736) + 33856 == 189440000) by (nonlinear_arith);
        assert(40000 * 7076 == 283040000) by (nonlinear_arith);
        assert(8468 * (40500 - 7076) + 5568 == 283040000) by (nonlinear_arith);
        lemma_sin_half_at(d, 4736, 189440000, 5296, 33856);
        lemma_sin_half_at(90 - d, 7076, 283040000, 8468, 5568);
        assert(99630728 <= 5296 * 5296 + 8468 * 8468 <= 100013220) by (nonlinear_arith);
    } else if d == 33 {
        assert(d * (180 - d) == 4851) by (nonlinear_arith)
            requires
                d == 33,
        ;
        assert((90 - d) * (180 - (90 - d)) == 7011) by (nonlinear_arith)
            requires
                d == 33,
        ;
        assert(40000 * 4851 == 194040000) by (nonlinear_arith);
        assert(5443 * (40500 - 4851) + 2493 == 194040000) by (nonlinear_arith);
        assert(40000 * 7011 == 280440000) by (nonlinear_arith);
        assert(8374 * (40500 - 7011) + 3114 == 280440000) by (nonlinear_arith);
        lemma_sin_half_at(d, 4851, 194040000, 5443, 2493);
        lemma_sin_half_at(90 - d, 7011, 280440000, 8374, 3114);
        assert(99630728 <= 5443 * 5443 + 8374 * 8374 <= 100013220) by (nonlinear_arith);
    } else if d == 34 {
        assert(d * (180 - d) == 4964) by (nonlinear_arith)
            requires
                d == 34,
        ;
        assert((90 - d) * (180 - (90 - d)) == 6944) by (nonlinear_arith)
            requires
                d == 34,
        ;
        assert(40000 * 4964 == 198560000) by (nonlinear_arith);
        assert(5587 * (40500 - 4964) + 20368 == 198560000) by (nonlinear_arith);
        assert(40000 * 6944 == 277760000) by (nonlinear_arith);
        assert(8277 * (40500 - 6944) + 16988 == 277760000) by (nonlinear_arith);
        lemma_sin_half_at(d, 4964, 198560000, 5587, 20368);
        lemma_sin_half_at(90 - d, 6944, 277760000, 8277, 16988);
        assert(99630728 <= 5587 * 5587 + 8277 * 8277 <= 100013220) by (nonlinear_arith);
    } else if d == 35 {
        assert(d * (180 - d) == 5075) by (nonlinear_arith)
            requires
                d == 35,
        ;
        assert((90 - d) * (180 - (90 - d)) == 6875) by (nonlinear_arith)
            requires
                d == 35,
        ;
        assert(40000 * 5075 == 203000000) by (nonlinear_arith);
        assert(5730 * (40500 - 5075) + 14750 == 203000000) by (nonlinear_arith);
        assert(40000 * 6875 == 275000000) by (nonlinear_arith);
        assert(8178 * (40500 - 6875) + 14750 == 275000000) by (nonlinear_arith);
        lemma_sin_half_at(d, 5075, 203000000, 5730, 14750);
        lemma_sin_half_at(90 - d, 6875, 275000000, 8178, 14750);
        assert(99630728 <= 5730 * 5730 + 8178 * 8178 <= 100013220) by (nonlinear_arith);
    } else if d == 36 {
        assert(d * (180 - d) == 5184) by (nonlinear_arith)
            requires
                d == 36,
        ;
        assert((90 - d) * (180 - (90 - d)) == 6804) by (nonlinear_arith)
            requires
                d == 36,
        ;
        assert(40000 * 5184 == 207360000) by (nonlinear_arith);
        assert(5871 * (40500 - 5184) + 19764 == 207360000) by (nonlinear_arith);
        assert(40000 * 6804 == 272160000) by (nonlinear_arith);
        assert(8076 * (40500 - 6804) + 31104 == 272160000) by (nonlinear_arith);
        lemma_sin_half_at(d, 5184, 207360000, 5871, 19764);
        lemma_sin_half_at(90 - d, 6804, 272160000, 8076, 31104);
        assert(99630728 <= 5871 * 5871 + 8076 * 8076 <= 100013220) by (nonlinear_arith);
    } else if d == 37 {
        assert(d * (180 - d) == 5291) by (nonlinear_arith)
            requires
                d == 37,
        ;
        assert((90 - d) * (180 - (90 - d)) == 6731) by (nonlinear_arith)
            requires
                d == 37,
        ;
        assert(40000 * 5291 == 211640000) by (nonlinear_arith);
        assert(6010 * (40500 - 5291) + 33910 == 211640000) by (nonlinear_arith);
        assert(40000 * 6731 == 269240000) by (nonlinear_arith);
        assert(7972 * (40500 - 6731) + 33532 == 269240000) by (nonlinear_arith);
        lemma_sin_half_at(d, 5291, 211640000, 6010, 33910);
        lemma_sin_half_at(90 - d, 6731, 269240000, 7972, 33532);
        assert(99630728 <= 6010 * 6010 + 7972 * 7972 <= 100013220) by (nonlinear_arith);
    } else if d == 38 {
        assert(d * (180 - d) == 5396) by (nonlinear_arith)
            requires
                d == 38,
        ;
        assert((90 - d) * (180 - (90 - d)) == 6656) by (nonlinear_arith)
            requires
                d == 38,
        ;
        assert(40000 * 5396 == 215840000) by (nonlinear_arith);
        assert(6148 * (40500 - 5396) + 20608 == 215840000) by (nonlinear_arith);
        assert(40000 * 6656 == 266240000) by (nonlinear_arith);
        assert(7866 * (40500 - 6656) + 23096 == 266240000) by (nonlinear_arith);
        lemma_sin_half_at(d, 5396, 215840000, 6148, 20608);
        lemma_sin_half_at(90 - d, 6656, 266240000, 7866, 23096);
        assert(99630728 <= 6148 * 6148 + 7866 * 7866 <= 100013220) by (nonlinear_arith);
    } else if d == 39 {
        assert(d * (180 - d) == 5499) by (nonlinear_arith)
            requires
                d == 39,
        ;
        assert((90 - d) * (180 - (90 - d)) == 6579) by (nonlinear_arith)
            requires
                d == 39,
        ;
        assert(40000 * 5499 == 219960000) by (nonlinear_arith);
        assert(6284 * (40500 - 5499) + 13716 == 219960000) by (nonlinear_arith);
        assert(40000 * 6579 == 263160000) by (nonlinear_arith);
        assert(7758 * (40500 - 6579) + 882 == 263160000) by (nonlinear_arith);
        lemma_sin_half_at(d, 5499, 219960000, 6284, 13716);
        lemma_sin_half_at(90 - d, 6579, 263160000, 7758, 882);
        assert(99630728 <= 6284 * 6284 + 7758 * 7758 <= 100013220) by (nonlinear_arith);
    } else {
        assert(false);
    }
}

/// One stretch of the degree-by-degree norm check.
#[verifier::spinoff_prover]
proof fn lemma_quadrant_norm_4(d: int)
    requires
        40 <= d <= 49,
    ensures
        NORM_SQ_MIN
            <= sin_half(d) * sin_half(d) + sin_half(90 - d) * sin_half(90 - d)
            <= NORM_SQ_MAX,
{
    if d == 40 {
        assert(d * (180 - d) == 5600) by (nonlinear_arith)
            requires
                d == 40,
        ;
        assert((90 - d) * (180 - (90 - d)) == 6500) by (nonlinear_arith)
            requires
                d == 40,
        ;
        assert(40000 * 5600 == 224000000) by (nonlinear_arith);
        assert(6418 * (40500 - 5600) + 11800 == 224000000) by (nonlinear_arith);
        assert(40000 * 6500 == 260000000) by (nonlinear_arith);
        assert(7647 * (40500 - 6500) + 2000 == 260000000) by (nonlinear_arith);
        lemma_sin_half_at(d, 5600, 224000000, 6418, 11800);
        lemma_sin_half_at(90 - d, 6500, 260000000, 7647, 2000);
        assert(99630728 <= 6418 * 6418 + 7647 * 7647 <= 100013220) by (nonlinear_arith);
    } else if d == 41 {
        assert(d * (180 - d) == 5699) by (nonlinear_arith)
            requires
                d == 41,
        ;
        assert((90 - d) * (180 - (90 - d)) == 6419) by (nonlinear_arith)
            requires
                d == 41,
        ;
        assert(40000 * 5699 == 227960000) by (nonlinear_arith);
        assert(6550 * (40500 - 5699) + 13450 == 227960000) by (nonlinear_arith);
        assert(40000 * 6419 == 256760000) by (nonlinear_arith);
        assert(7533 * (40500 - 6419) + 27827 == 256760000) by (nonlinear_arith);
        lemma_sin_half_at(d, 5699, 227960000, 6550, 13450);
        lemma_sin_half_at(90 - d, 6419, 256760000, 7533, 27827);
        assert(99630728 <= 6550 * 6550 + 7533 * 7533 <= 100013220) by (nonlinear_arith);
    } else if d == 42 {
        assert(d * (180 - d) == 5796) by (nonlinear_arith)
            requires
                d == 42,
        ;
        assert((90 - d) * (180 - (90 - d)) == 6336) by (nonlinear_arith)
            requires
                d == 42,
        ;
        assert(40000 * 5796 == 231840000) by (nonlinear_arith);
        assert(6680 * (40500 - 5796) + 17280 == 231840000) by (nonlinear_arith);
        assert(40000 * 6336 == 253440000) by (nonlinear_arith);
        assert(7418 * (40500 - 6336) + 11448 == 253440000) by (nonlinear_arith);
        lemma_sin_half_at(d, 5796, 231840000, 6680, 17280);
        lemma_sin_half_at(90 - d, 6336, 253440000, 7418, 11448);
        assert(99630728 <= 6680 * 6680 + 7418 * 7418 <= 100013220) by (nonlinear_arith);
    } else if d == 43 {
        assert(d * (180 - d) == 5891) by (nonlinear_arith)
            requires
                d == 43,
        ;
        assert((90 - d) * (180 - (90 - d)) == 6251) by (nonlinear_arith)
            requires
                d == 43,
        ;
        assert(40000 * 5891 == 235640000) by (nonlinear_arith);
        assert(6808 * (40500 - 5891) + 21928 == 235640000) by (nonlinear_arith);
        assert(40000 * 6251 == 250040000) by (nonlinear_arith);
        assert(7300 * (40500 - 6251) + 22300 == 250040000) by (nonlinear_arith);
        lemma_sin_half_at(d, 5891, 235640000, 6808, 21928);
        lemma_sin_half_at(90 - d, 6251, 250040000, 7300, 22300);
        assert(99630728 <= 6808 * 6808 + 7300 * 7300 <= 100013220) by (nonlinear_arith);
    } else if d == 44 {
        assert(d * (180 - d) == 5984) by (nonlinear_arith)
            requires
                d == 44,
        ;
        assert((90 - d) * (180 - (90 - d)) == 6164) by (nonlinear_arith)
            requires
                d == 44,
        ;
        assert(40000 * 5984 == 239360000) by (nonlinear_arith);
        assert(6934 * (40500 - 5984) + 26056 == 239360000) by (nonlinear_arith);
        assert(40000 * 6164 == 246560000) by (nonlinear_arith);
        assert(7180 * (40500 - 6164) + 27520 == 246560000) by (nonlinear_arith);
        lemma_sin_half_at(d, 5984, 239360000, 6934, 26056);
        lemma_sin_half_at(90 - d, 6164, 246560000, 7180, 27520);
        assert(99630728 <= 6934 * 6934 + 7180 * 7180 <= 100013220) by (nonlinear_arith);
    } else if d == 45 {
        assert(d * (180 - d) == 6075) by (nonlinear_arith)
            requires
                d == 45,
        ;
        assert((90 - d) * (180 - (90 - d)) == 6075) by (nonlinear_arith)
            requires
                d == 45,
        ;
        assert(40000 * 6075 == 243000000) by (nonlinear_arith);
        assert(7058 * (40500 - 6075) + 28350 == 243000000) by (nonlinear_arith);
        assert(40000 * 6075 == 243000000) by (nonlinear_arith);
        assert(7058 * (40500 - 6075) + 28350 == 243000000) by (nonlinear_arith);
        lemma_sin_half_at(d, 6075, 243000000, 7058, 28350);
        lemma_sin_half_at(90 - d, 6075, 243000000, 7058, 28350);
        assert(99630728 <= 7058 * 7058 + 7058 * 7058 <= 100013220) by (nonlinear_arith);
    } else if d == 46 {
        assert(d * (180 - d) == 6164) by (nonlinear_arith)
            requires
                d == 46,
        ;
        assert((90 - d) * (180 - (90 - d)) == 5984) by (nonlinear_arith)
            requires
                d == 46,
        ;
        assert(40000 * 6164 == 246560000) by (nonlinear_arith);
        assert(7180 * (40500 - 6164) + 27520 == 246560000) by (nonlinear_arith);
        assert(40000 * 5984 == 239360000) by (nonlinear_arith);
        assert(6934 * (40500 - 5984) + 26056 == 239360000) by (nonlinear_arith);
        lemma_sin_half_at(d, 6164, 246560000, 7180, 27520);
        lemma_sin_half_at(90 - d, 5984, 239360000, 6934, 26056);
        assert(99630728 <= 7180 * 7180 + 6934 * 6934 <= 100013220) by (nonlinear_arith);
    } else if d == 47 {
        assert(d * (180 - d) == 6251) by (nonlinear_arith)
            requires
                d == 47,
        ;
        assert((90 - d) * (180 - (90 - d)) == 5891) by (nonlinear_arith)
            requires
                d == 47,
        ;
        assert(40000 * 6251 == 250040000) by (nonlinear_arith);
        assert(7300 * (40500 - 6251) + 22300 == 250040000) by (nonlinear_arith);
        assert(40000 * 5891 == 235640000) by (nonlinear_arith);
        assert(6808 * (40500 - 5891) + 21928 == 235640000) by (nonlinear_arith);
        lemma_sin_half_at(d, 6251, 250040000, 7300, 22300);
        lemma_sin_half_at(90 - d, 5891, 235640000, 6808, 21928);
        assert(99630728 <= 7300 * 7300 + 6808 * 6808 <= 100013220) by (nonlinear_arith);
    } else if d == 48 {
        assert(d * (180 - d) == 6336) by (nonlinear_arith)
            requires
                d == 48,
        ;
        assert((90 - d) * (180 - (90 - d)) == 5796) by (nonlinear_arith)
            requires
                d == 48,
        ;
        assert(40000 * 6336 == 253440000) by (nonlinear_arith);
        assert(7418 * (40500 - 6336) + 11448 == 253440000) by (nonlinear_arith);
        assert(40000 * 5796 == 231840000) by (nonlinear_arith);
        assert(6680 * (40500 - 5796) + 17280 == 231840000) by (nonlinear_arith);
        lemma_sin_half_at(d, 6336, 253440000, 7418, 11448);
        lemma_sin_half_at(90 - d, 5796, 231840000, 6680, 17280);
        assert(99630728 <= 7418 * 7418 + 6680 * 6680 <= 100013220) by (nonlinear_arith);
    } else if d == 49 {
        assert(d * (180 - d) == 6419) by (nonlinear_arith)
            requires
                d == 49,
        ;
        assert((90 - d) * (180 - (90 - d)) == 5699) by (nonlinear_arith)
            requires
                d == 49,
        ;
        assert(40000 * 6419 == 256760000) by (nonlinear_arith);
        assert(7533 * (40500 - 6419) + 27827 == 256760000) by (nonlinear_arith);
        assert(40000 * 5699 == 227960000) by (nonlinear_arith);
        assert(6550 * (40500 - 5699) + 13450 == 227960000) by (nonlinear_arith);
        lemma_sin_half_at(d, 6419, 256760000, 7533, 27827);
        lemma_sin_half_at(90 - d, 5699, 227960000, 6550, 13450);
        assert(99630728 <= 7533 * 7533 + 6550 * 6550 <= 100013220) by (nonlinear_arith);
    } else {
        assert(false);
    }
}

/// One stretch of the degree-by-degree norm check.
#[verifier::spinoff_prover]
proof fn lemma_quadrant_norm_5(d: int)
    requires
        50 <= d <= 59,
    ensures
        NORM_SQ_MIN
            <= sin_half(d) * sin_half(d) + sin_half(90 - d) * sin_half(90 - d)
            <= NORM_SQ_MAX,
{
    if d == 50 {
        assert(d * (180 - d) == 6500) by (nonlinear_arith)
            requires
                d == 50,
        ;
        assert((90 - d) * (180 - (90 - d)) == 5600) by (nonlinear_arith)
            requires
                d == 50,
        ;
        assert(40000 * 6500 == 260000000) by (nonlinear_arith);
        assert(7647 * (40500 - 6500) + 2000 == 260000000) by (nonlinear_arith);
        assert(40000 * 5600 == 224000000) by (nonlinear_arith);
        assert(6418 * (40500 - 5600) + 11800 == 224000000) by (nonlinear_arith);
        lemma_sin_half_at(d, 6500, 260000000, 7647, 2000);
        lemma_sin_half_at(90 - d, 5600, 224000000, 6418, 11800);
        assert(99630728 <= 7647 * 7647 + 6418 * 6418 <= 100013220) by (nonlinear_arith);
    } else if d == 51 {
        assert(d * (180 - d) == 6579) by (nonlinear_arith)
            requires
                d == 51,
        ;
        assert((90 - d) * (180 - (90 - d)) == 5499) by (nonlinear_arith)
            requires
                d == 51,
        ;
        assert(40000 * 6579 == 263160000) by (nonlinear_arith);
        assert(7758 * (40500 - 6579) + 882 == 263160000) by (nonlinear_arith);
        assert(40000 * 5499 == 219960000) by (nonlinear_arith);
        assert(6284 * (40500 - 5499) + 13716 == 219960000) by (nonlinear_arith);
        lemma_sin_half_at(d, 6579, 263160000, 7758, 882);
        lemma_sin_half_at(90 - d, 5499, 219960000, 6284, 13716);
        assert(99630728 <= 7758 * 7758 + 6284 * 6284 <= 100013220) by (nonlinear_arith);
    } else if d == 52 {
        assert(d * (180 - d) == 6656) by (nonlinear_arith)
            requires
                d == 52,
        ;
        assert((90 - d) * (180 - (90 - d)) == 5396) by (nonlinear_arith)
            requires
                d == 52,
        ;
        assert(40000 * 6656 == 266240000) by (nonlinear_arith);
        assert(7866 * (40500 - 6656) + 23096 == 266240000) by (nonlinear_arith);
        assert(40000 * 5396 == 215840000) by (nonlinear_arith);
        assert(6148 * (40500 - 5396) + 20608 == 215840000) by (nonlinear_arith);
        lemma_sin_half_at(d, 6656, 266240000, 7866, 23096);
        lemma_sin_half_at(90 - d, 5396, 215840000, 6148, 20608);
        assert(99630728 <= 7866 * 7866 + 6148 * 6148 <= 100013220) by (nonlinear_arith);
    } else if d == 53 {
        assert(d * (180 - d) == 6731) by (nonlinear_arith)
            requires
                d == 53,
        ;
        assert((90 - d) * (180 - (90 - d)) == 5291) by (nonlinear_arith)
            requires
                d == 53,
        ;
        assert(40000 * 6731 == 269240000) by (nonlinear_arith);
        assert(7972 * (40500 - 6731) + 33532 == 269240000) by (nonlinear_arith);
        assert(40000 * 5291 == 211640000) by (nonlinear_arith);
        assert(6010 * (40500 - 5291) + 33910 == 211640000) by (nonlinear_arith);
        lemma_sin_half_at(d, 6731, 269240000, 7972, 33532);
        lemma_sin_half_at(90 - d, 5291, 211640000, 6010, 33910);
        assert(99630728 <= 7972 * 7972 + 6010 * 6010 <= 100013220) by (nonlinear_arith);
    } else if d == 54 {
        assert(d * (180 - d) == 6804) by (nonlinear_arith)
            requires
                d == 54,
        ;
        assert((90 - d) * (180 - (90 - d)) == 5184) by (nonlinear_arith)
            requires
                d == 54,
        ;
        assert(40000 * 6804 == 272160000) by (nonlinear_arith);
        assert(8076 * (40500 - 6804) + 31104 == 272160000) by (nonlinear_arith);
        assert(40000 * 5184 == 207360000) by (nonlinear_arith);
        assert(5871 * (40500 - 5184) + 19764 == 207360000) by (nonlinear_arith);
        lemma_sin_half_at(d, 6804, 272160000, 8076, 31104);
        lemma_sin_half_at(90 - d, 5184, 207360000, 5871, 19764);
        assert(99630728 <= 8076 * 8076 + 5871 * 5871 <= 100013220) by (nonlinear_arith);
    } else if d == 55 {
        assert(d * (180 - d) == 6875) by (nonlinear_arith)
            requires
                d == 55,
        ;
        assert((90 - d) * (180 - (90 - d)) == 5075) by (nonlinear_arith)
            requires
                d == 55,
        ;
        assert(40000 * 6875 == 275000000) by (nonlinear_arith);
        assert(8178 * (40500 - 6875) + 14750 == 275000000) by (nonlinear_arith);
        assert(40000 * 5075 == 203000000) by (nonlinear_arith);
        assert(5730 * (40500 - 5075) + 14750 == 203000000) by (nonlinear_arith);
        lemma_sin_half_at(d, 6875, 275000000, 8178, 14750);
        lemma_sin_half_at(90 - d, 5075, 203000000, 5730, 14750);
        assert(99630728 <= 8178 * 8178 + 5730 * 5730 <= 100013220) by (nonlinear_arith);
    } else if d == 56 {
        assert(d * (180 - d) == 6944) by (nonlinear_arith)
            requires
                d == 56,
        ;
        assert((90 - d) * (180 - (90 - d)) == 4964) by (nonlinear_arith)
            requires
                d == 56,
        ;
        assert(40000 * 6944 == 277760000) by (nonlinear_arith);
        assert(8277 * (40500 - 6944) + 16988 == 277760000) by (nonlinear_arith);
        assert(40000 * 4964 == 198560000) by (nonlinear_arith);
        assert(5587 * (40500 - 4964) + 20368 == 198560000) by (nonlinear_arith);
        lemma_sin_half_at(d, 6944, 277760000, 8277, 16988);
        lemma_sin_half_at(90 - d, 4964, 198560000, 5587, 20368);
        assert(99630728 <= 8277 * 8277 + 5587 * 5587 <= 100013220) by (nonlinear_arith);
    } else if d == 57 {
        assert(d * (180 - d) == 7011) by (nonlinear_arith)
            requires
                d == 57,
        ;
        assert((90 - d) * (180 - (90 - d)) == 4851) by (nonlinear_arith)
            requires
                d == 57,
        ;
        assert(40000 * 7011 == 280440000) by (nonlinear_arith);
        assert(8374 * (40500 - 7011) + 3114 == 280440000) by (nonlinear_arith);
        assert(40000 * 4851 == 194040000) by (nonlinear_arith);
        assert(5443 * (40500 - 4851) + 2493 == 194040000) by (nonlinear_arith);
        lemma_sin_half_at(d, 7011, 280440000, 8374, 3114);
        lemma_sin_half_at(90 - d, 4851, 194040000, 5443, 2493);
        assert(99630728 <= 8374 * 8374 + 5443 * 5443 <= 100013220) by (nonlinear_arith);
    } else if d == 58 {
        assert(d * (180 - d) == 7076) by (nonlinear_arith)
            requires
                d == 58,
        ;
        assert((90 - d) * (180 - (90 - d)) == 4736) by (nonlinear_arith)
            requires
                d == 58,
        ;
        assert(40000 * 7076 == 283040000) by (nonlinear_arith);
        assert(8468 * (40500 - 7076) + 5568 == 283040000) by (nonlinear_arith);
        assert(40000 * 4736 == 189440000) by (nonlinear_arith);
        assert(5296 * (40500 - 4736) + 33856 == 189440000) by (nonlinear_arith);
        lemma_sin_half_at(d, 7076, 283040000, 8468, 5568);
        lemma_sin_half_at(90 - d, 4736, 189440000, 5296, 33856);
        assert(99630728 <= 8468 * 8468 + 5296 * 5296 <= 100013220) by (nonlinear_arith);
    } else if d == 59 {
        assert(d * (180 - d) == 7139) by (nonlinear_arith)
            requires
                d == 59,
        ;
        assert((90 - d) * (180 - (90 - d)) == 4619) by (nonlinear_arith)
            requires
                d == 59,
        ;
        assert(40000 * 7139 == 285560000) by (nonlinear_arith);
        assert(8559 * (40500 - 7139) + 23201 == 285560000) by (nonlinear_arith);
        assert(40000 * 4619 == 184760000) by (nonlinear_arith);
        assert(5149 * (40500 - 4619) + 8731 == 184760000) by (nonlinear_arith);
        lemma_sin_half_at(d, 7139, 285560000, 8559, 23201);
        lemma_sin_half_at(90 - d, 4619, 184760000, 5149, 8731);
        assert(99630728 <= 8559 * 8559 + 5149 * 5149 <= 100013220) by (nonlinear_arith);
    } else {
        assert(false);
    }
}

/// One stretch of the degree-by-degree norm check.
#[verifier::spinoff_prover]
proof fn lemma_quadrant_norm_6(d: int)
    requires
        60 <= d <= 69,
    ensures
        NORM_SQ_MIN
            <= sin_half(d) * sin_half(d) + sin_half(90 - d) * sin_half(90 - d)
            <= NORM_SQ_MAX,
{
    if d == 60 {
        assert(d * (180 - d) == 7200) by (nonlinear_arith)
            requires
                d == 60,
        ;
        assert((90 - d) * (180 - (90 - d)) == 4500) by (nonlinear_arith)
            requires
                d == 60,
        ;
        assert(40000 * 7200 == 288000000) by (nonlinear_arith);
        assert(8648 * (40500 - 7200) + 21600 == 288000000) by (nonlinear_arith);
        assert(40000 * 4500 == 180000000) by (nonlinear_arith);
        assert(5000 * (40500 - 4500) + 0 == 180000000) by (nonlinear_arith);
        lemma_sin_half_at(d, 7200, 288000000, 8648, 21600);
        lemma_sin_half_at(90 - d, 4500, 180000000, 5000, 0);
        assert(99630728 <= 8648 * 8648 + 5000 * 5000 <= 100013220) by (nonlinear_arith);
    } else if d == 61 {
        assert(d * (180 - d) == 7259) by (nonlinear_arith)
            requires
                d == 61,
        ;
        assert((90 - d) * (180 - (90 - d)) == 4379) by (nonlinear_arith)
            requires
                d == 61,
        ;
        assert(40000 * 7259 == 290360000) by (nonlinear_arith);
        assert(8734 * (40500 - 7259) + 33106 == 290360000) by (nonlinear_arith);
        assert(40000 * 4379 == 175160000) by (nonlinear_arith);
        assert(4849 * (40500 - 4379) + 9271 == 175160000) by (nonlinear_arith);
        lemma_sin_half_at(d, 7259, 290360000, 8734, 33106);
        lemma_sin_half_at(90 - d, 4379, 175160000, 4849, 9271);
        assert(99630728 <= 8734 * 8734 + 4849 * 4849 <= 100013220) by (nonlinear_arith);
    } else if d == 62 {
        assert(d * (180 - d) == 7316) by (nonlinear_arith)
            requires
                d == 62,
        ;
        assert((90 - d) * (180 - (90 - d)) == 4256) by (nonlinear_arith)
            requires
                d == 62,
        ;
        assert(40000 * 7316 == 292640000) by (nonlinear_arith);
        assert(8818 * (40500 - 7316) + 23488 == 292640000) by (nonlinear_arith);
        assert(40000 * 4256 == 170240000) by (nonlinear_arith);
        assert(4697 * (40500 - 4256) + 1932 == 170240000) by (nonlinear_arith);
        lemma_sin_half_at(d, 7316, 292640000, 8818, 23488);
        lemma_sin_half_at(90 - d, 4256, 170240000, 4697, 1932);
        assert(99630728 <= 8818 * 8818 + 4697 * 4697 <= 100013220) by (nonlinear_arith);
    } else if d == 63 {
        assert(d * (180 - d) == 7371) by (nonlinear_arith)
            requires
                d == 63,
        ;
        assert((90 - d) * (180 - (90 - d)) == 4131) by (nonlinear_arith)
            requires
                d == 63,
        ;
        assert(40000 * 7371 == 294840000) by (nonlinear_arith);
        assert(8899 * (40500 - 7371) + 25029 == 294840000) by (nonlinear_arith);
        assert(40000 * 4131 == 165240000) by (nonlinear_arith);
        assert(4543 * (40500 - 4131) + 15633 == 165240000) by (nonlinear_arith);
        lemma_sin_half_at(d, 7371, 294840000, 8899, 25029);
        lemma_sin_half_at(90 - d, 4131, 165240000, 4543, 15633);
        assert(99630728 <= 8899 * 8899 + 4543 * 4543 <= 100013220) by (nonlinear_arith);
    } else if d == 64 {
        assert(d * (180 - d) == 7424) by (nonlinear_arith)
            requires
                d == 64,
        ;
        assert((90 - d) * (180 - (90 - d)) == 4004) by (nonlinear_arith)
            requires
                d == 64,
        ;
        assert(40000 * 7424 == 296960000) by (nonlinear_arith);
        assert(8978 * (40500 - 7424) + 3672 == 296960000) by (nonlinear_arith);
        assert(40000 * 4004 == 160160000) by (nonlinear_arith);
        assert(4388 * (40500 - 4004) + 15552 == 160160000) by (nonlinear_arith);
        lemma_sin_half_at(d, 7424, 296960000, 8978, 3672);
        lemma_sin_half_at(90 - d, 4004, 160160000, 4388, 15552);
        assert(99630728 <= 8978 * 8978 + 4388 * 4388 <= 100013220) by (nonlinear_arith);
    } else if d == 65 {
        assert(d * (180 - d) == 7475) by (nonlinear_arith)
            requires
                d == 65,
        ;
        assert((90 - d) * (180 - (90 - d)) == 3875) by (nonlinear_arith)
            requires
                d == 65,
        ;
        assert(40000 * 7475 == 299000000) by (nonlinear_arith);
        assert(9053 * (40500 - 7475) + 24675 == 299000000) by (nonlinear_arith);
        assert(40000 * 3875 == 155000000) by (nonlinear_arith);
        assert(4232 * (40500 - 3875) + 3000 == 155000000) by (nonlinear_arith);
        lemma_sin_half_at(d, 7475, 299000000, 9053, 24675);
        lemma_sin_half_at(90 - d, 3875, 155000000, 4232, 3000);
        assert(99630728 <= 9053 * 9053 + 4232 * 4232 <= 100013220) by (nonlinear_arith);
    } else if d == 66 {
        assert(d * (180 - d) == 7524) by (nonlinear_arith)
            requires
                d == 66,
        ;
        assert((90 - d) * (180 - (90 - d)) == 3744) by (nonlinear_arith)
            requires
                d == 66,
        ;
        assert(40000 * 7524 == 300960000) by (nonlinear_arith);
        assert(9126 * (40500 - 7524) + 21024 == 300960000) by (nonlinear_arith);
        assert(40000 * 3744 == 149760000) by (nonlinear_arith);
        assert(4074 * (40500 - 3744) + 16056 == 149760000) by (nonlinear_arith);
        lemma_sin_half_at(d, 7524, 300960000, 9126, 21024);
        lemma_sin_half_at(90 - d, 3744, 149760000, 4074, 16056);
        assert(99630728 <= 9126 * 9126 + 4074 * 4074 <= 100013220) by (nonlinear_arith);
    } else if d == 67 {
        assert(d * (180 - d) == 7571) by (nonlinear_arith)
            requires
                d == 67,
        ;
        assert((90 - d) * (180 - (90 - d)) == 3611) by (nonlinear_arith)
            requires
                d == 67,
        ;
        assert(40000 * 7571 == 302840000) by (nonlinear_arith);
        assert(9196 * (40500 - 7571) + 24916 == 302840000) by (nonlinear_arith);
        assert(40000 * 3611 == 144440000) by (nonlinear_arith);
        assert(3915 * (40500 - 3611) + 19565 == 144440000) by (nonlinear_arith);
        lemma_sin_half_at(d, 7571, 302840000, 9196, 24916);
        lemma_sin_half_at(90 - d, 3611, 144440000, 3915, 19565);
        assert(99630728 <= 9196 * 9196 + 3915 * 3915 <= 100013220) by (nonlinear_arith);
    } else if d == 68 {
        assert(d * (180 - d) == 7616) by (nonlinear_arith)
            requires
                d == 68,
        ;
        assert((90 - d) * (180 - (90 - d)) == 3476) by (nonlinear_arith)
            requires
                d == 68,
        ;
        assert(40000 * 7616 == 304640000) by (nonlinear_arith);
        assert(9264 * (40500 - 7616) + 2624 == 304640000) by (nonlinear_arith);
        assert(40000 * 3476 == 139040000) by (nonlinear_arith);
        assert(3755 * (40500 - 3476) + 14880 == 139040000) by (nonlinear_arith);
        lemma_sin_half_at(d, 7616, 304640000, 9264, 2624);
        lemma_sin_half_at(90 - d, 3476, 139040000, 3755, 14880);
        assert(99630728 <= 9264 * 9264 + 3755 * 3755 <= 100013220) by (nonlinear_arith);
    } else if d == 69 {
        assert(d * (180 - d) == 7659) by (nonlinear_arith)
            requires
                d == 69,
        ;
        assert((90 - d) * (180 - (90 - d)) == 3339) by (nonlinear_arith)
            requires
                d == 69,
        ;
        assert(40000 * 7659 == 306360000) by (nonlinear_arith);
        assert(9328 * (40500 - 7659) + 19152 == 306360000) by (nonlinear_arith);
        assert(40000 * 3339 == 133560000) by (nonlinear_arith);
        assert(3594 * (40500 - 3339) + 3366 == 133560000) by (nonlinear_arith);
        lemma_sin_half_at(d, 7659, 306360000, 9328, 19152);
        lemma_sin_half_at(90 - d, 3339, 133560000, 3594, 3366);
        assert(99630728 <= 9328 * 9328 + 3594 * 3594 <= 100013220) by (nonlinear_arith);
    } else {
        assert(false);
    }
}

/// One stretch of the degree-by-degree norm check.
#[verifier::spinoff_prover]
proof fn lemma_quadrant_norm_7(d: int)
    requires
        70 <= d <= 79,
    ensures
        NORM_SQ_MIN
            <= sin_half(d) * sin_half(d) + sin_half(90 - d) * sin_half(90 - d)
            <= NORM_SQ_MAX,
{
    if d == 70 {
        assert(d * (180 - d) == 7700) by (nonlinear_arith)
            requires
                d == 70,
        ;
        assert((90 - d) * (180 - (90 - d)) == 3200) by (nonlinear_arith)
            requires
                d == 70,
        ;
        assert(40000 * 7700 == 308000000) by (nonlinear_arith);
        assert(9390 * (40500 - 7700) + 8000 == 308000000) by (nonlinear_arith);
        assert(40000 * 3200 == 128000000) by (nonlinear_arith);
        assert(3431 * (40500 - 3200) + 23700 == 128000000) by (nonlinear_arith);
        lemma_sin_half_at(d, 7700, 308000000, 9390, 8000);
        lemma_sin_half_at(90 - d, 3200, 128000000, 3431, 23700);
        assert(99630728 <= 9390 * 9390 + 3431 * 3431 <= 100013220) by (nonlinear_arith);
    } else if d == 71 {
        assert(d * (180 - d) == 7739) by (nonlinear_arith)
            requires
                d == 71,
        ;
        assert((90 - d) * (180 - (90 - d)) == 3059) by (nonlinear_arith)
            requires
                d == 71,
        ;
        assert(40000 * 7739 == 309560000) by (nonlinear_arith);
        assert(9449 * (40500 - 7739) + 1311 == 309560000) by (nonlinear_arith);
        assert(40000 * 3059 == 122360000) by (nonlinear_arith);
        assert(3268 * (40500 - 3059) + 2812 == 122360000) by (nonlinear_arith);
        lemma_sin_half_at(d, 7739, 309560000, 9449, 1311);
        lemma_sin_half_at(90 - d, 3059, 122360000, 3268, 2812);
        assert(99630728 <= 9449 * 9449 + 3268 * 3268 <= 100013220) by (nonlinear_arith);
    } else if d == 72 {
        assert(d * (180 - d) == 7776) by (nonlinear_arith)
            requires
                d == 72,
        ;
        assert((90 - d) * (180 - (90 - d)) == 2916) by (nonlinear_arith)
            requires
                d == 72,
        ;
        assert(40000 * 7776 == 311040000) by (nonlinear_arith);
        assert(9504 * (40500 - 7776) + 31104 == 311040000) by (nonlinear_arith);
        assert(40000 * 2916 == 116640000) by (nonlinear_arith);
        assert(3103 * (40500 - 2916) + 16848 == 116640000) by (nonlinear_arith);
        lemma_sin_half_at(d, 7776, 311040000, 9504, 31104);
        lemma_sin_half_at(90 - d, 2916, 116640000, 3103, 16848);
        assert(99630728 <= 9504 * 9504 + 3103 * 3103 <= 100013220) by (nonlinear_arith);
    } else if d == 73 {
        assert(d * (180 - d) == 7811) by (nonlinear_arith)
            requires
                d == 73,
        ;
        assert((90 - d) * (180 - (90 - d)) == 2771) by (nonlinear_arith)
            requires
                d == 73,
        ;
        assert(40000 * 7811 == 312440000) by (nonlinear_arith);
        assert(9557 * (40500 - 7811) + 31227 == 312440000) by (nonlinear_arith);
        assert(40000 * 2771 == 110840000) by (nonlinear_arith);
        assert(2937 * (40500 - 2771) + 29927 == 110840000) by (nonlinear_arith);
        lemma_sin_half_at(d, 7811, 312440000, 9557, 31227);
        lemma_sin_half_at(90 - d, 2771, 110840000, 2937, 29927);
        assert(99630728 <= 9557 * 9557 + 2937 * 2937 <= 100013220) by (nonlinear_arith);
    } else if d == 74 {
        assert(d * (180 - d) == 7844) by (nonlinear_arith)
            requires
                d == 74,
        ;
        assert((90 - d) * (180 - (90 - d)) == 2624) by (nonlinear_arith)
            requires
                d == 74,
        ;
        assert(40000 * 7844 == 313760000) by (nonlinear_arith);
        assert(9608 * (40500 - 7844) + 1152 == 313760000) by (nonlinear_arith);
        assert(40000 * 2624 == 104960000) by (nonlinear_arith);
        assert(2771 * (40500 - 2624) + 5604 == 104960000) by (nonlinear_arith);
        lemma_sin_half_at(d, 7844, 313760000, 9608, 1152);
        lemma_sin_half_at(90 - d, 2624, 104960000, 2771, 5604);
        assert(99630728 <= 9608 * 9608 + 2771 * 2771 <= 100013220) by (nonlinear_arith);
    } else if d == 75 {
        assert(d * (180 - d) == 7875) by (nonlinear_arith)
            requires
                d == 75,
        ;
        assert((90 - d) * (180 - (90 - d)) == 2475) by (nonlinear_arith)
            requires
                d == 75,
        ;
        assert(40000 * 7875 == 315000000) by (nonlinear_arith);
        assert(9655 * (40500 - 7875) + 5625 == 315000000) by (nonlinear_arith);
        assert(40000 * 2475 == 99000000) by (nonlinear_arith);
        assert(2603 * (40500 - 2475) + 20925 == 99000000) by (nonlinear_arith);
        lemma_sin_half_at(d, 7875, 315000000, 9655, 5625);
        lemma_sin_half_at(90 - d, 2475, 99000000, 2603, 20925);
        assert(99630728 <= 9655 * 9655 + 2603 * 2603 <= 100013220) by (nonlinear_arith);
    } else if d == 76 {
        assert(d * (180 - d) == 7904) by (nonlinear_arith)
            requires
                d == 76,
        ;
        assert((90 - d) * (180 - (90 - d)) == 2324) by (nonlinear_arith)
            requires
                d == 76,
        ;
        assert(40000 * 7904 == 316160000) by (nonlinear_arith);
        assert(9699 * (40500 - 7904) + 11396 == 316160000) by (nonlinear_arith);
        assert(40000 * 2324 == 92960000) by (nonlinear_arith);
        assert(2435 * (40500 - 2324) + 1440 == 92960000) by (nonlinear_arith);
        lemma_sin_half_at(d, 7904, 316160000, 9699, 11396);
        lemma_sin_half_at(90 - d, 2324, 92960000, 2435, 1440);
        assert(99630728 <= 9699 * 9699 + 2435 * 2435 <= 100013220) by (nonlinear_arith);
    } else if d == 77 {
        assert(d * (180 - d) == 7931) by (nonlinear_arith)
            requires
                d == 77,
        ;
        assert((90 - d) * (180 - (90 - d)) == 2171) by (nonlinear_arith)
            requires
                d == 77,
        ;
        assert(40000 * 7931 == 317240000) by (nonlinear_arith);
        assert(9740 * (40500 - 7931) + 17940 == 317240000) by (nonlinear_arith);
        assert(40000 * 2171 == 86840000) by (nonlinear_arith);
        assert(2265 * (40500 - 2171) + 24815 == 86840000) by (nonlinear_arith);
        lemma_sin_half_at(d, 7931, 317240000, 9740, 17940);
        lemma_sin_half_at(90 - d, 2171, 86840000, 2265, 24815);
        assert(99630728 <= 9740 * 9740 + 2265 * 2265 <= 100013220) by (nonlinear_arith);
    } else if d == 78 {
        assert(d * (180 - d) == 7956) by (nonlinear_arith)
            requires
                d == 78,
        ;
        assert((90 - d) * (180 - (90 - d)) == 2016) by (nonlinear_arith)
            requires
                d == 78,
        ;
        assert(40000 * 7956 == 318240000) by (nonlinear_arith);
        assert(9778 * (40500 - 7956) + 24768 == 318240000) by (nonlinear_arith);
        assert(40000 * 2016 == 80640000) by (nonlinear_arith);
        assert(2095 * (40500 - 2016) + 16020 == 80640000) by (nonlinear_arith);
        lemma_sin_half_at(d, 7956, 318240000, 9778, 24768);
        lemma_sin_half_at(90 - d, 2016, 80640000, 2095, 16020);
        assert(99630728 <= 9778 * 9778 + 2095 * 2095 <= 100013220) by (nonlinear_arith);
    } else if d == 79 {
        assert(d * (180 - d) == 7979) by (nonlinear_arith)
            requires
                d == 79,
        ;
        assert((90 - d) * (180 - (90 - d)) == 1859) by (nonlinear_arith)
            requires
                d == 79,
        ;
        assert(40000 * 7979 == 319160000) by (nonlinear_arith);
        assert(9813 * (40500 - 7979) + 31427 == 319160000) by (nonlinear_arith);
        assert(40000 * 1859 == 74360000) by (nonlinear_arith);
        assert(1924 * (40500 - 1859) + 14716 == 74360000) by (nonlinear_arith);
        lemma_sin_half_at(d, 7979, 319160000, 9813, 31427);
        lemma_sin_half_at(90 - d, 1859, 74360000, 1924, 14716);
        assert(99630728 <= 9813 * 9813 + 1924 * 1924 <= 100013220) by (nonlinear_arith);
    } else {
        assert(false);
    }
}

/// One stretch of the degree-by-degree norm check.
#[verifier::spinoff_prover]
proof fn lemma_quadrant_norm_8(d: int)
    requires
        80 <= d <= 89,
    ensures
        NORM_SQ_MIN
            <= sin_half(d) * sin_half(d) + sin_half(90 - d) * sin_half(90 - d)
            <= NORM_SQ_MAX,
{
    if d == 80 {
        assert(d * (180 - d) == 8000) by (nonlinear_arith)
            requires
                d == 80,
        ;
        assert((90 - d) * (180 - (90 - d)) == 1700) by (nonlinear_arith)
            requires
                d == 80,
        ;
        assert(40000 * 8000 == 320000000) by (nonlinear_arith);
        assert(9846 * (40500 - 8000) + 5000 == 320000000) by (nonlinear_arith);
        assert(40000 * 1700 == 68000000) by (nonlinear_arith);
        assert(1752 * (40500 - 1700) + 22400 == 68000000) by (nonlinear_arith);
        lemma_sin_half_at(d, 8000, 320000000, 9846, 5000);
        lemma_sin_half_at(90 - d, 1700, 68000000, 1752, 22400);
        assert(99630728 <= 9846 * 9846 + 1752 * 1752 <= 100013220) by (nonlinear_arith);
    } else if d == 81 {
        assert(d * (180 - d) == 8019) by (nonlinear_arith)
            requires
                d == 81,
        ;
        assert((90 - d) * (180 - (90 - d)) == 1539) by (nonlinear_arith)
            requires
                d == 81,
        ;
        assert(40000 * 8019 == 320760000) by (nonlinear_arith);
        assert(9875 * (40500 - 8019) + 10125 == 320760000) by (nonlinear_arith);
        assert(40000 * 1539 == 61560000) by (nonlinear_arith);
        assert(1580 * (40500 - 1539) + 1620 == 61560000) by (nonlinear_arith);
        lemma_sin_half_at(d, 8019, 320760000, 9875, 10125);
        lemma_sin_half_at(90 - d, 1539, 61560000, 1580, 1620);
        assert(99630728 <= 9875 * 9875 + 1580 * 1580 <= 100013220) by (nonlinear_arith);
    } else if d == 82 {
        assert(d * (180 - d) == 8036) by (nonlinear_arith)
            requires
                d == 82,
        ;
        assert((90 - d) * (180 - (90 - d)) == 1376) by (nonlinear_arith)
            requires
                d == 82,
        ;
        assert(40000 * 8036 == 321440000) by (nonlinear_arith);
        assert(9901 * (40500 - 8036) + 13936 == 321440000) by (nonlinear_arith);
        assert(40000 * 1376 == 55040000) by (nonlinear_arith);
        assert(1406 * (40500 - 1376) + 31656 == 55040000) by (nonlinear_arith);
        lemma_sin_half_at(d, 8036, 321440000, 9901, 13936);
        lemma_sin_half_at(90 - d, 1376, 55040000, 1406, 31656);
        assert(99630728 <= 9901 * 9901 + 1406 * 1406 <= 100013220) by (nonlinear_arith);
    } else if d == 83 {
        assert(d * (180 - d) == 8051) by (nonlinear_arith)
            requires
                d == 83,
        ;
        assert((90 - d) * (180 - (90 - d)) == 1211) by (nonlinear_arith)
            requires
                d == 83,
        ;
        assert(40000 * 8051 == 322040000) by (nonlinear_arith);
        assert(9924 * (40500 - 8051) + 16124 == 322040000) by (nonlinear_arith);
        assert(40000 * 1211 == 48440000) by (nonlinear_arith);
        assert(1232 * (40500 - 1211) + 35952 == 48440000) by (nonlinear_arith);
        lemma_sin_half_at(d, 8051, 322040000, 9924, 16124);
        lemma_sin_half_at(90 - d, 1211, 48440000, 1232, 35952);
        assert(99630728 <= 9924 * 9924 + 1232 * 1232 <= 100013220) by (nonlinear_arith);
    } else if d == 84 {
        assert(d * (180 - d) == 8064) by (nonlinear_arith)
            requires
                d == 84,
        ;
        assert((90 - d) * (180 - (90 - d)) == 1044) by (nonlinear_arith)
            requires
                d == 84,
        ;
        assert(40000 * 8064 == 322560000) by (nonlinear_arith);
        assert(9944 * (40500 - 8064) + 16416 == 322560000) by (nonlinear_arith);
        assert(40000 * 1044 == 41760000) by (nonlinear_arith);
        assert(1058 * (40500 - 1044) + 15552 == 41760000) by (nonlinear_arith);
        lemma_sin_half_at(d, 8064, 322560000, 9944, 16416);
        lemma_sin_half_at(90 - d, 1044, 41760000, 1058, 15552);
        assert(99630728 <= 9944 * 9944 + 1058 * 1058 <= 100013220) by (nonlinear_arith);
    } else if d == 85 {
        assert(d * (180 - d) == 8075) by (nonlinear_arith)
            requires
                d == 85,
        ;
        assert((90 - d) * (180 - (90 - d)) == 875) by (nonlinear_arith)
            requires
                d == 85,
        ;
        assert(40000 * 8075 == 323000000) by (nonlinear_arith);
        assert(9961 * (40500 - 8075) + 14575 == 323000000) by (nonlinear_arith);
        assert(40000 * 875 == 35000000) by (nonlinear_arith);
        assert(883 * (40500 - 875) + 11125 == 35000000) by (nonlinear_arith);
        lemma_sin_half_at(d, 8075, 323000000, 9961, 14575);
        lemma_sin_half_at(90 - d, 875, 35000000, 883, 11125);
        assert(99630728 <= 9961 * 9961 + 883 * 883 <= 100013220) by (nonlinear_arith);
    } else if d == 86 {
        assert(d * (180 - d) == 8084) by (nonlinear_arith)
            requires
                d == 86,
        ;
        assert((90 - d) * (180 - (90 - d)) == 704) by (nonlinear_arith)
            requires
                d == 86,
        ;
        assert(40000 * 8084 == 323360000) by (nonlinear_arith);
        assert(9975 * (40500 - 8084) + 10400 == 323360000) by (nonlinear_arith);
        assert(40000 * 704 == 28160000) by (nonlinear_arith);
        assert(707 * (40500 - 704) + 24228 == 28160000) by (nonlinear_arith);
        lemma_sin_half_at(d, 8084, 323360000, 9975, 10400);
        lemma_sin_half_at(90 - d, 704, 28160000, 707, 24228);
        assert(99630728 <= 9975 * 9975 + 707 * 707 <= 100013220) by (nonlinear_arith);
    } else if d == 87 {
        assert(d * (180 - d) == 8091) by (nonlinear_arith)
            requires
                d == 87,
        ;
        assert((90 - d) * (180 - (90 - d)) == 531) by (nonlinear_arith)
            requires
                d == 87,
        ;
        assert(40000 * 8091 == 323640000) by (nonlinear_arith);
        assert(9986 * (40500 - 8091) + 3726 == 323640000) by (nonlinear_arith);
        assert(40000 * 531 == 21240000) by (nonlinear_arith);
        assert(531 * (40500 - 531) + 16461 == 21240000) by (nonlinear_arith);
        lemma_sin_half_at(d, 8091, 323640000, 9986, 3726);
        lemma_sin_half_at(90 - d, 531, 21240000, 531, 16461);
        assert(99630728 <= 9986 * 9986 + 531 * 531 <= 100013220) by (nonlinear_arith);
    } else if d == 88 {
        assert(d * (180 - d) == 8096) by (nonlinear_arith)
            requires
                d == 88,
        ;
        assert((90 - d) * (180 - (90 - d)) == 356) by (nonlinear_arith)
            requires
                d == 88,
        ;
        assert(40000 * 8096 == 323840000) by (nonlinear_arith);
        assert(9993 * (40500 - 8096) + 26828 == 323840000) by (nonlinear_arith);
        assert(40000 * 356 == 14240000) by (nonlinear_arith);
        assert(354 * (40500 - 356) + 29024 == 14240000) by (nonlinear_arith);
        lemma_sin_half_at(d, 8096, 323840000, 9993, 26828);
        lemma_sin_half_at(90 - d, 356, 14240000, 354, 29024);
        assert(99630728 <= 9993 * 9993 + 354 * 354 <= 100013220) by (nonlinear_arith);
    } else if d == 89 {
        assert(d * (180 - d) == 8099) by (nonlinear_arith)
            requires
                d == 89,
        ;
        assert((90 - d) * (180 - (90 - d)) == 179) by (nonlinear_arith)
            requires
                d == 89,
        ;
        assert(40000 * 8099 == 323960000) by (nonlinear_arith);
        assert(9998 * (40500 - 8099) + 14802 == 323960000) by (nonlinear_arith);
        assert(40000 * 179 == 7160000) by (nonlinear_arith);
        assert(177 * (40500 - 179) + 23183 == 7160000) by (nonlinear_arith);
        lemma_sin_half_at(d, 8099, 323960000, 9998, 14802);
        lemma_sin_half_at(90 - d, 179, 7160000, 177, 23183);
        assert(99630728 <= 9998 * 9998 + 177 * 177 <= 100013220) by (nonlinear_arith);
    } else {
        assert(false);
    }
}

/// One stretch of the degree-by-degree norm check.
#[verifier::spinoff_prover]
proof fn lemma_quadrant_norm_9(d: int)
    requires
        90 <= d <= 90,
    ensures
        NORM_SQ_MIN
            <= sin_half(d) * sin_half(d) + sin_half(90 - d) * sin_half(90 - d)
            <= NORM_SQ_MAX,
{
    if d == 90 {
        assert(d * (180 - d) == 8100) by (nonlinear_arith)
            requires
                d == 90,
        ;
        assert((90 - d) * (180 - (90 - d)) == 0) by (nonlinear_arith)
            requires
                d == 90,
        ;
        assert(40000 * 8100 == 324000000) by (nonlinear_arith);
        assert(10000 * (40500 - 8100) + 0 == 324000000) by (nonlinear_arith);
        assert(40000 * 0 == 0) by (nonlinear_arith);
        assert(0 * (40500 - 0) + 0 == 0) by (nonlinear_arith);
        lemma_sin_half_at(d, 8100, 324000000, 10000, 0);
        lemma_sin_half_at(90 - d, 0, 0, 0, 0);
        assert(99630728 <= 10000 * 10000 + 0 * 0 <= 100013220) by (nonlinear_arith);
    } else {
        assert(false);
    }
}

/// Over the first quarter turn, the squared norm of the pair
/// `(sin_half(d), sin_half(90 - d))` stays within the stated bounds;
/// checked degree by degree.
proof fn lemma_quadrant_norm(d: int)
    requires
        0 <= d <= 90,
    ensures
        NORM_SQ_MIN
            <= sin_half(d) * sin_half(d) + sin_half(90 - d) * sin_half(90 - d)
            <= NORM_SQ_MAX,
{
    if d <= 9 {
        lemma_quadrant_norm_0(d);
    } else if d <= 19 {
        lemma_quadrant_norm_1(d);
    } else if d <= 29 {
        lemma_quadrant_norm_2(d);
    } else if d <= 39 {
        lemma_quadrant_norm_3(d);
    } else if d <= 49 {
        lemma_quadrant_norm_4(d);
    } else if d <= 59 {
        lemma_quadrant_norm_5(d);
    } else if d <= 69 {
        lemma_quadrant_norm_6(d);
    } else if d <= 79 {
        lemma_quadrant_norm_7(d);
    } else if d <= 89 {
        lemma_quadrant_norm_8(d);
    } else {
        lemma_quadrant_norm_9(d);
    }
}

/// Law: the heading vector of any whole-degree angle is unit length within
/// tolerance: its squared norm lies within 0.4% of
/// `TRIG_SCALE * TRIG_SCALE`, whatever steering brought the angle about.
pub proof fn lemma_unit_norm(a: int)
    requires
        0 <= a < 360,
    ensures
        NORM_SQ_MIN <= sin_deg(a) * sin_deg(a) + cos_deg(a) * cos_deg(a) <= NORM_SQ_MAX,
{
    if a <= 89 {
        assert((a + 90) % 360 == a + 90);
        lemma_sin_half_mirror(a + 90);
        lemma_quadrant_norm(a);
    } else if a <= 179 {
        assert((a + 90) % 360 == a + 90);
        lemma_sin_half_mirror(a);
        lemma_square_neg(sin_half(a - 90));
        lemma_quadrant_norm(180 - a);
    } else if a <= 269 {
        assert((a + 90) % 360 == a + 90);
        lemma_sin_half_mirror(a - 90);
        lemma_square_neg(sin_half(a - 180));
        lemma_square_neg(sin_half(270 - a));
        lemma_quadrant_norm(a - 180);
    } else {
        assert((a + 90) % 360 == a - 270);
        lemma_sin_half_mirror(a - 180);
        lemma_square_neg(sin_half(360 - a));
        lemma_quadrant_norm(360 - a);
    }
}

/// Scaled sine of `d` whole degrees on the first half turn.
fn sin_half_exec(d: u32) -> (r: i64)
    requires
        d <= 180,
    ensures
        r == sin_half(d as int),
        0 <= r <= TRIG_SCALE,
{
    proof {
        lemma_arg_product_bounds(d as int);
        lemma_sin_half_bounds(d as int);
    }
    let u: u64 = (d as u64) * (180 - d as u64);
    let r: u64 = (40_000 * u) / (40_500 - u);
    r as i64
}

/// Scaled sine of a whole-degree angle.
pub fn sine_scaled(d: u32) -> (r: i64)
    requires
        d < 360,
    ensures
        r == sin_deg(d as int),
        -TRIG_SCALE <= r <= TRIG_SCALE,
{
    if d < 180 {
        sin_half_exec(d)
    } else {
        let s = sin_half_exec(d - 180);
        -s
    }
}

/// Scaled cosine of a whole-degree angle.
pub fn cosine_scaled(d: u32) -> (r: i64)
    requires
        d < 360,
    ensures
        r == cos_deg(d as int),
        -TRIG_SCALE <= r <= TRIG_SCALE,
{
    let e: u32 = if d < 270 {
        d + 90
    } else {
        d - 270
    };
    sine_scaled(e)
}

} // verus!
