//! The agent motion model: heading rotation and clamped integration.
//!
//! A heading is an angle in thousandths of a degree, measured clockwise
//! from "up"; a positive steering rate turns clockwise. Each tick the
//! heading is rotated by `rate * dt`, the position advances by
//! `heading vector * speed * dt` and is then clamped to the world
//! rectangle inset by the sprite margin.

use vstd::prelude::*;

verus! {

use vstd::math::abs;
use crate::trig::FULL_TURN_MDEG;
use crate::trig::TRIG_SCALE;
use crate::trig::NORM_SQ_MIN;
use crate::trig::NORM_SQ_MAX;
use crate::trig::sin_deg;
use crate::trig::cos_deg;
use crate::trig::sine_scaled;
use crate::trig::cosine_scaled;
use crate::trig::lemma_unit_norm;

/// Longest simulation step accepted by the motion model, in milliseconds.
pub const MAX_TICK_MS: u64 = 1000;

/// Largest steering-rate magnitude, in thousandths of a degree per second.
pub const MAX_TURN_RATE_MDEG: i64 = 200_000;

/// The player's fixed steering-rate magnitude (1.2 radians per second).
pub const PLAYER_TURN_RATE_MDEG: i64 = 68_755;

/// Player linear speed in whole units per second.
pub const PLAYER_SPEED: i64 = 70;

/// Autonomous-agent linear speed in whole units per second.
pub const ANIMAL_SPEED: i64 = 50;

/// Largest linear speed accepted by the motion model.
pub const MAX_SPEED: i64 = 100;

/// How far from the world center a clamped x coordinate may lie, in
/// thousandths of a unit (half width minus the sprite margin).
pub const POS_X_LIMIT: i64 = 384_000;

/// How far from the world center a clamped y coordinate may lie, in
/// thousandths of a unit (half height minus the sprite margin).
pub const POS_Y_LIMIT: i64 = 284_000;

/// Largest displacement one tick can produce along one axis, in
/// thousandths of a unit.
pub const MAX_STEP_MILLI: i64 = 100_000;

/// A position in the world plane, in thousandths of a unit, measured from
/// the world center.
#[derive(Clone, Copy, Debug, PartialEq, Eq, Structural)]
pub struct Pos {
    pub x: i64,
    pub y: i64,
}

/// A position lies within the clamped playable rectangle.
pub open spec fn pos_in_bounds(p: Pos) -> bool {
    &&& -POS_X_LIMIT <= p.x <= POS_X_LIMIT
    &&& -POS_Y_LIMIT <= p.y <= POS_Y_LIMIT
}

/// The heading angle after steering at `rate_mdeg` (thousandths of a
/// degree per second, positive clockwise) for `dt_ms` milliseconds.
pub open spec fn rotated_heading(h: u32, rate_mdeg: i64, dt_ms: u64) -> int {
    let mag = (abs(rate_mdeg as int) * dt_ms) / 1000 % (FULL_TURN_MDEG as int);
    if rate_mdeg >= 0 {
        (h + mag) % (FULL_TURN_MDEG as int)
    } else {
        (h + FULL_TURN_MDEG - mag) % (FULL_TURN_MDEG as int)
    }
}

/// Rotates a heading; the result is again a well-formed angle.
pub fn rotate_heading(h: u32, rate_mdeg: i64, dt_ms: u64) -> (r: u32)
    requires
        h < FULL_TURN_MDEG,
        -MAX_TURN_RATE_MDEG <= rate_mdeg <= MAX_TURN_RATE_MDEG,
        dt_ms <= MAX_TICK_MS,
    ensures
        r == rotated_heading(h, rate_mdeg, dt_ms),
        r < FULL_TURN_MDEG,
{
    let mag_rate: u64 = if rate_mdeg >= 0 {
        rate_mdeg as u64
    } else {
        (-rate_mdeg) as u64
    };
    proof {
        assert(mag_rate * dt_ms <= 200_000 * 1000) by (nonlinear_arith)
            requires
                mag_rate <= 200_000,
                dt_ms <= 1000,
        ;
    }
    let mag: u64 = (mag_rate * dt_ms) / 1000 % 360_000;
    let turned: u64 = if rate_mdeg >= 0 {
        (h as u64 + mag) % 360_000
    } else {
        (h as u64 + 360_000 - mag) % 360_000
    };
    turned as u32
}

/// One axis of the displacement `speed * s * dt`, where `s` is a scaled
/// sine or cosine: fixed-point, rounded toward zero.
pub open spec fn scaled_disp(speed: int, s: int, dt_ms: int) -> int {
    if s >= 0 {
        speed * s * dt_ms / (TRIG_SCALE as int)
    } else {
        -(speed * (-s) * dt_ms / (TRIG_SCALE as int))
    }
}

/// Computes one displacement axis.
fn disp_component(speed: i64, s: i64, dt_ms: u64) -> (d: i64)
    requires
        0 < speed <= MAX_SPEED,
        -TRIG_SCALE <= s <= TRIG_SCALE,
        dt_ms <= MAX_TICK_MS,
    ensures
        d == scaled_disp(speed as int, s as int, dt_ms as int),
        -MAX_STEP_MILLI <= d <= MAX_STEP_MILLI,
{
    let mag_s: u64 = if s >= 0 {
        s as u64
    } else {
        (-s) as u64
    };
    let sp: u64 = speed as u64;
    proof {
        assert(sp * mag_s <= 100 * 10_000) by (nonlinear_arith)
            requires
                sp <= 100,
                mag_s <= 10_000,
        ;
        assert(sp * mag_s * dt_ms <= 100 * 10_000 * 1000) by (nonlinear_arith)
            requires
                sp * mag_s <= 100 * 10_000,
                dt_ms <= 1000,
        ;
    }
    let v: u64 = sp * mag_s * dt_ms / 10_000;
    if s >= 0 {
        v as i64
    } else {
        -(v as i64)
    }
}

/// Mathematical clamp.
pub open spec fn clamped(v: int, lo: int, hi: int) -> int {
    if v < lo {
        lo
    } else if v > hi {
        hi
    } else {
        v
    }
}

/// Clamps a value into `[lo, hi]`.
pub fn clamp_i64(v: i64, lo: i64, hi: i64) -> (r: i64)
    requires
        lo <= hi,
    ensures
        r == clamped(v as int, lo as int, hi as int),
{
    if v < lo {
        lo
    } else if v > hi {
        hi
    } else {
        v
    }
}

/// The position after one tick of travel along heading `h` at `speed`,
/// clamped to the playable rectangle.
pub open spec fn moved_pos(p: Pos, h: u32, speed: int, dt_ms: int) -> Pos {
    let dx = scaled_disp(speed, sin_deg(h as int / 1000), dt_ms);
    let dy = scaled_disp(speed, cos_deg(h as int / 1000), dt_ms);
    Pos {
        x: clamped(p.x + dx, -POS_X_LIMIT as int, POS_X_LIMIT as int) as i64,
        y: clamped(p.y + dy, -POS_Y_LIMIT as int, POS_Y_LIMIT as int) as i64,
    }
}

/// Advances a position one tick and clamps it; the result is always in
/// bounds, whatever the heading.
pub fn step_position(p: Pos, h: u32, speed: i64, dt_ms: u64) -> (r: Pos)
    requires
        pos_in_bounds(p),
        h < FULL_TURN_MDEG,
        0 < speed <= MAX_SPEED,
        dt_ms <= MAX_TICK_MS,
    ensures
        r == moved_pos(p, h, speed as int, dt_ms as int),
        pos_in_bounds(r),
{
    let deg: u32 = h / 1000;
    let s = sine_scaled(deg);
    let c = cosine_scaled(deg);
    let dx = disp_component(speed, s, dt_ms);
    let dy = disp_component(speed, c, dt_ms);
    let x = clamp_i64(p.x + dx, -POS_X_LIMIT, POS_X_LIMIT);
    let y = clamp_i64(p.y + dy, -POS_Y_LIMIT, POS_Y_LIMIT);
    Pos { x, y }
}

/// The heading vector of angle `h`, both components scaled by
/// `TRIG_SCALE`.
pub fn heading_vector(h: u32) -> (v: (i64, i64))
    requires
        h < FULL_TURN_MDEG,
    ensures
        v.0 == sin_deg(h as int / 1000),
        v.1 == cos_deg(h as int / 1000),
{
    let deg: u32 = h / 1000;
    (sine_scaled(deg), cosine_scaled(deg))
}

/// Law: every well-formed heading denotes a unit vector within tolerance:
/// the squared norm of its heading vector lies within 0.4% of
/// `TRIG_SCALE * TRIG_SCALE`, however the heading was steered.
pub proof fn lemma_heading_vec_norm(h: u32)
    requires
        h < FULL_TURN_MDEG,
    ensures
        NORM_SQ_MIN
            <= sin_deg(h as int / 1000) * sin_deg(h as int / 1000) + cos_deg(h as int / 1000) * cos_deg(h as int / 1000)
            <= NORM_SQ_MAX,
{
    lemma_unit_norm(h as int / 1000);
}

/// The heading after a whole sequence of steering ticks, each a rate and
/// a step length, applied in order.
pub open spec fn heading_after(h: u32, steering: Seq<(i64, u64)>) -> int
    decreases steering.len(),
{
    if steering.len() == 0 {
        h as int
    } else {
        let prev = heading_after(h, steering.drop_last());
        rotated_heading(prev as u32, steering.last().0, steering.last().1)
    }
}

/// Law: after any number of ticks, whatever the steering sequence, the
/// heading is still a well-formed angle and so still denotes a unit
/// vector within tolerance.
pub proof fn lemma_heading_unit_after_any_ticks(h: u32, steering: Seq<(i64, u64)>)
    requires
        h < FULL_TURN_MDEG,
    ensures
        0 <= heading_after(h, steering) < FULL_TURN_MDEG,
        ({
            let d = heading_after(h, steering) / 1000;
            NORM_SQ_MIN <= sin_deg(d) * sin_deg(d) + cos_deg(d) * cos_deg(d) <= NORM_SQ_MAX
        }),
    decreases steering.len(),
{
    if steering.len() > 0 {
        lemma_heading_unit_after_any_ticks(h, steering.drop_last());
    }
    lemma_unit_norm(heading_after(h, steering) / 1000);
}

} // verus!
