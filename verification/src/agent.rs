//! Agents: the player and the autonomous wanderers.
//!
//! An agent carries a position, a heading, an optional steering rate and a
//! lifecycle state. Active agents move each tick; a fall event puts an
//! agent into a timed sink, during which its render scale shrinks to zero
//! and it takes no further part in motion or grid stress; a fully sunk
//! autonomous agent is removed outright, while the player stays at the end
//! of its sink awaiting an external restart.

use vstd::prelude::*;

verus! {

use crate::motion::Pos;
use crate::motion::pos_in_bounds;
use crate::motion::rotated_heading;
use crate::motion::rotate_heading;
use crate::motion::moved_pos;
use crate::motion::step_position;
use crate::motion::MAX_TICK_MS;
use crate::motion::MAX_TURN_RATE_MDEG;
use crate::motion::PLAYER_SPEED;
use crate::motion::ANIMAL_SPEED;
use crate::trig::FULL_TURN_MDEG;

/// How long a sinking agent takes to disappear, in milliseconds.
pub const SINK_DURATION_MS: u64 = 3000;

/// Longest sink duration the model accepts, in milliseconds.
pub const MAX_SINK_DURATION_MS: u64 = 1_000_000_000;

/// Render scale of a fully visible agent, in thousandths.
pub const FULL_SCALE_MILLI: u64 = 1000;

/// Steering draws below this toggle an autonomous agent's turning state
/// (0.5% of the 32-bit draw space).
pub const TURN_TOGGLE_DRAW: u32 = 21_474_836;

/// Steering draws below this half of the toggle range start a clockwise
/// turn; the rest of the toggle range starts a counterclockwise turn.
pub const TURN_TOGGLE_HALF_DRAW: u32 = 10_737_418;

/// Scales a toggle draw into a turn rate: the draw as a fraction of the
/// 32-bit space, times 400 radians per second, in thousandths of a degree
/// per second (22_918_400 is 400 times 57_296, one radian in thousandths
/// of a degree).
pub const TURN_RATE_DRAW_FACTOR: u64 = 22_918_400;

/// Which kind of agent this is.
#[derive(Clone, Copy, Debug, PartialEq, Eq, Structural)]
pub enum AgentKind {
    Player,
    Animal,
}

/// Lifecycle of an agent.
#[derive(Clone, Copy, Debug, PartialEq, Eq, Structural)]
pub enum Activity {
    /// Moving and stressing the ice.
    Active,
    /// Fell through; shrinking for `duration_ms`, excluded from motion and
    /// grid stress.
    Sinking { elapsed_ms: u64, duration_ms: u64 },
    /// Out of play.
    Removed,
}

/// One agent.
#[derive(Clone, Copy, Debug)]
pub struct Agent {
    pub kind: AgentKind,
    pub pos: Pos,
    pub heading_mdeg: u32,
    pub steering_mdeg: Option<i64>,
    pub activity: Activity,
}

/// Linear speed of an agent kind, in whole units per second.
pub open spec fn agent_speed(k: AgentKind) -> int {
    match k {
        AgentKind::Player => PLAYER_SPEED as int,
        AgentKind::Animal => ANIMAL_SPEED as int,
    }
}

/// A well-formed agent: heading in range, position clamped, steering rate
/// bounded, sink progress within a bounded duration.
pub open spec fn agent_wf(a: Agent) -> bool {
    &&& a.heading_mdeg < FULL_TURN_MDEG
    &&& pos_in_bounds(a.pos)
    &&& (a.steering_mdeg matches Some(r) ==> -MAX_TURN_RATE_MDEG <= r <= MAX_TURN_RATE_MDEG)
    &&& (a.activity matches Activity::Sinking { elapsed_ms, duration_ms } ==> {
        &&& 0 < duration_ms <= MAX_SINK_DURATION_MS
        &&& elapsed_ms <= duration_ms
    })
}

/// Whether the agent takes part in motion and stresses the grid.
pub open spec fn is_active(a: Agent) -> bool {
    a.activity is Active
}

/// The turn rate a toggle draw starts, in thousandths of a degree per
/// second.
pub open spec fn animal_rate(draw: u32) -> int {
    draw * TURN_RATE_DRAW_FACTOR / 0x1_0000_0000
}

/// The steering state of an autonomous agent after one tick's draw: while
/// turning, a draw below the toggle goes back to straight; while straight,
/// a draw below the toggle starts a turn whose sign and rate come from the
/// draw itself.
pub open spec fn next_steering(cur: Option<i64>, draw: u32) -> Option<i64> {
    match cur {
        Some(_) => if draw < TURN_TOGGLE_DRAW {
            None
        } else {
            cur
        },
        None => if draw < TURN_TOGGLE_HALF_DRAW {
            Some(animal_rate(draw) as i64)
        } else if draw < TURN_TOGGLE_DRAW {
            Some((-animal_rate(draw)) as i64)
        } else {
            None
        },
    }
}

/// A toggle draw always yields a bounded rate.
pub proof fn lemma_animal_rate_bounded(draw: u32)
    ensures
        0 <= animal_rate(draw),
        draw < TURN_TOGGLE_DRAW ==> animal_rate(draw) < MAX_TURN_RATE_MDEG,
{
    vstd::arithmetic::div_mod::lemma_div_pos_is_pos(
        draw * TURN_RATE_DRAW_FACTOR,
        0x1_0000_0000,
    );
    if draw < TURN_TOGGLE_DRAW {
        assert(draw * TURN_RATE_DRAW_FACTOR <= 21_474_835 * TURN_RATE_DRAW_FACTOR)
            by (nonlinear_arith)
            requires
                draw <= 21_474_835,
                TURN_RATE_DRAW_FACTOR > 0,
        ;
        assert(21_474_835 * TURN_RATE_DRAW_FACTOR
            <= 114_591 * 0x1_0000_0000 + 0xFFFF_FFFF) by (nonlinear_arith)
            requires
                TURN_RATE_DRAW_FACTOR == 22_918_400,
        ;
        vstd::arithmetic::div_mod::lemma_div_is_ordered(
            draw * TURN_RATE_DRAW_FACTOR,
            114_591int * 0x1_0000_0000 + 0xFFFF_FFFF,
            0x1_0000_0000int,
        );
        assert((114_591int * 0x1_0000_0000 + 0xFFFF_FFFF) / 0x1_0000_0000 == 114_591) by {
            vstd::arithmetic::div_mod::lemma_fundamental_div_mod_converse(
                114_591int * 0x1_0000_0000 + 0xFFFF_FFFF,
                0x1_0000_0000int,
                114_591int,
                0xFFFF_FFFFint,
            );
        }
    }
}

/// Advances an autonomous agent's steering by one draw.
pub fn animal_steering(cur: Option<i64>, draw: u32) -> (r: Option<i64>)
    requires
        cur matches Some(v) ==> -MAX_TURN_RATE_MDEG <= v <= MAX_TURN_RATE_MDEG,
    ensures
        r == next_steering(cur, draw),
        r matches Some(v) ==> -MAX_TURN_RATE_MDEG <= v <= MAX_TURN_RATE_MDEG,
{
    proof {
        lemma_animal_rate_bounded(draw);
    }
    match cur {
        Some(_) => if draw < TURN_TOGGLE_DRAW {
            None
        } else {
            cur
        },
        None => if draw < TURN_TOGGLE_HALF_DRAW {
            let rate = ((draw as u64) * TURN_RATE_DRAW_FACTOR / 0x1_0000_0000) as i64;
            Some(rate)
        } else if draw < TURN_TOGGLE_DRAW {
            let rate = ((draw as u64) * TURN_RATE_DRAW_FACTOR / 0x1_0000_0000) as i64;
            Some(-rate)
        } else {
            None
        },
    }
}

/// The steering an agent follows this tick: the player takes the supplied
/// command, an autonomous agent keeps its stored state.
pub open spec fn steering_followed(a: Agent, cmd: Option<i64>) -> Option<i64> {
    match a.kind {
        AgentKind::Player => cmd,
        AgentKind::Animal => a.steering_mdeg,
    }
}

/// Sink progress after `dt_ms`, capped at the duration.
pub open spec fn sink_advanced(elapsed_ms: u64, duration_ms: u64, dt_ms: u64) -> u64 {
    if elapsed_ms + dt_ms >= duration_ms {
        duration_ms
    } else {
        (elapsed_ms + dt_ms) as u64
    }
}

/// One motion-model tick of a single agent: an active agent turns by its
/// steering, advances along its new heading and is clamped, and an
/// autonomous one then toggles its steering by the draw; a sinking agent
/// only advances its sink timer, becoming removed (if autonomous) or
/// staying fully sunk (the player) once the duration has elapsed; a
/// removed agent is inert.
pub open spec fn agent_ticked(a: Agent, cmd: Option<i64>, draw: u32, dt_ms: u64) -> Agent {
    match a.activity {
        Activity::Active => {
            let steer = steering_followed(a, cmd);
            let h = match steer {
                Some(rate) => rotated_heading(a.heading_mdeg, rate, dt_ms) as u32,
                None => a.heading_mdeg,
            };
            let p = moved_pos(a.pos, h, agent_speed(a.kind), dt_ms as int);
            let st = match a.kind {
                AgentKind::Player => cmd,
                AgentKind::Animal => next_steering(a.steering_mdeg, draw),
            };
            Agent { pos: p, heading_mdeg: h, steering_mdeg: st, ..a }
        },
        Activity::Sinking { elapsed_ms, duration_ms } => {
            let e = sink_advanced(elapsed_ms, duration_ms, dt_ms);
            if e >= duration_ms && a.kind is Animal {
                Agent { activity: Activity::Removed, ..a }
            } else {
                Agent { activity: Activity::Sinking { elapsed_ms: e, duration_ms }, ..a }
            }
        },
        Activity::Removed => a,
    }
}

/// Runs one motion-model tick on one agent.
pub fn tick_agent(a: Agent, cmd: Option<i64>, draw: u32, dt_ms: u64) -> (r: Agent)
    requires
        agent_wf(a),
        dt_ms <= MAX_TICK_MS,
        cmd matches Some(v) ==> -MAX_TURN_RATE_MDEG <= v <= MAX_TURN_RATE_MDEG,
    ensures
        r == agent_ticked(a, cmd, draw, dt_ms),
        agent_wf(r),
        r.kind == a.kind,
{
    match a.activity {
        Activity::Active => {
            let steer = match a.kind {
                AgentKind::Player => cmd,
                AgentKind::Animal => a.steering_mdeg,
            };
            let h = match steer {
                Some(rate) => rotate_heading(a.heading_mdeg, rate, dt_ms),
                None => a.heading_mdeg,
            };
            let speed = match a.kind {
                AgentKind::Player => PLAYER_SPEED,
                AgentKind::Animal => ANIMAL_SPEED,
            };
            let p = step_position(a.pos, h, speed, dt_ms);
            let st = match a.kind {
                AgentKind::Player => cmd,
                AgentKind::Animal => animal_steering(a.steering_mdeg, draw),
            };
            Agent { pos: p, heading_mdeg: h, steering_mdeg: st, ..a }
        },
        Activity::Sinking { elapsed_ms, duration_ms } => {
            let e = if dt_ms >= duration_ms - elapsed_ms {
                duration_ms
            } else {
                elapsed_ms + dt_ms
            };
            match a.kind {
                AgentKind::Animal => if e >= duration_ms {
                    Agent { activity: Activity::Removed, ..a }
                } else {
                    Agent { activity: Activity::Sinking { elapsed_ms: e, duration_ms }, ..a }
                },
                AgentKind::Player => Agent {
                    activity: Activity::Sinking { elapsed_ms: e, duration_ms },
                    ..a
                },
            }
        },
        Activity::Removed => a,
    }
}

/// The agent as it enters its sink after a fall event.
pub open spec fn sunk(a: Agent) -> Agent {
    Agent {
        activity: Activity::Sinking { elapsed_ms: 0, duration_ms: SINK_DURATION_MS },
        ..a
    }
}

/// Puts a fallen agent into its sink.
pub fn sink_agent(a: Agent) -> (r: Agent)
    requires
        agent_wf(a),
    ensures
        r == sunk(a),
        agent_wf(r),
        !is_active(r),
{
    Agent {
        activity: Activity::Sinking { elapsed_ms: 0, duration_ms: SINK_DURATION_MS },
        ..a
    }
}

/// Render scale of an agent, in thousandths of full size: full while
/// active, shrinking linearly to zero over the sink, zero once removed.
pub open spec fn render_scale_spec(act: Activity) -> int {
    match act {
        Activity::Active => FULL_SCALE_MILLI as int,
        Activity::Sinking { elapsed_ms, duration_ms } => (duration_ms - elapsed_ms)
            * (FULL_SCALE_MILLI as int) / (duration_ms as int),
        Activity::Removed => 0,
    }
}

/// Computes the render scale.
pub fn render_scale_milli(a: &Agent) -> (s: u64)
    requires
        agent_wf(*a),
    ensures
        s == render_scale_spec(a.activity),
        s <= FULL_SCALE_MILLI,
{
    match a.activity {
        Activity::Active => FULL_SCALE_MILLI,
        Activity::Sinking { elapsed_ms, duration_ms } => {
            let s = (duration_ms - elapsed_ms) * FULL_SCALE_MILLI / duration_ms;
            proof {
                assert((duration_ms - elapsed_ms) * FULL_SCALE_MILLI
                    <= duration_ms * FULL_SCALE_MILLI) by (nonlinear_arith)
                    requires
                        elapsed_ms <= duration_ms,
                        FULL_SCALE_MILLI > 0,
                ;
                vstd::arithmetic::div_mod::lemma_div_is_ordered(
                    (duration_ms - elapsed_ms) * FULL_SCALE_MILLI,
                    duration_ms * FULL_SCALE_MILLI,
                    duration_ms as int,
                );
                vstd::arithmetic::div_mod::lemma_div_multiples_vanish(
                    FULL_SCALE_MILLI as int,
                    duration_ms as int,
                );
                assert(duration_ms * FULL_SCALE_MILLI == FULL_SCALE_MILLI * duration_ms)
                    by (nonlinear_arith);
            }
            s
        },
        Activity::Removed => 0,
    }
}

/// Law: a sinking or removed agent takes no part in motion: a tick leaves
/// its position, heading and steering unchanged.
pub proof fn lemma_inactive_agent_holds_still(a: Agent, cmd: Option<i64>, draw: u32, dt_ms: u64)
    requires
        !is_active(a),
    ensures
        agent_ticked(a, cmd, draw, dt_ms).pos == a.pos,
        agent_ticked(a, cmd, draw, dt_ms).heading_mdeg == a.heading_mdeg,
        agent_ticked(a, cmd, draw, dt_ms).steering_mdeg == a.steering_mdeg,
        !is_active(agent_ticked(a, cmd, draw, dt_ms)),
{
}

/// Law: once an agent's sink duration has fully elapsed its render scale
/// is zero, and it never becomes active again.
pub proof fn lemma_sink_completion(a: Agent, cmd: Option<i64>, draw: u32, dt_ms: u64)
    requires
        agent_wf(a),
        a.activity matches Activity::Sinking { elapsed_ms, duration_ms }
            ==> elapsed_ms + dt_ms >= duration_ms,
        !is_active(a),
    ensures
        render_scale_spec(agent_ticked(a, cmd, draw, dt_ms).activity) == 0,
{
    let r = agent_ticked(a, cmd, draw, dt_ms);
    match a.activity {
        Activity::Sinking { elapsed_ms, duration_ms } => {
            assert(sink_advanced(elapsed_ms, duration_ms, dt_ms) == duration_ms);
            match r.activity {
                Activity::Sinking { elapsed_ms: e2, duration_ms: d2 } => {
                    assert(e2 == d2);
                    assert((d2 - e2) * FULL_SCALE_MILLI == 0) by (nonlinear_arith)
                        requires
                            e2 == d2,
                    ;
                },
                _ => {},
            }
        },
        _ => {},
    }
}

} // verus!
