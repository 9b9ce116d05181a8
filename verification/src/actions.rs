//! Mapping of left/right input state to the player's steering rate.
//!
//! The surrounding input layer hands the library plain booleans about the
//! two steering keys; the rules here turn them into the optional signed
//! angular rate the motion model consumes (positive turns clockwise).

use vstd::prelude::*;

verus! {

use crate::motion::PLAYER_TURN_RATE_MDEG;
use crate::motion::MAX_TURN_RATE_MDEG;

/// The player's current steering command, in thousandths of a degree per
/// second; `None` means go straight.
#[derive(Clone, Copy, Debug)]
pub struct Actions {
    pub steering: Option<i64>,
}

/// A steering command the motion model accepts.
pub open spec fn actions_wf(a: Actions) -> bool {
    a.steering matches Some(r) ==> -MAX_TURN_RATE_MDEG <= r <= MAX_TURN_RATE_MDEG
}

/// The steering an initial key state denotes: right turns clockwise, left
/// counterclockwise, both or neither goes straight.
pub open spec fn initial_steering(left: bool, right: bool) -> Option<i64> {
    if left && right {
        None
    } else if left {
        Some((-PLAYER_TURN_RATE_MDEG) as i64)
    } else if right {
        Some(PLAYER_TURN_RATE_MDEG)
    } else {
        None
    }
}

/// Builds the steering command for a fresh key state.
pub fn actions_from_keys(left: bool, right: bool) -> (a: Actions)
    ensures
        a.steering == initial_steering(left, right),
        actions_wf(a),
{
    let steering = if left && right {
        None
    } else if left {
        Some((-PLAYER_TURN_RATE_MDEG) as i64)
    } else if right {
        Some(PLAYER_TURN_RATE_MDEG)
    } else {
        None
    };
    Actions { steering }
}

/// The steering command after one input frame: while a steering key is
/// down or was just let go, a just-released key yields to whichever key is
/// still down (or to going straight), a just-pressed key starts its turn,
/// and otherwise the previous command carries over; with no steering keys
/// involved at all the command clears.
pub open spec fn updated_steering(
    prev: Option<i64>,
    left_pressed: bool,
    right_pressed: bool,
    left_just_pressed: bool,
    right_just_pressed: bool,
    left_just_released: bool,
    right_just_released: bool,
) -> Option<i64> {
    if left_just_released || left_pressed || right_just_released || right_pressed {
        if right_just_released || left_just_released {
            if right_pressed {
                Some(PLAYER_TURN_RATE_MDEG)
            } else if left_pressed {
                Some((-PLAYER_TURN_RATE_MDEG) as i64)
            } else {
                Some(0)
            }
        } else if right_just_pressed {
            Some(PLAYER_TURN_RATE_MDEG)
        } else if left_just_pressed {
            Some((-PLAYER_TURN_RATE_MDEG) as i64)
        } else {
            match prev {
                Some(r) => Some(r),
                None => Some(0),
            }
        }
    } else {
        None
    }
}

impl Actions {
    /// Folds one frame of key state into the steering command.
    pub fn update_from_keys(
        &mut self,
        left_pressed: bool,
        right_pressed: bool,
        left_just_pressed: bool,
        right_just_pressed: bool,
        left_just_released: bool,
        right_just_released: bool,
    )
        requires
            actions_wf(*old(self)),
        ensures
            final(self).steering == updated_steering(
                old(self).steering,
                left_pressed,
                right_pressed,
                left_just_pressed,
                right_just_pressed,
                left_just_released,
                right_just_released,
            ),
            actions_wf(*final(self)),
    {
        if left_just_released || left_pressed || right_just_released || right_pressed {
            let steering: i64 = if right_just_released || left_just_released {
                if right_pressed {
                    PLAYER_TURN_RATE_MDEG
                } else if left_pressed {
                    -PLAYER_TURN_RATE_MDEG
                } else {
                    0
                }
            } else if right_just_pressed {
                PLAYER_TURN_RATE_MDEG
            } else if left_just_pressed {
                -PLAYER_TURN_RATE_MDEG
            } else {
                match self.steering {
                    Some(r) => r,
                    None => 0,
                }
            };
            self.steering = Some(steering);
        } else {
            self.steering = None;
        }
    }
}

} // verus!
