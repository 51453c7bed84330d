//! Vehicle state and the fixed-timestep kinematics integrator: acceleration
//! from the controls, friction toward zero, clamping of the speed to
//! [-max_speed/2, max_speed], and the nonlinear steering response that
//! weakens with speed.
use vstd::prelude::*;

use crate::fixed::ONE;
use crate::fixed::SCALE;
use crate::fixed::tdiv;
use crate::geometry::iabs;

verus! {

/// Fixed-point value of the circle constant (radians per half turn).
pub const PI_FP: i64 = 3142;

/// Upper bound on the steering response: 0.66 times `PI_FP`.
pub const HANDLING_CAP: i64 = 2073;

/// Upper bound accepted for speeds, accelerations and friction.
pub const SPEED_CAP: i64 = 1_000_000;

/// Number of fixed simulation ticks per second.
pub const TICKS_PER_SECOND: i64 = 60;

/// Per-agent physical state. `max_handling` is in fixed-point degrees;
/// `handling` is the current steering responsiveness in fixed-point radians
/// per second, recomputed each tick from the speed.
#[derive(Clone, Copy, Debug)]
pub struct Car {
    pub acceleration: i64,
    pub friction: i64,
    pub handling: i64,
    pub max_handling: i64,
    pub max_speed: i64,
    pub speed: i64,
}

/// Control inputs of one tick, each in [-ONE, ONE]: positive acceleration
/// drives forward, positive turn direction steers left.
#[derive(Clone, Copy, Debug)]
pub struct Controls {
    pub acceleration: i64,
    pub turn_direction: i64,
}

impl Default for Controls {
    /// Neutral controls: no throttle, no steering.
    fn default() -> (c: Controls)
        ensures
            c.acceleration == 0,
            c.turn_direction == 0,
    {
        Controls { acceleration: 0, turn_direction: 0 }
    }
}

pub open spec fn controls_wf(c: Controls) -> bool {
    &&& -ONE <= c.acceleration <= ONE
    &&& -ONE <= c.turn_direction <= ONE
}

/// Invariant of a vehicle: positive bounded constants, speed within the
/// forward limit in either direction, steering response within its cap.
pub open spec fn car_wf(c: Car) -> bool {
    &&& 0 < c.acceleration <= SPEED_CAP
    &&& 0 < c.friction <= SPEED_CAP
    &&& 0 < c.max_speed <= SPEED_CAP
    &&& 0 < c.max_handling <= SPEED_CAP
    &&& -c.max_speed <= c.speed <= c.max_speed
    &&& -HANDLING_CAP <= c.handling <= HANDLING_CAP
}

/// Speed after applying the throttle: a controlled agent scales its
/// acceleration by the control input, an uncontrolled one accelerates
/// unconditionally.
pub open spec fn spec_accelerated(
    speed: int,
    acceleration: int,
    control_acc: int,
    controlled: bool,
) -> int {
    if controlled {
        speed + tdiv(acceleration * control_acc, SCALE as int)
    } else {
        speed + acceleration
    }
}

/// One friction application: speeds smaller than the friction snap to
/// exactly zero; larger ones move toward zero by the friction amount.
pub open spec fn spec_friction(speed: int, friction: int) -> int {
    if iabs(speed) < friction {
        0
    } else if speed < 0 {
        speed + friction
    } else {
        speed - friction
    }
}

/// Clamp a speed to [-max_speed/2, max_speed]: reverse is capped at half of
/// the forward top speed.
pub open spec fn spec_clamped(speed: int, max_speed: int) -> int {
    let lo = -(max_speed / 2);
    if speed < lo {
        lo
    } else if speed > max_speed {
        max_speed
    } else {
        speed
    }
}

/// The full per-tick speed update: throttle, then friction, then clamp.
pub open spec fn spec_speed_tick(
    speed: int,
    acceleration: int,
    friction: int,
    max_speed: int,
    control_acc: int,
    controlled: bool,
) -> int {
    spec_clamped(
        spec_friction(spec_accelerated(speed, acceleration, control_acc, controlled), friction),
        max_speed,
    )
}

/// Steering response at a nonzero speed: `max_handling` degrees divided by a
/// hundredth of the speed, converted to radians and capped at 0.66 of a half
/// turn, signed like the speed.
pub open spec fn spec_handling(max_handling: int, speed: int) -> int {
    let m = (max_handling * 100 * PI_FP) / (180 * iabs(speed));
    let c = if m > HANDLING_CAP {
        HANDLING_CAP as int
    } else {
        m
    };
    if speed > 0 {
        c
    } else {
        -c
    }
}

/// The vehicle moves fast enough for steering to matter: nonzero speed whose
/// magnitude exceeds one and a half times the acceleration.
pub open spec fn spec_steering_active(speed: int, acceleration: int) -> bool {
    speed != 0 && 2 * iabs(speed) > 3 * acceleration
}

/// Steering response after one tick: recomputed from the speed while the
/// vehicle moves fast enough, kept otherwise.
pub open spec fn spec_handling_tick(prev: int, max_handling: int, speed: int, acceleration: int) -> int {
    if spec_steering_active(speed, acceleration) {
        spec_handling(max_handling, speed)
    } else {
        prev
    }
}

/// Heading rotation of one tick: the turn control times the steering
/// response, over one tick of time.
pub open spec fn spec_rotation(turn_direction: int, handling: int) -> int {
    tdiv(turn_direction * handling, SCALE as int * TICKS_PER_SECOND as int)
}

/// Whatever the starting speed, controls and constants, a tick always ends
/// with the speed inside [-max_speed/2, max_speed].
pub proof fn lemma_speed_always_clamped(
    speed: int,
    acceleration: int,
    friction: int,
    max_speed: int,
    control_acc: int,
    controlled: bool,
)
    requires
        max_speed > 0,
    ensures
        -(max_speed / 2) <= spec_speed_tick(
            speed,
            acceleration,
            friction,
            max_speed,
            control_acc,
            controlled,
        ) <= max_speed,
{
    vstd::arithmetic::div_mod::lemma_div_is_ordered(0, max_speed, 2);
    vstd::arithmetic::div_mod::lemma_div_is_ordered(max_speed, 2 * max_speed, 2);
    vstd::arithmetic::div_mod::lemma_div_by_multiple(max_speed, 2);
}

/// One friction application never drives a speed past zero: a speed smaller
/// in magnitude than the friction snaps to exactly zero, and a larger one
/// keeps its sign while shrinking by the friction amount.
pub proof fn lemma_friction_never_reverses(speed: int, friction: int)
    requires
        friction > 0,
    ensures
        iabs(speed) < friction ==> spec_friction(speed, friction) == 0,
        speed > 0 ==> 0 <= spec_friction(speed, friction) < speed,
        speed < 0 ==> speed < spec_friction(speed, friction) <= 0,
{
}

impl Car {
    /// A fresh vehicle at rest: acceleration 3, friction 1, a 35-degree
    /// steering bound, and the given top speed.
    pub fn new(max_speed: i64) -> (c: Car)
        requires
            0 < max_speed <= SPEED_CAP,
        ensures
            car_wf(c),
            c.acceleration == 3 * SCALE,
            c.friction == SCALE,
            c.handling == 0,
            c.max_handling == 35 * SCALE,
            c.max_speed == max_speed,
            c.speed == 0,
    {
        Car {
            acceleration: 3 * SCALE,
            friction: SCALE,
            handling: 0,
            max_handling: 35 * SCALE,
            max_speed,
            speed: 0,
        }
    }

    /// Advance the speed one tick: apply the throttle (`control_acc` for a
    /// controlled agent, full acceleration for an uncontrolled one), then
    /// friction, then the clamp.
    pub fn tick_speed(&mut self, control_acc: i64, controlled: bool)
        requires
            car_wf(*old(self)),
            -ONE <= control_acc <= ONE,
        ensures
            car_wf(*final(self)),
            final(self).speed == spec_speed_tick(
                old(self).speed as int,
                old(self).acceleration as int,
                old(self).friction as int,
                old(self).max_speed as int,
                control_acc as int,
                controlled,
            ),
            -(old(self).max_speed / 2) <= final(self).speed <= old(self).max_speed,
            final(self).acceleration == old(self).acceleration,
            final(self).friction == old(self).friction,
            final(self).handling == old(self).handling,
            final(self).max_handling == old(self).max_handling,
            final(self).max_speed == old(self).max_speed,
    {
        let boost: i64 = if controlled {
            proof {
                crate::geometry::lemma_mul_abs_bound(
                    self.acceleration as int,
                    control_acc as int,
                    1_000_000,
                    1000,
                );
                crate::fixed::lemma_tdiv_unit_bound(
                    self.acceleration as int,
                    control_acc as int,
                    SCALE as int,
                );
            }
            self.acceleration * control_acc / SCALE
        } else {
            self.acceleration
        };
        let mut s: i64 = self.speed + boost;
        let mag: i64 = if s < 0 {
            -s
        } else {
            s
        };
        if mag < self.friction {
            s = 0;
        } else if s < 0 {
            s = s + self.friction;
        } else {
            s = s - self.friction;
        }
        let lo: i64 = -(self.max_speed / 2);
        proof {
            vstd::arithmetic::div_mod::lemma_div_is_ordered(0, self.max_speed as int, 2);
            vstd::arithmetic::div_mod::lemma_div_is_ordered(
                self.max_speed as int,
                2 * self.max_speed as int,
                2,
            );
            vstd::arithmetic::div_mod::lemma_div_by_multiple(self.max_speed as int, 2);
        }
        if s < lo {
            s = lo;
        } else if s > self.max_speed {
            s = self.max_speed;
        }
        self.speed = s;
    }

    /// Recompute the steering response from the current speed, when the
    /// vehicle moves fast enough for steering to matter.
    pub fn update_handling(&mut self)
        requires
            car_wf(*old(self)),
        ensures
            car_wf(*final(self)),
            final(self).handling == spec_handling_tick(
                old(self).handling as int,
                old(self).max_handling as int,
                old(self).speed as int,
                old(self).acceleration as int,
            ),
            final(self).acceleration == old(self).acceleration,
            final(self).friction == old(self).friction,
            final(self).speed == old(self).speed,
            final(self).max_handling == old(self).max_handling,
            final(self).max_speed == old(self).max_speed,
    {
        let mag: i64 = if self.speed < 0 {
            -self.speed
        } else {
            self.speed
        };
        if self.speed != 0 && 2 * mag > 3 * self.acceleration {
            let num: i64 = self.max_handling * 100 * PI_FP;
            let den: i64 = 180 * mag;
            let m: i64 = num / den;
            proof {
                vstd::arithmetic::div_mod::lemma_div_is_ordered(0, num as int, den as int);
            }
            let c: i64 = if m > HANDLING_CAP {
                HANDLING_CAP
            } else {
                m
            };
            self.handling = if self.speed > 0 {
                c
            } else {
                -c
            };
        }
    }
}

/// Controls read from the arrow-key state: each pressed key contributes one
/// unit of throttle or steering, opposite keys cancelling out.
pub fn read_input(up: bool, down: bool, left: bool, right: bool) -> (c: Controls)
    ensures
        controls_wf(c),
        c.acceleration == (if up {
            ONE as int
        } else {
            0
        }) - (if down {
            ONE as int
        } else {
            0
        }),
        c.turn_direction == (if left {
            ONE as int
        } else {
            0
        }) - (if right {
            ONE as int
        } else {
            0
        }),
{
    let mut c = Controls { acceleration: 0, turn_direction: 0 };
    if up {
        c.acceleration = c.acceleration + ONE;
    }
    if down {
        c.acceleration = c.acceleration - ONE;
    }
    if left {
        c.turn_direction = c.turn_direction + ONE;
    }
    if right {
        c.turn_direction = c.turn_direction - ONE;
    }
    c
}

/// Heading rotation produced this tick by a turn control against the current
/// steering response.
pub fn rotation_delta(turn_direction: i64, handling: i64) -> (r: i64)
    requires
        -ONE <= turn_direction <= ONE,
        -HANDLING_CAP <= handling <= HANDLING_CAP,
    ensures
        r == spec_rotation(turn_direction as int, handling as int),
        -HANDLING_CAP <= r <= HANDLING_CAP,
{
    proof {
        crate::geometry::lemma_mul_abs_bound(
            turn_direction as int,
            handling as int,
            1000,
            HANDLING_CAP as int,
        );
        crate::fixed::lemma_tdiv_abs_le(
            turn_direction as int * handling as int,
            SCALE as int * TICKS_PER_SECOND as int,
            1000 * HANDLING_CAP as int,
        );
    }
    turn_direction * handling / (SCALE * TICKS_PER_SECOND)
}

} // verus!
