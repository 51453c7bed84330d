use selfdriving_car::car::Car;
use selfdriving_car::car::Controls;
use selfdriving_car::car::HANDLING_CAP;
use selfdriving_car::car::read_input;
use selfdriving_car::car::rotation_delta;
use selfdriving_car::fixed::ONE;
use selfdriving_car::fixed::SCALE;

#[test]
fn new_car_constants() {
    let c = Car::new(100 * SCALE);
    assert_eq!(c.acceleration, 3 * SCALE);
    assert_eq!(c.friction, SCALE);
    assert_eq!(c.handling, 0);
    assert_eq!(c.max_handling, 35 * SCALE);
    assert_eq!(c.max_speed, 100 * SCALE);
    assert_eq!(c.speed, 0);
}

#[test]
fn one_tick_from_rest_accelerate_then_friction() {
    // Acceleration 3, friction 1: one tick from rest ends at exactly 2.
    let mut c = Car::new(100 * SCALE);
    c.tick_speed(ONE, true);
    assert_eq!(c.speed, 2 * SCALE);
}

#[test]
fn speed_stays_clamped_forever() {
    let mut c = Car::new(5 * SCALE);
    for _ in 0..50 {
        c.tick_speed(ONE, true);
        assert!(c.speed <= c.max_speed);
        assert!(c.speed >= -(c.max_speed / 2));
    }
    assert_eq!(c.speed, 5 * SCALE);
    for _ in 0..50 {
        c.tick_speed(-ONE, true);
        assert!(c.speed <= c.max_speed);
        assert!(c.speed >= -(c.max_speed / 2));
    }
    assert_eq!(c.speed, -(5 * SCALE) / 2);
}

#[test]
fn friction_snaps_small_speeds_to_zero() {
    for start in [500i64, -999, 1, -1, 0] {
        let mut c = Car {
            acceleration: 3 * SCALE,
            friction: SCALE,
            handling: 0,
            max_handling: 35 * SCALE,
            max_speed: 100 * SCALE,
            speed: start,
        };
        // Neutral throttle: only friction acts this tick.
        c.tick_speed(0, true);
        assert_eq!(c.speed, 0);
    }
}

#[test]
fn friction_never_reverses_sign() {
    let mut c = Car {
        acceleration: 3 * SCALE,
        friction: SCALE,
        handling: 0,
        max_handling: 35 * SCALE,
        max_speed: 100 * SCALE,
        speed: 1_500,
    };
    c.tick_speed(0, true);
    assert_eq!(c.speed, 500);
    c.speed = -1_500;
    c.tick_speed(0, true);
    assert_eq!(c.speed, -500);
}

#[test]
fn uncontrolled_car_accelerates_unconditionally() {
    let mut c = Car::new(100 * SCALE);
    c.tick_speed(0, false);
    assert_eq!(c.speed, 2 * SCALE);
}

#[test]
fn handling_recomputed_at_speed() {
    let mut c = Car {
        acceleration: 3 * SCALE,
        friction: SCALE,
        handling: 0,
        max_handling: 35 * SCALE,
        max_speed: 200 * SCALE,
        speed: 100 * SCALE,
    };
    // 35 degrees over (100/100) in radians: 35 * 3.142 / 180, fixed point.
    c.update_handling();
    assert_eq!(c.handling, 610);
    c.speed = -100 * SCALE;
    c.update_handling();
    assert_eq!(c.handling, -610);
}

#[test]
fn handling_capped_at_low_speed() {
    let mut c = Car {
        acceleration: 3 * SCALE,
        friction: SCALE,
        handling: 0,
        max_handling: 35 * SCALE,
        max_speed: 200 * SCALE,
        speed: 5 * SCALE,
    };
    c.update_handling();
    assert_eq!(c.handling, HANDLING_CAP);
}

#[test]
fn handling_kept_when_too_slow_for_steering() {
    let mut c = Car {
        acceleration: 3 * SCALE,
        friction: SCALE,
        handling: 123,
        max_handling: 35 * SCALE,
        max_speed: 200 * SCALE,
        speed: 4 * SCALE,
    };
    // |speed| must strictly exceed 1.5 * acceleration = 4.5 to steer.
    c.update_handling();
    assert_eq!(c.handling, 123);
}

#[test]
fn rotation_scales_with_turn_and_handling() {
    assert_eq!(rotation_delta(ONE, 610), 10);
    assert_eq!(rotation_delta(-ONE, 610), -10);
    assert_eq!(rotation_delta(0, 610), 0);
    assert_eq!(rotation_delta(ONE, 0), 0);
}

#[test]
fn arrow_keys_map_to_controls() {
    let c = read_input(true, false, false, false);
    assert_eq!(c.acceleration, ONE);
    assert_eq!(c.turn_direction, 0);
    let c = read_input(false, true, true, false);
    assert_eq!(c.acceleration, -ONE);
    assert_eq!(c.turn_direction, ONE);
    let c = read_input(true, true, true, true);
    assert_eq!(c.acceleration, 0);
    assert_eq!(c.turn_direction, 0);
    let c: Controls = Default::default();
    assert_eq!(c.acceleration, 0);
    assert_eq!(c.turn_direction, 0);
}
