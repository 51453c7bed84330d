use selfdriving_car::fixed::ONE;
use selfdriving_car::fixed::SCALE;
use selfdriving_car::geometry::Point;
use selfdriving_car::ray::Ray;
use selfdriving_car::resources::CameraTarget;
use selfdriving_car::world::Pose;
use selfdriving_car::world::TrafficCar;
use selfdriving_car::world::World;
use selfdriving_car::world::advance_positions;
use selfdriving_car::world::cast_rays;
use selfdriving_car::world::check_collisions;
use selfdriving_car::world::find_new_camera_target;
use selfdriving_car::world::move_cars;
use selfdriving_car::world::update;

fn pt(x: i64, y: i64) -> Point {
    Point { x, y }
}

/// One car at the origin heading up, one sensor straight ahead, one obstacle
/// five units ahead.
fn small_world() -> World {
    let mut w = World::new();
    w.add_obstacle(pt(0, 5_000), pt(1_000, 1_000));
    w.add_car(
        100 * SCALE,
        Pose { x: 0, y: 0, heading: 0 },
        pt(500, 800),
        10_000,
        &vec![pt(0, SCALE)],
        &vec![1u8, 4],
    );
    w
}

fn up_dirs(n: usize) -> Vec<Point> {
    vec![pt(0, SCALE); n]
}

#[test]
fn sensor_registers_hit_on_both_sides() {
    let mut w = small_world();
    cast_rays(&mut w, &up_dirs(1));
    assert_eq!(w.rays[0].collisions.len(), 1);
    let (obstacle_id, t) = w.rays[0].collisions[0];
    assert_eq!(obstacle_id, 0);
    // Near edge at 4 of 10 units: t = 0.4.
    assert_eq!(t.num * 5, t.den * 2);
    assert_eq!(w.obstacles[0].collider.colliding_with, vec![0]);
}

#[test]
fn sensor_removes_vanished_hit_from_both_sides() {
    let mut w = small_world();
    cast_rays(&mut w, &up_dirs(1));
    assert_eq!(w.rays[0].collisions.len(), 1);
    // Turn the vehicle around: the obstacle leaves the ray, and both sides
    // of the collision bookkeeping are cleaned up.
    let down = vec![pt(0, -SCALE)];
    cast_rays(&mut w, &down);
    assert_eq!(w.rays[0].collisions.len(), 0);
    assert_eq!(w.obstacles[0].collider.colliding_with.len(), 0);
}

#[test]
fn control_loop_reads_sensors_into_controls() {
    let mut w = small_world();
    // Fixed weights: the first output neuron fires on any positive reading,
    // the rest stay silent.
    w.cars.cars[0].network.levels[0].weights = vec![vec![ONE, 0, 0, 0]];
    w.cars.cars[0].network.levels[0].biases = vec![0, 0, 0, 0];
    cast_rays(&mut w, &up_dirs(1));
    update(&mut w);
    assert_eq!(w.cars.cars[0].controls.acceleration, ONE);
    assert_eq!(w.cars.cars[0].controls.turn_direction, 0);
}

#[test]
fn empty_sensor_reports_unoccupied() {
    let r = Ray::new(10_000, pt(0, SCALE));
    assert_eq!(r.input_offset(), -ONE);
}

#[test]
fn kinematics_pass_moves_active_car() {
    let mut w = small_world();
    w.cars.cars[0].controls.acceleration = ONE;
    move_cars(&mut w);
    assert_eq!(w.cars.cars[0].car.speed, 2 * SCALE);
    assert_eq!(w.cars.cars[0].pose.heading, 0);
    advance_positions(&mut w, &up_dirs(1));
    // One tick at speed 2: 2000 / 60 = 33 fixed-point units.
    assert_eq!(w.cars.cars[0].pose.y, 33);
    assert_eq!(w.cars.cars[0].pose.x, 0);
}

#[test]
fn collision_is_terminal_and_detaches_sensors() {
    let mut w = small_world();
    // A second car standing inside the obstacle.
    w.add_car(
        100 * SCALE,
        Pose { x: 0, y: 5_000, heading: 0 },
        pt(500, 800),
        10_000,
        &vec![pt(0, SCALE)],
        &vec![1u8, 4],
    );
    cast_rays(&mut w, &up_dirs(2));
    check_collisions(&mut w);
    assert!(!w.cars.cars[0].collided);
    assert!(w.cars.cars[1].collided);
    assert_eq!(w.cars.cars[1].ray_ids.len(), 0);
    assert_eq!(w.rays[1].collisions.len(), 0);
    // Its sensor left the obstacle's reciprocal set too.
    assert!(!w.obstacles[0].collider.colliding_with.contains(&1));

    // Once collided, no later tick changes the vehicle: position, speed,
    // network outputs and the collided mark all stay put.
    let speed_before = w.cars.cars[1].car.speed;
    let x_before = w.cars.cars[1].pose.x;
    let y_before = w.cars.cars[1].pose.y;
    let heading_before = w.cars.cars[1].pose.heading;
    let controls_before = w.cars.cars[1].controls;
    w.cars.cars[0].pose.x = 3_000;
    cast_rays(&mut w, &up_dirs(2));
    update(&mut w);
    move_cars(&mut w);
    advance_positions(&mut w, &up_dirs(2));
    check_collisions(&mut w);
    assert!(w.cars.cars[1].collided);
    assert_eq!(w.cars.cars[1].car.speed, speed_before);
    assert_eq!(w.cars.cars[1].pose.x, x_before);
    assert_eq!(w.cars.cars[1].pose.y, y_before);
    assert_eq!(w.cars.cars[1].pose.heading, heading_before);
    assert_eq!(w.cars.cars[1].controls.acceleration, controls_before.acceleration);
    assert_eq!(w.cars.cars[1].controls.turn_direction, controls_before.turn_direction);
}

#[test]
fn distant_obstacle_does_not_collide() {
    let mut w = small_world();
    check_collisions(&mut w);
    assert!(!w.cars.cars[0].collided);
}

#[test]
fn camera_adopts_first_active_car_without_target() {
    let w = small_world();
    let target = CameraTarget::default();
    assert_eq!(find_new_camera_target(&w.cars, &target), Some((0, None)));
}

#[test]
fn camera_follows_farthest_car() {
    let mut w = small_world();
    w.add_car(
        100 * SCALE,
        Pose { x: 0, y: 100, heading: 0 },
        pt(500, 800),
        10_000,
        &vec![pt(0, SCALE)],
        &vec![1u8, 4],
    );
    let mut target = CameraTarget::default();
    target.set_target(0);
    assert_eq!(find_new_camera_target(&w.cars, &target), Some((1, Some(0))));
    target.set_target(1);
    assert_eq!(find_new_camera_target(&w.cars, &target), None);
    target.remove_target();
    assert_eq!(target.get_target(), None);
}

#[test]
fn traffic_car_cruises_straight() {
    let mut t = TrafficCar::new(7_000, 0);
    assert!(60 * SCALE <= t.car.max_speed && t.car.max_speed <= 120 * SCALE);
    assert_eq!(t.car.speed, 0);
    t.tick();
    assert_eq!(t.car.speed, 2 * SCALE);
    assert_eq!(t.pose.y, 33);
    assert_eq!(t.pose.x, 7_000);
    assert_eq!(t.pose.heading, 0);
}

#[test]
fn unresolvable_sensor_reference_removes_vehicle() {
    let mut w = small_world();
    // Point the network at a sensor that does not exist: the conservative
    // fail-safe removes the vehicle instead of evaluating partial data.
    w.cars.cars[0].network.input_rays = vec![42];
    update(&mut w);
    assert!(w.cars.cars[0].removed);
    assert!(!w.cars.cars[0].collided);
}

#[test]
fn sensor_updates_stored_distance_when_it_changes() {
    let mut w = small_world();
    cast_rays(&mut w, &up_dirs(1));
    let (_, t1) = w.rays[0].collisions[0];
    assert_eq!(t1.num * 5, t1.den * 2);
    // The vehicle advances one unit: the near edge is now 3 of 10 units out.
    w.cars.cars[0].pose.y = 1_000;
    cast_rays(&mut w, &up_dirs(1));
    assert_eq!(w.rays[0].collisions.len(), 1);
    let (obstacle_id, t2) = w.rays[0].collisions[0];
    assert_eq!(obstacle_id, 0);
    assert_eq!(t2.num * 10, t2.den * 3);
    // No duplicate entry appeared on the collider either.
    assert_eq!(w.obstacles[0].collider.colliding_with.len(), 1);
}

#[test]
fn wrong_output_arity_yields_neutral_controls() {
    let mut w = World::new();
    w.add_obstacle(pt(0, 5_000), pt(1_000, 1_000));
    // Three outputs instead of four: the control mapping stays neutral.
    w.add_car(
        100 * SCALE,
        Pose { x: 0, y: 0, heading: 0 },
        pt(500, 800),
        10_000,
        &vec![pt(0, SCALE)],
        &vec![1u8, 3],
    );
    w.cars.cars[0].controls.acceleration = ONE;
    w.cars.cars[0].controls.turn_direction = -ONE;
    cast_rays(&mut w, &up_dirs(1));
    update(&mut w);
    assert_eq!(w.cars.cars[0].controls.acceleration, 0);
    assert_eq!(w.cars.cars[0].controls.turn_direction, 0);
}

#[test]
fn nearest_collision_prefers_earlier_on_exact_tie() {
    let mut r = Ray::new(10_000, pt(0, SCALE));
    r.collisions = vec![
        (5, selfdriving_car::geometry::Ratio { num: 1, den: 2 }),
        (6, selfdriving_car::geometry::Ratio { num: 2, den: 4 }),
    ];
    let nearest = r.nearest_collision().expect("has entries");
    assert_eq!(nearest.0, 5);
}

#[test]
fn steering_rotates_the_heading() {
    let mut w = small_world();
    // Fast enough to steer, turning left.
    w.cars.cars[0].car.speed = 50 * SCALE;
    w.cars.cars[0].controls.turn_direction = ONE;
    w.cars.cars[0].controls.acceleration = ONE;
    move_cars(&mut w);
    // Speed 52; handling = 35*100*3142 / (180*52000) = 1174; rotation
    // = 1174 / 60 = 19.
    assert_eq!(w.cars.cars[0].car.speed, 52 * SCALE);
    assert_eq!(w.cars.cars[0].car.handling, 1_174);
    assert_eq!(w.cars.cars[0].pose.heading, 19);
}

#[test]
fn faraway_obstacle_is_skipped_untouched() {
    let mut w = World::new();
    // Beyond one and a half ray lengths: the cheap rejection skips the
    // pair entirely, leaving any stored state exactly as it was.
    w.add_obstacle(pt(0, 20_000), pt(1_000, 1_000));
    w.add_car(
        100 * SCALE,
        Pose { x: 0, y: 0, heading: 0 },
        pt(500, 800),
        10_000,
        &vec![pt(0, SCALE)],
        &vec![1u8, 4],
    );
    w.rays[0].collisions = vec![(0, selfdriving_car::geometry::Ratio { num: 1, den: 2 })];
    w.obstacles[0].collider.colliding_with = vec![0];
    cast_rays(&mut w, &up_dirs(1));
    assert_eq!(w.rays[0].collisions.len(), 1);
    assert_eq!(w.rays[0].collisions[0].0, 0);
    assert_eq!(w.obstacles[0].collider.colliding_with, vec![0]);
}

#[test]
fn car_drives_forward_until_it_crashes() {
    let mut w = small_world();
    // Full throttle whatever the sensors say: the vehicle heads straight
    // for the obstacle and must end collided, short of its center.
    w.cars.cars[0].network.levels[0].weights = vec![vec![ONE, 0, 0, 0]];
    w.cars.cars[0].network.levels[0].biases = vec![-ONE, ONE, ONE, ONE];
    for _ in 0..100 {
        let dirs = up_dirs(1);
        cast_rays(&mut w, &dirs);
        update(&mut w);
        move_cars(&mut w);
        advance_positions(&mut w, &up_dirs(1));
        check_collisions(&mut w);
    }
    assert!(w.cars.cars[0].collided);
    let y = w.cars.cars[0].pose.y;
    assert!(y > 3_000 && y < 5_000);
    // Heading never changed: the outputs kept the turn neutral.
    assert_eq!(w.cars.cars[0].pose.heading, 0);
}
