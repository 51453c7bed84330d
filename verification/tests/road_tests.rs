use selfdriving_car::network::NetworkLevel;
use selfdriving_car::resources::Config;
use selfdriving_car::resources::NetworkConfig;
use selfdriving_car::resources::RoadProperties;
use selfdriving_car::resources::WindowSize;
use selfdriving_car::resources::layer_sizes;
use selfdriving_car::resources::network_config_from_levels;
use selfdriving_car::resources::ray_angles;
use selfdriving_car::road::RoadLine;
use selfdriving_car::road::setup;

#[test]
fn lane_centers_split_the_road() {
    let road = RoadProperties { lane_count: 6, width: 400_000 };
    // lane width 66666; lane 2 center: 66666*2 - 200000 + 33333.
    assert_eq!(road.get_lane_ceter(2), -33_335);
    assert_eq!(road.get_lane_ceter(0), -166_667);
}

#[test]
fn layer_sizes_follow_the_configuration() {
    let cfg = NetworkConfig {
        hidden_layers: 2,
        hidden_layers_neuron_count: 9,
        input_neuron_count: 18,
        input_ray_length: 130_000,
        input_ray_spread: 2_827,
        mutate_factor: 75,
        output_neuron_count: 4,
    };
    assert_eq!(layer_sizes(&cfg), vec![18u8, 9, 4]);
    let flat = NetworkConfig { hidden_layers: 0, ..cfg };
    assert_eq!(layer_sizes(&flat), vec![18u8, 4]);
}

#[test]
fn ray_angles_sweep_the_spread() {
    // A single sensor points straight ahead.
    assert_eq!(ray_angles(1, 2_826), vec![0]);
    // Two sensors sit at the edges of the field of view.
    assert_eq!(ray_angles(2, 2_826), vec![1_413, -1_413]);
    // An odd count keeps one sensor centered.
    let three = ray_angles(3, 2_826);
    assert_eq!(three, vec![1_413, 0, -1_413]);
}

#[test]
fn road_lines_margins_and_dashes() {
    let props = RoadProperties { lane_count: 2, width: 120_000 };
    let window = WindowSize(120_000, 80_000);
    let road = setup(props, &window);
    // Two margins with 4 rows each, one inner boundary with the 2 even rows.
    assert_eq!(road.lines.len(), 10);
    assert_eq!(road.lines[0], RoadLine { x: -60_000, y: -60_000, margin: true });
    assert_eq!(road.lines[3], RoadLine { x: -60_000, y: 60_000, margin: true });
    assert_eq!(road.lines[4], RoadLine { x: 0, y: -60_000, margin: false });
    assert_eq!(road.lines[5], RoadLine { x: 0, y: 20_000, margin: false });
    assert_eq!(road.lines[6], RoadLine { x: 60_000, y: -60_000, margin: true });
    assert!(road.lines.iter().filter(|l| l.margin).count() == 8);
}

#[test]
fn config_counts_default_to_zero() {
    let cfg = Config::default();
    assert_eq!(cfg.max_traffic, 0);
    assert_eq!(cfg.current_traffic, 0);
    assert_eq!(cfg.controlllable_cars, 0);
}

#[test]
fn network_config_adopts_loaded_shape() {
    let l1 = NetworkLevel {
        inputs: vec![0; 2],
        weights: vec![vec![0; 3]; 2],
        outputs: vec![0; 3],
        biases: vec![0; 3],
    };
    let l2 = NetworkLevel {
        inputs: vec![0; 3],
        weights: vec![vec![0; 4]; 3],
        outputs: vec![0; 4],
        biases: vec![0; 4],
    };
    let mut cfg = NetworkConfig {
        hidden_layers: 0,
        hidden_layers_neuron_count: 0,
        input_neuron_count: 0,
        input_ray_length: 130_000,
        input_ray_spread: 2_827,
        mutate_factor: 75,
        output_neuron_count: 0,
    };
    network_config_from_levels(&mut cfg, &vec![l1, l2]);
    assert_eq!(cfg.input_neuron_count, 2);
    assert_eq!(cfg.hidden_layers, 2);
    assert_eq!(cfg.hidden_layers_neuron_count, 3);
    assert_eq!(cfg.output_neuron_count, 4);
    assert_eq!(cfg.input_ray_length, 130_000);
}

#[test]
fn road_lines_recycle_around_the_camera() {
    let props = RoadProperties { lane_count: 2, width: 120_000 };
    let window = WindowSize(120_000, 80_000);
    let mut road = setup(props, &window);
    // The camera has moved one full window up: the rows that fell behind
    // wrap ahead, rows inside the band stay.
    selfdriving_car::road::move_road(&mut road.lines, 80_000, 80_000);
    // Row at y = -60000 was below camera_y - win_h = 0: wraps to 100000.
    assert_eq!(road.lines[0].y, 100_000);
    assert_eq!(road.lines[0].x, -60_000);
    // Row at y = 60000 sits inside the band and stays.
    assert_eq!(road.lines[3].y, 60_000);
}
