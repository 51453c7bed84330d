use selfdriving_car::fixed::ONE;
use selfdriving_car::network::NetworkLevel;
use selfdriving_car::network::NeuralNetwork;
use selfdriving_car::network::network_from_loaded;

fn level(weights: Vec<Vec<i64>>, biases: Vec<i64>) -> NetworkLevel {
    let n_in = weights.len();
    let n_out = biases.len();
    NetworkLevel {
        inputs: vec![0; n_in],
        weights,
        outputs: vec![0; n_out],
        biases,
    }
}

/// A 2-input, one-hidden(3), 4-output network with hand-picked weights.
fn golden_network() -> NeuralNetwork {
    let l1 = level(
        vec![vec![500, -200, 1_000], vec![300, 300, -1_000]],
        vec![100, 50, -900],
    );
    let l2 = level(
        vec![
            vec![1_000, 0, 0, -1_000],
            vec![0, 1_000, 0, 0],
            vec![0, 0, 1_000, 1_000],
        ],
        vec![999, -1, 500, 0],
    );
    NeuralNetwork { levels: vec![l1, l2], input_rays: vec![] }
}

#[test]
fn golden_feed_forward() {
    // Inputs [1.0, -1.0]. Hidden sums: 0.2 > 0.1 fires; -0.5 < 0.05 does
    // not; 2.0 > -0.9 fires. Output sums against biases 0.999, -0.001, 0.5,
    // 0: the first three fire, the last compares 0 > 0 and stays off.
    let mut net = golden_network();
    let out = net.feed_forward(&vec![ONE, -ONE]);
    assert_eq!(out, vec![ONE, ONE, ONE, 0]);
}

#[test]
fn feed_forward_is_deterministic_and_binary() {
    let mut net = golden_network();
    let a = net.feed_forward(&vec![ONE, -ONE]);
    let b = net.feed_forward(&vec![ONE, -ONE]);
    assert_eq!(a, b);
    for v in &a {
        assert!(*v == 0 || *v == ONE);
    }
    let c = net.feed_forward(&vec![-ONE, ONE]);
    for v in &c {
        assert!(*v == 0 || *v == ONE);
    }
}

#[test]
fn new_level_shape_and_ranges() {
    let l = NetworkLevel::new(3, 4);
    assert_eq!(l.inputs.len(), 3);
    assert_eq!(l.weights.len(), 3);
    assert_eq!(l.outputs.len(), 4);
    assert_eq!(l.biases.len(), 4);
    for row in &l.weights {
        assert_eq!(row.len(), 4);
        for w in row {
            assert!(-ONE <= *w && *w < ONE);
        }
    }
    for b in &l.biases {
        assert!(-ONE <= *b && *b < ONE);
    }
}

#[test]
fn new_network_chains_layer_sizes() {
    let net = NeuralNetwork::new(&vec![2u8, 3, 4], vec![7, 9]);
    assert_eq!(net.levels.len(), 2);
    assert_eq!(net.levels[0].inputs.len(), 2);
    assert_eq!(net.levels[0].outputs.len(), 3);
    assert_eq!(net.levels[1].inputs.len(), 3);
    assert_eq!(net.levels[1].outputs.len(), 4);
    assert_eq!(net.input_rays, vec![7, 9]);
}

#[test]
fn mutate_zero_changes_nothing() {
    let original = golden_network();
    let copy = golden_network();
    let net = NeuralNetwork::with_levels(copy.levels, vec![], 0);
    for (a, b) in net.levels.iter().zip(original.levels.iter()) {
        assert_eq!(a.weights, b.weights);
        assert_eq!(a.biases, b.biases);
    }
}

#[test]
fn mutate_full_replaces_every_value() {
    // Every weight and bias starts at exactly ONE; a draw lies in
    // [-ONE, ONE), so blending fully must change every value.
    let l = level(vec![vec![ONE, ONE], vec![ONE, ONE], vec![ONE, ONE]], vec![ONE, ONE]);
    let net = NeuralNetwork::with_levels(vec![l], vec![], ONE);
    for row in &net.levels[0].weights {
        for w in row {
            assert!(-ONE <= *w && *w < ONE);
        }
    }
    for b in &net.levels[0].biases {
        assert!(-ONE <= *b && *b < ONE);
    }
}

#[test]
fn load_fallback_builds_fresh_network() {
    let net = network_from_loaded(None, &vec![2u8, 3, 4], vec![0, 1], 75);
    assert_eq!(net.levels.len(), 2);
    assert_eq!(net.input_rays, vec![0, 1]);
}

#[test]
fn load_success_keeps_layers() {
    let loaded = golden_network();
    let net = network_from_loaded(Some(loaded.levels), &vec![9u8, 9], vec![], 0);
    assert_eq!(net.levels.len(), 2);
    // With a zero mutation factor the loaded weights survive verbatim.
    let original = golden_network();
    assert_eq!(net.levels[0].weights, original.levels[0].weights);
    assert_eq!(net.levels[1].biases, original.levels[1].biases);
}
