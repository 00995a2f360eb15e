use neural_net::network::{count_parameters, fraction_of_draw, is_valid_topology, FRACTION_SCALE};
use neural_net::{Network, TopologyError};

#[test]
fn test_network_initialization() {
    let sizes = vec![6, 3, 4, 5];
    let mut net = Network::new(sizes).unwrap();

    assert_eq!(net.biases.pop().unwrap().dim(), (5, 1));
    assert_eq!(net.biases.pop().unwrap().dim(), (4, 1));
    assert_eq!(net.biases.pop().unwrap().dim(), (3, 1));
    assert!(net.biases.is_empty());

    assert_eq!(net.weights.pop().unwrap().dim(), (5, 4));
    assert_eq!(net.weights.pop().unwrap().dim(), (4, 3));
    assert_eq!(net.weights.pop().unwrap().dim(), (3, 6));
    assert!(net.weights.is_empty());

    assert_eq!(net.sizes, vec![6, 3, 4, 5]);
    assert_eq!(net.num_layers, 4);
}

#[test]
fn shapes_follow_the_layer_sizes_in_order() {
    let net = Network::new(vec![6, 3, 4, 5]).unwrap();
    assert_eq!(net.num_layers, 4);
    assert_eq!(net.bias_shape(0), (3, 1));
    assert_eq!(net.bias_shape(1), (4, 1));
    assert_eq!(net.bias_shape(2), (5, 1));
    assert_eq!(net.weight_shape(0), (3, 6));
    assert_eq!(net.weight_shape(1), (4, 3));
    assert_eq!(net.weight_shape(2), (5, 4));
}

#[test]
fn one_bias_and_one_weight_matrix_per_transition() {
    for sizes in [vec![1, 1], vec![2, 3, 4], vec![7, 1, 1, 2, 9]] {
        let n = sizes.len();
        let net = Network::new(sizes).unwrap();
        assert_eq!(net.biases.len(), n - 1);
        assert_eq!(net.weights.len(), n - 1);
        assert_eq!(net.num_layers, n);
    }
}

#[test]
fn every_entry_lies_in_the_unit_interval() {
    let sizes = vec![4, 5, 3, 2];
    let net = Network::new(sizes.clone()).unwrap();
    for layer in 0..sizes.len() - 1 {
        for to in 0..sizes[layer + 1] {
            assert!(net.bias(layer, to) < FRACTION_SCALE);
            for from in 0..sizes[layer] {
                assert!(net.weight(layer, to, from) < FRACTION_SCALE);
            }
        }
    }
}

#[test]
fn empty_topology_is_rejected() {
    assert_eq!(Network::new(vec![]).unwrap_err(), TopologyError::InvalidTopology);
}

#[test]
fn single_layer_topology_is_rejected() {
    assert_eq!(Network::new(vec![5]).unwrap_err(), TopologyError::InvalidTopology);
}

#[test]
fn empty_layer_is_rejected() {
    assert_eq!(Network::new(vec![3, 0, 2]).unwrap_err(), TopologyError::InvalidTopology);
    assert_eq!(Network::new(vec![3, 2, 0]).unwrap_err(), TopologyError::InvalidTopology);
    assert_eq!(Network::new(vec![0, 2]).unwrap_err(), TopologyError::InvalidTopology);
}

#[test]
fn topology_validity() {
    assert!(!is_valid_topology(&vec![]));
    assert!(!is_valid_topology(&vec![5]));
    assert!(!is_valid_topology(&vec![3, 0, 2]));
    assert!(is_valid_topology(&vec![1, 1]));
    assert!(is_valid_topology(&vec![6, 3, 4, 5]));
}

#[test]
fn fraction_keeps_the_high_bits() {
    assert_eq!(fraction_of_draw(0), 0);
    assert_eq!(fraction_of_draw(2047), 0);
    assert_eq!(fraction_of_draw(2048), 1);
    assert_eq!(fraction_of_draw(5 * 2048 + 7), 5);
    assert_eq!(fraction_of_draw(u64::MAX), FRACTION_SCALE - 1);
}

#[test]
fn draws_fill_biases_then_weights_in_row_major_order() {
    let draws: Vec<u64> = (1..=8u64).map(|k| k * 2048).collect();
    let net = Network::from_draws(vec![2, 2], &draws).unwrap();
    assert_eq!(net.bias(0, 0), 1);
    assert_eq!(net.bias(0, 1), 2);
    assert_eq!(net.weight(0, 0, 0), 3);
    assert_eq!(net.weight(0, 0, 1), 4);
    assert_eq!(net.weight(0, 1, 0), 5);
    assert_eq!(net.weight(0, 1, 1), 6);
}

#[test]
fn draws_are_laid_out_layer_by_layer() {
    let draws: Vec<u64> = (0..20u64).map(|k| k * 2048 + 1000).collect();
    let net = Network::from_draws(vec![1, 2, 3], &draws).unwrap();
    assert_eq!(net.bias(0, 0), 0);
    assert_eq!(net.bias(0, 1), 1);
    assert_eq!(net.bias(1, 0), 2);
    assert_eq!(net.bias(1, 2), 4);
    assert_eq!(net.weight(0, 0, 0), 5);
    assert_eq!(net.weight(0, 1, 0), 6);
    assert_eq!(net.weight(1, 0, 0), 7);
    assert_eq!(net.weight(1, 0, 1), 8);
    assert_eq!(net.weight(1, 2, 1), 12);
}

#[test]
fn largest_draw_gives_the_largest_fraction() {
    let draws = vec![u64::MAX; 3];
    let net = Network::from_draws(vec![2, 1], &draws).unwrap();
    assert_eq!(net.bias(0, 0), FRACTION_SCALE - 1);
    assert_eq!(net.weight(0, 0, 1), FRACTION_SCALE - 1);
}

#[test]
fn draws_do_not_rescue_an_invalid_topology() {
    let draws = vec![0u64; 10];
    assert_eq!(Network::from_draws(vec![3], &draws).unwrap_err(), TopologyError::InvalidTopology);
    assert_eq!(Network::from_draws(vec![3, 0], &draws).unwrap_err(), TopologyError::InvalidTopology);
}

#[test]
fn parameter_count_sums_biases_and_weights() {
    assert_eq!(count_parameters(&vec![]), Some(0));
    assert_eq!(count_parameters(&vec![5]), Some(0));
    assert_eq!(count_parameters(&vec![2, 2]), Some(6));
    assert_eq!(count_parameters(&vec![6, 3, 4, 5]), Some(12 + 18 + 12 + 20));
}

#[test]
fn parameter_count_reports_overflow() {
    assert_eq!(count_parameters(&vec![usize::MAX, 2]), None);
    assert_eq!(count_parameters(&vec![1, usize::MAX, 1]), None);
}

#[test]
fn draws_counted_by_parameter_count_are_enough() {
    let sizes = vec![3, 2, 2];
    let count = count_parameters(&sizes).unwrap();
    let draws: Vec<u64> = (0..count as u64).map(|k| k * 2048).collect();
    let net = Network::from_draws(sizes, &draws).unwrap();
    assert_eq!(net.weight(1, 1, 1), count as u64 - 1);
}
