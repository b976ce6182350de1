use evosim::network::{Layer, LayerTopology, Network};
use rand::rngs::StdRng;
use rand::{Rng, SeedableRng};

fn topology(widths: &[usize]) -> Vec<LayerTopology> {
    widths.iter().map(|&neurons| LayerTopology { neurons }).collect()
}

#[test]
fn test_random_lifecycle() {
    let layers = topology(&[3, 4, 1]);
    let mut rng = StdRng::seed_from_u64(0);
    let count = Network::<f32>::weight_count(&layers).unwrap();
    let weights: Vec<f32> = (0..count).map(|_| rng.gen_range(-1.0..=1.0)).collect();
    let network = Network::from_weights(&layers, weights.clone());
    let second_network = Network::from_weights(&layers, network.weights());

    assert_eq!(network.weights(), weights);
    assert_eq!(second_network.weights(), network.weights());
    for (a, b) in network.layers().iter().zip(second_network.layers().iter()) {
        assert_eq!(a.biases(), b.biases());
        assert_eq!(a.rows(), b.rows());
    }
}

#[test]
fn from_weights_reads_bias_then_row() {
    let layers = topology(&[2, 3]);
    let network = Network::from_weights(&layers, vec![1.0f32, 2.0, 3.0, 1.0, 4.0, 5.0, 1.0, 6.0, 7.0]);
    let layer = &network.layers()[0];
    assert_eq!(layer.rows(), &vec![vec![2.0, 3.0], vec![4.0, 5.0], vec![6.0, 7.0]]);
    assert_eq!(layer.biases(), &vec![1.0, 1.0, 1.0]);
}

#[test]
fn layer_from_weights_moves_the_cursor() {
    let weights = vec![9, 1, 2, 3, 4, 5, 6];
    let mut cursor = 1;
    let layer = Layer::from_weights(2, 2, &weights, &mut cursor);
    assert_eq!(cursor, 7);
    assert_eq!(layer.biases(), &vec![1, 4]);
    assert_eq!(layer.rows(), &vec![vec![2, 3], vec![5, 6]]);
    assert_eq!(layer.weights(), vec![1, 2, 3, 4, 5, 6]);
}

#[test]
fn weight_count_sums_every_layer() {
    assert_eq!(Network::<f32>::weight_count(&topology(&[3, 4, 1])), Some(21));
    assert_eq!(Network::<f32>::weight_count(&topology(&[9, 8, 2])), Some(98));
    assert_eq!(Network::<f32>::weight_count(&topology(&[5])), Some(0));
    assert_eq!(Network::<f32>::weight_count(&topology(&[usize::MAX, 0])), Some(0));
    assert_eq!(Network::<f32>::weight_count(&topology(&[usize::MAX, 2])), None);
    assert_eq!(Network::<f32>::weight_count(&topology(&[2, usize::MAX])), None);
}

#[test]
fn random_lifecycle_test() {
    let (input_neurons, output_neurons) = (10, 10);
    let mut rng = StdRng::seed_from_u64(0);
    let weights: Vec<f32> = (0..output_neurons * (input_neurons + 1))
        .map(|_| rng.gen_range(-1.0..1.0))
        .collect();
    let mut cursor = 0;
    let layer = Layer::from_weights(input_neurons, output_neurons, &weights, &mut cursor);
    let mut second_cursor = 0;
    let second_layer = Layer::from_weights(input_neurons, output_neurons, &layer.weights(), &mut second_cursor);

    assert_eq!(layer.rows(), second_layer.rows());
    assert_eq!(layer.biases(), second_layer.biases());
    assert_eq!(cursor, second_cursor);
}
