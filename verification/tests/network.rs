use evolution_sim::{
    Brain, Chromosome, Gene, Layer, Network, NetworkTopology, Neuron, ShapeMismatch, Vision,
};
use rand::rngs::StdRng;
use rand::{Rng, SeedableRng};

#[derive(Debug, Clone, Copy, PartialEq)]
struct Real(f32);

impl Gene for Real {
    fn random(rng: &mut StdRng) -> Self {
        Real(rng.gen_range(-1.0..=1.0))
    }

    fn magnitude(rng: &mut StdRng) -> Self {
        Real(rng.gen::<f32>())
    }

    fn shifted(self, negative: bool, coefficient: Self, magnitude: Self) -> Self {
        let sign = if negative { -1.0 } else { 1.0 };
        Real(self.0 + sign * coefficient.0 * magnitude.0)
    }

    fn activated(bias: Self, weights: &[Self], inputs: &[Self]) -> Self {
        let sum = inputs.iter().zip(weights).map(|(input, weight)| input.0 * weight.0).sum::<f32>();
        Real((bias.0 + sum).max(0.0))
    }
}

fn topology(sizes: &[usize]) -> Vec<NetworkTopology> {
    sizes.iter().map(|&neurons| NetworkTopology { neurons }).collect()
}

fn reals(values: &[f32]) -> Vec<Real> {
    values.iter().map(|&value| Real(value)).collect()
}

#[test]
fn it_works() {
    let result = evolution_sim::network::add(2, 2);
    assert_eq!(result, 4);
}

#[test]
fn add_takes_zero_on_either_side() {
    assert_eq!(evolution_sim::network::add(0, 7), 7);
    assert_eq!(evolution_sim::network::add(7, 0), 7);
}

#[test]
fn from_weights_reads_bias_then_weights_neuron_by_neuron() {
    let layers = topology(&[2, 2, 1]);
    let flat = reals(&[0.1, 0.2, 0.3, 0.4, 0.5, 0.6, 0.7, 0.8, 0.9]);
    let network = Network::from_weights(&layers, &flat).unwrap();
    assert_eq!(network.len(), 2);
    let hidden = network.layer(0);
    assert_eq!(hidden.len(), 2);
    assert_eq!(*hidden.neuron(0).bias(), Real(0.1));
    assert_eq!(hidden.neuron(0).weights(), &[Real(0.2), Real(0.3)]);
    assert_eq!(*hidden.neuron(1).bias(), Real(0.4));
    assert_eq!(hidden.neuron(1).weights(), &[Real(0.5), Real(0.6)]);
    let output = network.layer(1);
    assert_eq!(output.len(), 1);
    assert_eq!(*output.neuron(0).bias(), Real(0.7));
    assert_eq!(output.neuron(0).weights(), &[Real(0.8), Real(0.9)]);
}

#[test]
fn weights_gives_back_what_from_weights_was_given() {
    let layers = topology(&[3, 2, 1]);
    let flat: Vec<Real> = (0..11).map(|i| Real(i as f32 * 0.5 - 2.0)).collect();
    let network = Network::from_weights(&layers, &flat).unwrap();
    assert_eq!(network.weights(), flat);
}

#[test]
fn randomized_network_survives_the_round_trip() {
    let mut rng = StdRng::seed_from_u64(7);
    for sizes in [vec![1, 1], vec![3, 2, 1], vec![4, 8, 2], vec![2, 0, 3], vec![18, 36, 2]] {
        let layers = topology(&sizes);
        let network: Network<Real> = Network::randomize(&mut rng, &layers);
        assert!(network.has_topology(&layers));
        let flat = network.weights();
        let rebuilt = Network::from_weights(&layers, &flat).unwrap();
        assert!(rebuilt.has_topology(&layers));
        assert_eq!(rebuilt.weights(), flat);
    }
}

#[test]
fn randomized_network_has_one_bias_and_one_weight_per_input_for_each_neuron() {
    let mut rng = StdRng::seed_from_u64(11);
    let layers = topology(&[3, 2, 1]);
    let network: Network<Real> = Network::randomize(&mut rng, &layers);
    assert_eq!(network.weights().len(), (3 + 1) * 2 + (2 + 1) * 1);
    assert!(network.weights().iter().all(|gene| (-1.0..=1.0).contains(&gene.0)));
}

#[test]
fn from_weights_reports_too_few_when_one_weight_is_missing() {
    let layers = topology(&[3, 2, 1]);
    let flat = vec![Real(0.0); 10];
    assert_eq!(Network::from_weights(&layers, &flat).err(), Some(ShapeMismatch::TooFewWeights));
}

#[test]
fn from_weights_reports_too_many_when_one_weight_is_left_over() {
    let layers = topology(&[3, 2, 1]);
    let flat = vec![Real(0.0); 12];
    assert_eq!(Network::from_weights(&layers, &flat).err(), Some(ShapeMismatch::TooManyWeights));
}

#[test]
fn from_weights_reports_too_few_on_an_empty_sequence() {
    let layers = topology(&[1, 1]);
    let flat: Vec<Real> = Vec::new();
    assert_eq!(Network::from_weights(&layers, &flat).err(), Some(ShapeMismatch::TooFewWeights));
}

#[test]
fn from_weights_accepts_an_empty_sequence_for_a_topology_without_parameters() {
    let layers = topology(&[5, 0]);
    let flat: Vec<Real> = Vec::new();
    let network = Network::from_weights(&layers, &flat).unwrap();
    assert_eq!(network.len(), 1);
    assert_eq!(network.layer(0).len(), 0);
    assert_eq!(
        Network::from_weights(&layers, &[Real(1.0)]).err(),
        Some(ShapeMismatch::TooManyWeights)
    );
}

#[test]
fn has_topology_tells_shapes_apart() {
    let layers = topology(&[2, 2, 1]);
    let network = Network::from_weights(&layers, &vec![Real(0.0); 9]).unwrap();
    assert!(network.has_topology(&layers));
    assert!(!network.has_topology(&topology(&[2, 2])));
    assert!(!network.has_topology(&topology(&[2, 1, 1])));
    assert!(!network.has_topology(&topology(&[3, 2, 1])));
    assert!(!network.has_topology(&[]));
}

#[test]
fn brain_topology_is_cells_then_twice_the_cells_then_two() {
    let vision = Vision::new(Real(0.25), Real(3.9), 18);
    let layers = Brain::topology(&vision);
    let sizes: Vec<usize> = layers.iter().map(|layer| layer.neurons).collect();
    assert_eq!(sizes, vec![18, 36, 2]);
}

#[test]
fn brain_genome_has_the_length_its_topology_calls_for() {
    let mut rng = StdRng::seed_from_u64(3);
    let vision = Vision::new(Real(0.25), Real(3.9), 18);
    let brain: Brain<Real> = Brain::randomize(&mut rng, &vision);
    let chromosome = brain.as_chromosome();
    assert_eq!(chromosome.len(), (18 + 1) * 36 + (36 + 1) * 2);
    assert_eq!(chromosome.as_slice(), brain.nn.weights().as_slice());
}

#[test]
fn brain_from_chromosome_inverts_as_chromosome() {
    let mut rng = StdRng::seed_from_u64(5);
    let vision = Vision::new(Real(0.25), Real(3.9), 4);
    let brain: Brain<Real> = Brain::randomize(&mut rng, &vision);
    let genes = brain.as_chromosome().into_vec();
    let rebuilt = Brain::from_chromosome(Chromosome::from_vec(genes.clone()), &vision)
        .ok()
        .unwrap();
    assert_eq!(rebuilt.nn.weights(), genes);
}

#[test]
fn brain_from_chromosome_rejects_a_genome_of_another_vision() {
    let mut rng = StdRng::seed_from_u64(5);
    let narrow = Vision::new(Real(0.25), Real(3.9), 4);
    let wide = Vision::new(Real(0.25), Real(3.9), 5);
    let brain: Brain<Real> = Brain::randomize(&mut rng, &narrow);
    assert_eq!(
        Brain::from_chromosome(brain.as_chromosome(), &wide).err(),
        Some(ShapeMismatch::TooFewWeights)
    );
    let brain: Brain<Real> = Brain::randomize(&mut rng, &wide);
    assert_eq!(
        Brain::from_chromosome(brain.as_chromosome(), &narrow).err(),
        Some(ShapeMismatch::TooManyWeights)
    );
}

#[test]
fn chromosome_keeps_order_and_length() {
    let mut chromosome = Chromosome::from_vec(reals(&[1.0, 2.0, 3.0]));
    assert_eq!(chromosome.len(), 3);
    assert_eq!(chromosome.get(0), Real(1.0));
    assert_eq!(chromosome.get(2), Real(3.0));
    chromosome.set(1, Real(9.0));
    assert_eq!(chromosome.as_slice(), &[Real(1.0), Real(9.0), Real(3.0)]);
    assert_eq!(chromosome.into_vec(), reals(&[1.0, 9.0, 3.0]));
}

#[test]
fn neuron_rectifies_the_sum_of_bias_and_weighted_inputs() {
    let (neuron, next) =
        Neuron::from_weights(2, &reals(&[0.1, 0.5, -0.5]), 0).unwrap();
    assert_eq!(next, 3);
    assert_eq!(*neuron.bias(), Real(0.1));
    assert_eq!(neuron.weights(), &[Real(0.5), Real(-0.5)]);
    assert_eq!(0.5 * 2.0 + (-0.5) * 2.0, 0.0_f32);
    assert_eq!(neuron.propagate(&reals(&[2.0, 2.0])), Real(0.1));
}

#[test]
fn neuron_gives_zero_where_the_sum_is_negative() {
    let (neuron, _) = Neuron::from_weights(2, &reals(&[-1.0, 0.5, 0.25]), 0).unwrap();
    assert_eq!(neuron.propagate(&reals(&[1.0, 1.0])), Real(0.0));
    assert_eq!(neuron.propagate(&reals(&[2.0, 4.0])), Real(1.0));
}

#[test]
fn neuron_from_weights_reads_from_the_given_position() {
    let flat = reals(&[9.0, 9.0, 0.1, 0.5, -0.5]);
    let (neuron, next) = Neuron::from_weights(2, &flat, 2).unwrap();
    assert_eq!(next, 5);
    assert_eq!(*neuron.bias(), Real(0.1));
    assert!(Neuron::from_weights(2, &flat, 3).is_none());
    assert!(Neuron::from_weights(0, &flat, 5).is_none());
}

#[test]
fn layer_gives_one_output_per_neuron() {
    let flat = reals(&[0.0, 1.0, 1.0, 0.5, 2.0, -1.0, -10.0, 1.0, 1.0]);
    let (layer, next) = Layer::from_weights(2, 3, &flat, 0).unwrap();
    assert_eq!(next, 9);
    assert!(layer.has_shape(2, 3));
    assert_eq!(layer.propagate(&reals(&[1.0, 2.0])), reals(&[3.0, 0.5, 0.0]));
    assert!(Layer::from_weights(2, 3, &flat, 1).is_none());
}

#[test]
fn network_feeds_each_layer_with_what_the_layer_before_gave() {
    let layers = topology(&[2, 2, 1]);
    let flat = reals(&[0.0, 1.0, 1.0, 1.0, 1.0, -1.0, 0.5, 2.0, 3.0]);
    let network = Network::from_weights(&layers, &flat).unwrap();
    assert_eq!(network.propagate(reals(&[1.0, 2.0])), reals(&[0.5 + 2.0 * 3.0 + 3.0 * 0.0]));
    assert_eq!(network.propagate(reals(&[2.0, 1.0])), reals(&[0.5 + 2.0 * 3.0 + 3.0 * 2.0]));
}

#[test]
fn randomized_brain_answers_with_a_speed_and_a_turn() {
    let mut rng = StdRng::seed_from_u64(13);
    let vision = Vision::new(Real(0.25), Real(3.9), 6);
    let brain: Brain<Real> = Brain::randomize(&mut rng, &vision);
    let answer = brain.nn.propagate(vec![Real(0.5); 6]);
    assert_eq!(answer.len(), 2);
    assert!(answer.iter().all(|value| value.0 >= 0.0));
}

#[test]
fn chromosome_iterates_over_its_genes_in_order() {
    let chromosome = Chromosome::from_vec(reals(&[1.0, 2.0, 3.0]));
    let seen: Vec<Real> = chromosome.iter().copied().collect();
    assert_eq!(seen, reals(&[1.0, 2.0, 3.0]));
    assert_eq!(Chromosome::from_vec(Vec::<Real>::new()).iter().count(), 0);
}

#[test]
fn shape_mismatch_says_what_is_wrong() {
    assert_eq!(ShapeMismatch::TooFewWeights.message(), "got not enough weights");
    assert_eq!(ShapeMismatch::TooManyWeights.message(), "got too many weights");
}
