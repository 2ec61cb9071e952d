//! Feed-forward networks: their shape, and the flat layout of their
//! parameters.
//!
//! A network is laid out layer by layer, neuron by neuron, each neuron giving
//! its bias first and then its input weights in order. The same layout is read
//! back when a network is rebuilt from a flat sequence, so the two directions
//! are inverse to each other for any fixed topology.

use crate::gene::Gene;
use rand::rngs::StdRng;
use vstd::prelude::*;

verus! {

/// The size of one layer.
#[derive(Debug, Clone, Copy)]
pub struct NetworkTopology {
    pub neurons: usize,
}

/// Why a flat sequence could not be turned into a network of a given topology.
#[derive(Debug, Clone, Copy, PartialEq, Eq, Structural)]
pub enum ShapeMismatch {
    /// The sequence ran out while a parameter was still expected.
    TooFewWeights,
    /// Parameters were left over after the last neuron was filled.
    TooManyWeights,
}

impl ShapeMismatch {
    /// The mismatch in words.
    pub fn message(&self) -> (text: String)
        ensures
            text@ == (match self {
                ShapeMismatch::TooFewWeights => "got not enough weights"@,
                ShapeMismatch::TooManyWeights => "got too many weights"@,
            }),
    {
        match self {
            ShapeMismatch::TooFewWeights => "got not enough weights".to_string(),
            ShapeMismatch::TooManyWeights => "got too many weights".to_string(),
        }
    }
}

/// What a neuron is: a bias and one weight per input.
pub ghost struct NeuronModel<G> {
    pub bias: G,
    pub weights: Seq<G>,
}

/// One neuron: a bias and one weight per input.
#[derive(Debug, Clone)]
pub struct Neuron<G> {
    bias: G,
    weights: Vec<G>,
}

/// One layer: its neurons, in order.
#[derive(Debug, Clone)]
pub struct Layer<G> {
    neurons: Vec<Neuron<G>>,
}

/// A feed-forward network: its layers, from the one that reads the inputs to
/// the one that gives the outputs.
#[derive(Debug, Clone)]
pub struct Network<G> {
    layers: Vec<Layer<G>>,
}

impl<G> View for Neuron<G> {
    type V = NeuronModel<G>;

    closed spec fn view(&self) -> NeuronModel<G> {
        NeuronModel { bias: self.bias, weights: self.weights@ }
    }
}

impl<G> View for Layer<G> {
    type V = Seq<NeuronModel<G>>;

    closed spec fn view(&self) -> Seq<NeuronModel<G>> {
        self.neurons@.map_values(|neuron: Neuron<G>| neuron@)
    }
}

impl<G> View for Network<G> {
    type V = Seq<Seq<NeuronModel<G>>>;

    closed spec fn view(&self) -> Seq<Seq<NeuronModel<G>>> {
        self.layers@.map_values(|layer: Layer<G>| layer@)
    }
}

/// The parameters of one neuron in flat order: bias, then weights.
pub open spec fn neuron_flat<G>(neuron: NeuronModel<G>) -> Seq<G> {
    seq![neuron.bias] + neuron.weights
}

/// The parameters of a layer in flat order: neuron after neuron.
pub open spec fn layer_flat<G>(layer: Seq<NeuronModel<G>>) -> Seq<G>
    decreases layer.len(),
{
    if layer.len() == 0 {
        Seq::empty()
    } else {
        layer_flat(layer.drop_last()) + neuron_flat(layer.last())
    }
}

/// The parameters of a network in flat order: layer after layer.
pub open spec fn network_flat<G>(network: Seq<Seq<NeuronModel<G>>>) -> Seq<G>
    decreases network.len(),
{
    if network.len() == 0 {
        Seq::empty()
    } else {
        network_flat(network.drop_last()) + layer_flat(network.last())
    }
}

/// A layer of `outputs` neurons that each read `inputs` values.
pub open spec fn layer_fits<G>(layer: Seq<NeuronModel<G>>, inputs: int, outputs: int) -> bool {
    &&& layer.len() == outputs
    &&& forall|n: int| 0 <= n < layer.len() ==> (#[trigger] layer[n]).weights.len() == inputs
}

/// A network whose layers connect the consecutive sizes of `topology`.
pub open spec fn fits<G>(network: Seq<Seq<NeuronModel<G>>>, topology: Seq<NetworkTopology>) -> bool {
    &&& topology.len() == network.len() + 1
    &&& forall|i: int|
        0 <= i < network.len() ==> layer_fits(
            #[trigger] network[i],
            topology[i].neurons as int,
            topology[i + 1].neurons as int,
        )
}

/// The number of parameters of a network of the given topology: for each pair
/// of consecutive layers, one bias and one weight per input for each output
/// neuron.
pub open spec fn weight_count(topology: Seq<NetworkTopology>) -> int
    decreases topology.len(),
{
    if topology.len() < 2 {
        0
    } else {
        weight_count(topology.drop_last()) + (topology[topology.len() - 2].neurons + 1)
            * topology.last().neurons
    }
}

/// What rebuilding a network of `topology` from `weights` may return: the
/// network that fits the topology and flattens to exactly `weights` when the
/// count is right, and otherwise the error that tells on which side it is off.
pub open spec fn rebuilds<G>(
    topology: Seq<NetworkTopology>,
    weights: Seq<G>,
    outcome: Result<Network<G>, ShapeMismatch>,
) -> bool {
    match outcome {
        Ok(network) => {
            &&& weights.len() == weight_count(topology)
            &&& fits(network@, topology)
            &&& network_flat(network@) == weights
        },
        Err(ShapeMismatch::TooFewWeights) => weights.len() < weight_count(topology),
        Err(ShapeMismatch::TooManyWeights) => weights.len() > weight_count(topology),
    }
}

/// A layer that fits flattens to one bias and `inputs` weights per neuron.
pub proof fn lemma_layer_flat_len<G>(layer: Seq<NeuronModel<G>>, inputs: int, outputs: int)
    requires
        layer_fits(layer, inputs, outputs),
    ensures
        layer_flat(layer).len() == (inputs + 1) * outputs,
    decreases layer.len(),
{
    if layer.len() > 0 {
        lemma_layer_flat_len(layer.drop_last(), inputs, outputs - 1);
        assert((inputs + 1) * (outputs - 1) + (inputs + 1) == (inputs + 1) * outputs)
            by (nonlinear_arith);
    } else {
        assert((inputs + 1) * outputs == 0) by (nonlinear_arith)
            requires
                outputs == 0,
        ;
    }
}

/// A network that fits a topology has exactly as many parameters as the
/// topology calls for.
pub proof fn lemma_network_flat_len<G>(
    network: Seq<Seq<NeuronModel<G>>>,
    topology: Seq<NetworkTopology>,
)
    requires
        fits(network, topology),
    ensures
        network_flat(network).len() == weight_count(topology),
    decreases network.len(),
{
    if network.len() > 0 {
        let last = network.len() - 1;
        assert(fits(network.drop_last(), topology.drop_last())) by {
            assert forall|i: int| 0 <= i < network.drop_last().len() implies layer_fits(
                #[trigger] network.drop_last()[i],
                topology.drop_last()[i].neurons as int,
                topology.drop_last()[i + 1].neurons as int,
            ) by {
                assert(layer_fits(
                    network[i],
                    topology[i].neurons as int,
                    topology[i + 1].neurons as int,
                ));
            }
        }
        lemma_network_flat_len(network.drop_last(), topology.drop_last());
        assert(layer_fits(
            network[last],
            topology[last].neurons as int,
            topology[last + 1].neurons as int,
        ));
        lemma_layer_flat_len(
            network.last(),
            topology[last].neurons as int,
            topology[last + 1].neurons as int,
        );
    }
}

/// Dropping the last layer size never raises the parameter count.
pub proof fn lemma_weight_count_grows(topology: Seq<NetworkTopology>, shorter: int)
    requires
        0 <= shorter <= topology.len(),
    ensures
        0 <= weight_count(topology.subrange(0, shorter)) <= weight_count(topology),
    decreases topology.len() - shorter,
{
    if shorter == topology.len() {
        assert(topology.subrange(0, shorter) =~= topology);
        lemma_weight_count_nonnegative(topology);
    } else {
        lemma_weight_count_grows(topology, shorter + 1);
        let longer = topology.subrange(0, shorter + 1);
        assert(longer.drop_last() =~= topology.subrange(0, shorter));
        lemma_weight_count_nonnegative(topology.subrange(0, shorter));
        if longer.len() >= 2 {
            assert(0 <= (longer[longer.len() - 2].neurons + 1) * longer.last().neurons)
                by (nonlinear_arith);
        } else {
            assert(topology.subrange(0, shorter).len() < 2);
        }
    }
}

/// A parameter count is never negative.
pub proof fn lemma_weight_count_nonnegative(topology: Seq<NetworkTopology>)
    ensures
        0 <= weight_count(topology),
    decreases topology.len(),
{
    if topology.len() >= 2 {
        lemma_weight_count_nonnegative(topology.drop_last());
        assert(0 <= (topology[topology.len() - 2].neurons + 1) * topology.last().neurons)
            by (nonlinear_arith);
    }
}

impl<G: Copy> Neuron<G> {
    /// Reads one neuron with `input_size` weights from `weights`, starting at
    /// `start`: the bias first, then the weights. Returns the neuron and the
    /// position after it, or `None` when fewer than `input_size + 1` values are
    /// left.
    pub fn from_weights(input_size: usize, weights: &[G], start: usize) -> (taken: Option<
        (Neuron<G>, usize),
    >)
        requires
            start <= weights@.len(),
        ensures
            match taken {
                Some((neuron, next)) => {
                    &&& next == start + input_size + 1
                    &&& next <= weights@.len()
                    &&& neuron@.weights.len() == input_size
                    &&& neuron_flat(neuron@) == weights@.subrange(start as int, next as int)
                },
                None => weights@.len() - start <= input_size,
            },
    {
        let total = weights.len();
        if total - start <= input_size {
            return None;
        }
        let bias = weights[start];
        let mut own: Vec<G> = Vec::new();
        let mut k: usize = 0;
        while k < input_size
            invariant
                k <= input_size,
                total == weights@.len(),
                start + input_size + 1 <= total,
                own@ == weights@.subrange(start + 1, start + 1 + k),
            decreases input_size - k,
        {
            own.push(weights[start + 1 + k]);
            k = k + 1;
        }
        let neuron = Neuron { bias, weights: own };
        proof {
            assert(neuron_flat(neuron@) =~= weights@.subrange(
                start as int,
                start + input_size + 1,
            ));
        }
        Some((neuron, start + input_size + 1))
    }

    /// Appends the neuron's parameters to `out`: bias, then weights.
    pub fn append_to(&self, out: &mut Vec<G>)
        ensures
            final(out)@ == old(out)@ + neuron_flat(self@),
    {
        out.push(self.bias);
        let mut k: usize = 0;
        while k < self.weights.len()
            invariant
                k <= self.weights.len(),
                out@ == old(out)@ + seq![self.bias] + self.weights@.subrange(0, k as int),
            decreases self.weights.len() - k,
        {
            out.push(self.weights[k]);
            k = k + 1;
        }
        proof {
            assert(self.weights@.subrange(0, k as int) =~= self.weights@);
            assert(out@ =~= old(out)@ + neuron_flat(self@));
        }
    }
}

impl<G: Copy> Layer<G> {
    /// Reads a layer of `output_size` neurons, each with `input_size` weights,
    /// from `weights`, starting at `start`. Returns the layer and the position
    /// after it, or `None` when the values run out before the layer is full.
    pub fn from_weights(
        input_size: usize,
        output_size: usize,
        weights: &[G],
        start: usize,
    ) -> (taken: Option<(Layer<G>, usize)>)
        requires
            start <= weights@.len(),
        ensures
            match taken {
                Some((layer, next)) => {
                    &&& next == start + (input_size + 1) * output_size
                    &&& next <= weights@.len()
                    &&& layer_fits(layer@, input_size as int, output_size as int)
                    &&& layer_flat(layer@) == weights@.subrange(start as int, next as int)
                },
                None => weights@.len() - start < (input_size + 1) * output_size,
            },
    {
        let mut neurons: Vec<Neuron<G>> = Vec::new();
        let mut position: usize = start;
        let mut n: usize = 0;
        proof {
            assert((input_size + 1) * 0 == 0) by (nonlinear_arith);
            assert(weights@.subrange(start as int, start as int) =~= Seq::<G>::empty());
        }
        while n < output_size
            invariant
                n <= output_size,
                start <= position <= weights@.len(),
                position == start + (input_size + 1) * n,
                neurons@.len() == n,
                layer_fits(
                    neurons@.map_values(|neuron: Neuron<G>| neuron@),
                    input_size as int,
                    n as int,
                ),
                layer_flat(neurons@.map_values(|neuron: Neuron<G>| neuron@)) == weights@.subrange(
                    start as int,
                    position as int,
                ),
            decreases output_size - n,
        {
            let ghost before = neurons@.map_values(|neuron: Neuron<G>| neuron@);
            match Neuron::from_weights(input_size, weights, position) {
                None => {
                    proof {
                        assert((input_size + 1) * (n + 1) <= (input_size + 1) * output_size)
                            by (nonlinear_arith)
                            requires
                                n + 1 <= output_size,
                        ;
                        assert((input_size + 1) * (n + 1) == (input_size + 1) * n + (input_size
                            + 1)) by (nonlinear_arith);
                    }
                    return None;
                },
                Some((neuron, next)) => {
                    neurons.push(neuron);
                    proof {
                        let after = neurons@.map_values(|neuron: Neuron<G>| neuron@);
                        assert(after.drop_last() =~= before);
                        assert(after.last() == neuron@);
                        assert forall|m: int| 0 <= m < after.len() implies (#[trigger] after[m]).weights.len()
                            == input_size by {
                            if m < before.len() {
                                assert(after[m] == before[m]);
                            }
                        }
                        assert((input_size + 1) * (n + 1) == (input_size + 1) * n + (input_size
                            + 1)) by (nonlinear_arith);
                        assert(weights@.subrange(start as int, next as int) =~= weights@.subrange(
                            start as int,
                            position as int,
                        ) + weights@.subrange(position as int, next as int));
                    }
                    position = next;
                },
            }
            n = n + 1;
        }
        Some((Layer { neurons }, position))
    }

    /// Appends the layer's parameters to `out`, neuron after neuron.
    pub fn append_to(&self, out: &mut Vec<G>)
        ensures
            final(out)@ == old(out)@ + layer_flat(self@),
    {
        let mut n: usize = 0;
        while n < self.neurons.len()
            invariant
                n <= self.neurons.len(),
                out@ == old(out)@ + layer_flat(self@.subrange(0, n as int)),
            decreases self.neurons.len() - n,
        {
            self.neurons[n].append_to(out);
            proof {
                assert(self@.subrange(0, n + 1).drop_last() =~= self@.subrange(0, n as int));
                assert(self@.subrange(0, n + 1).last() == self.neurons[n as int]@);
                assert(out@ =~= old(out)@ + layer_flat(self@.subrange(0, n + 1)));
            }
            n = n + 1;
        }
        proof {
            assert(self@.subrange(0, n as int) =~= self@);
        }
    }
}

impl<G: Copy> Network<G> {
    /// The network's parameters as one flat sequence: layer after layer,
    /// neuron after neuron, each neuron's bias before its weights.
    pub fn weights(&self) -> (flat: Vec<G>)
        ensures
            flat@ == network_flat(self@),
    {
        let mut flat: Vec<G> = Vec::new();
        let mut i: usize = 0;
        while i < self.layers.len()
            invariant
                i <= self.layers.len(),
                flat@ == network_flat(self@.subrange(0, i as int)),
            decreases self.layers.len() - i,
        {
            self.layers[i].append_to(&mut flat);
            proof {
                assert(self@.subrange(0, i + 1).drop_last() =~= self@.subrange(0, i as int));
                assert(self@.subrange(0, i + 1).last() == self.layers[i as int]@);
            }
            i = i + 1;
        }
        proof {
            assert(self@.subrange(0, i as int) =~= self@);
        }
        flat
    }

    /// Rebuilds a network of the given topology from its flat parameters,
    /// reading them in the order in which [`Network::weights`] lays them out.
    ///
    /// Fails with `TooFewWeights` when the sequence is shorter than the
    /// topology's parameter count and with `TooManyWeights` when it is longer.
    pub fn from_weights(layers: &[NetworkTopology], weights: &[G]) -> (outcome: Result<
        Network<G>,
        ShapeMismatch,
    >)
        requires
            layers@.len() > 1,
        ensures
            rebuilds(layers@, weights@, outcome),
    {
        let mut built: Vec<Layer<G>> = Vec::new();
        let mut position: usize = 0;
        let mut i: usize = 0;
        let count = layers.len();
        proof {
            assert(weights@.subrange(0, 0) =~= Seq::<G>::empty());
            assert(layers@.subrange(0, 1).len() == 1);
        }
        while i + 1 < count
            invariant
                count == layers@.len(),
                i + 1 <= count,
                position <= weights@.len(),
                position == weight_count(layers@.subrange(0, i + 1)),
                fits(built@.map_values(|layer: Layer<G>| layer@), layers@.subrange(0, i + 1)),
                network_flat(built@.map_values(|layer: Layer<G>| layer@)) == weights@.subrange(
                    0,
                    position as int,
                ),
            decreases count - i,
        {
            let ghost before = built@.map_values(|layer: Layer<G>| layer@);
            let ghost longer = layers@.subrange(0, i + 2);
            proof {
                assert(longer.drop_last() =~= layers@.subrange(0, i + 1));
                assert(longer[longer.len() - 2] == layers@[i as int]);
                assert(longer.last() == layers@[i + 1]);
                lemma_weight_count_grows(layers@, i + 2);
            }
            match Layer::from_weights(layers[i].neurons, layers[i + 1].neurons, weights, position) {
                None => {
                    return Err(ShapeMismatch::TooFewWeights);
                },
                Some((layer, next)) => {
                    built.push(layer);
                    proof {
                        let after = built@.map_values(|layer: Layer<G>| layer@);
                        assert(after.drop_last() =~= before);
                        assert(after.last() == layer@);
                        assert(weights@.subrange(0, next as int) =~= weights@.subrange(
                            0,
                            position as int,
                        ) + weights@.subrange(position as int, next as int));
                        assert forall|k: int| 0 <= k < after.len() implies layer_fits(
                            #[trigger] after[k],
                            longer[k].neurons as int,
                            longer[k + 1].neurons as int,
                        ) by {
                            if k < before.len() {
                                assert(after[k] == before[k]);
                                assert(layer_fits(
                                    before[k],
                                    layers@.subrange(0, i + 1)[k].neurons as int,
                                    layers@.subrange(0, i + 1)[k + 1].neurons as int,
                                ));
                            }
                        }
                    }
                    position = next;
                },
            }
            i = i + 1;
        }
        proof {
            assert(layers@.subrange(0, i + 1) =~= layers@);
        }
        if position < weights.len() {
            return Err(ShapeMismatch::TooManyWeights);
        }
        proof {
            assert(weights@.subrange(0, position as int) =~= weights@);
        }
        Ok(Network { layers: built })
    }
}

impl<G: Gene> Neuron<G> {
    /// A neuron with `input_size` weights, the bias drawn first and the
    /// weights after it.
    pub fn randomize(rng: &mut StdRng, input_size: usize) -> (neuron: Neuron<G>)
        ensures
            neuron@.weights.len() == input_size,
    {
        let bias = G::random(rng);
        let mut weights: Vec<G> = Vec::new();
        let mut k: usize = 0;
        while k < input_size
            invariant
                k <= input_size,
                weights@.len() == k,
            decreases input_size - k,
        {
            weights.push(G::random(rng));
            k = k + 1;
        }
        Neuron { bias, weights }
    }
}

impl<G: Gene> Layer<G> {
    /// A layer of `output_neurons` freshly drawn neurons that each read
    /// `input_neurons` values.
    pub fn randomize(rng: &mut StdRng, input_neurons: usize, output_neurons: usize) -> (layer:
        Layer<G>)
        ensures
            layer_fits(layer@, input_neurons as int, output_neurons as int),
    {
        let mut neurons: Vec<Neuron<G>> = Vec::new();
        let mut n: usize = 0;
        while n < output_neurons
            invariant
                n <= output_neurons,
                layer_fits(
                    neurons@.map_values(|neuron: Neuron<G>| neuron@),
                    input_neurons as int,
                    n as int,
                ),
            decreases output_neurons - n,
        {
            let ghost before = neurons@.map_values(|neuron: Neuron<G>| neuron@);
            let neuron = Neuron::randomize(rng, input_neurons);
            neurons.push(neuron);
            proof {
                let after = neurons@.map_values(|neuron: Neuron<G>| neuron@);
                assert forall|m: int| 0 <= m < after.len() implies (#[trigger] after[m]).weights.len()
                    == input_neurons by {
                    if m < before.len() {
                        assert(after[m] == before[m]);
                    }
                }
            }
            n = n + 1;
        }
        Layer { neurons }
    }
}

impl<G: Gene> Network<G> {
    /// A network of the given topology with every parameter freshly drawn, in
    /// flat order.
    pub fn randomize(rng: &mut StdRng, layers: &[NetworkTopology]) -> (network: Network<G>)
        requires
            layers@.len() > 1,
        ensures
            fits(network@, layers@),
    {
        let mut built: Vec<Layer<G>> = Vec::new();
        let mut i: usize = 0;
        let count = layers.len();
        while i + 1 < count
            invariant
                count == layers@.len(),
                i + 1 <= count,
                fits(built@.map_values(|layer: Layer<G>| layer@), layers@.subrange(0, i + 1)),
            decreases count - i,
        {
            let ghost before = built@.map_values(|layer: Layer<G>| layer@);
            let layer = Layer::randomize(rng, layers[i].neurons, layers[i + 1].neurons);
            built.push(layer);
            proof {
                let after = built@.map_values(|layer: Layer<G>| layer@);
                let longer = layers@.subrange(0, i + 2);
                assert forall|k: int| 0 <= k < after.len() implies layer_fits(
                    #[trigger] after[k],
                    longer[k].neurons as int,
                    longer[k + 1].neurons as int,
                ) by {
                    if k < before.len() {
                        assert(after[k] == before[k]);
                        assert(layer_fits(
                            before[k],
                            layers@.subrange(0, i + 1)[k].neurons as int,
                            layers@.subrange(0, i + 1)[k + 1].neurons as int,
                        ));
                    }
                }
            }
            i = i + 1;
        }
        proof {
            assert(layers@.subrange(0, i + 1) =~= layers@);
        }
        Network { layers: built }
    }
}

/// A neuron is determined by its flat form.
pub proof fn lemma_neuron_flat_injective<G>(one: NeuronModel<G>, other: NeuronModel<G>)
    requires
        neuron_flat(one) == neuron_flat(other),
    ensures
        one == other,
{
    assert(neuron_flat(one)[0] == one.bias);
    assert(neuron_flat(other)[0] == other.bias);
    assert(one.weights =~= neuron_flat(one).subrange(1, neuron_flat(one).len() as int));
    assert(other.weights =~= neuron_flat(other).subrange(1, neuron_flat(other).len() as int));
}

/// Two sequences that agree after equally long tails are appended agree
/// themselves, and so do the tails.
proof fn lemma_split_concat<G>(head: Seq<G>, tail: Seq<G>, other_head: Seq<G>, other_tail: Seq<G>)
    requires
        head + tail == other_head + other_tail,
        tail.len() == other_tail.len(),
    ensures
        head == other_head,
        tail == other_tail,
{
    let whole = head + tail;
    assert(whole.len() == head.len() + tail.len());
    assert(whole.len() == other_head.len() + other_tail.len());
    assert(head =~= whole.subrange(0, head.len() as int));
    assert(other_head =~= whole.subrange(0, head.len() as int));
    assert(tail =~= whole.subrange(head.len() as int, whole.len() as int));
    assert(other_tail =~= whole.subrange(head.len() as int, whole.len() as int));
}

/// Among the layers of one size, a layer is determined by its flat form.
pub proof fn lemma_layer_flat_injective<G>(
    one: Seq<NeuronModel<G>>,
    other: Seq<NeuronModel<G>>,
    inputs: int,
    outputs: int,
)
    requires
        layer_fits(one, inputs, outputs),
        layer_fits(other, inputs, outputs),
        layer_flat(one) == layer_flat(other),
    ensures
        one == other,
    decreases one.len(),
{
    if one.len() > 0 {
        assert(neuron_flat(one.last()).len() == inputs + 1);
        assert(neuron_flat(other.last()).len() == inputs + 1);
        lemma_split_concat(
            layer_flat(one.drop_last()),
            neuron_flat(one.last()),
            layer_flat(other.drop_last()),
            neuron_flat(other.last()),
        );
        lemma_layer_flat_injective(one.drop_last(), other.drop_last(), inputs, outputs - 1);
        lemma_neuron_flat_injective(one.last(), other.last());
        assert(one =~= one.drop_last().push(one.last()));
        assert(other =~= other.drop_last().push(other.last()));
    } else {
        assert(one =~= other);
    }
}

/// Among the networks of one topology, a network is determined by its flat
/// form.
pub proof fn lemma_network_flat_injective<G>(
    one: Seq<Seq<NeuronModel<G>>>,
    other: Seq<Seq<NeuronModel<G>>>,
    topology: Seq<NetworkTopology>,
)
    requires
        fits(one, topology),
        fits(other, topology),
        network_flat(one) == network_flat(other),
    ensures
        one == other,
    decreases one.len(),
{
    if one.len() > 0 {
        let last = one.len() - 1;
        let inputs = topology[last].neurons as int;
        let outputs = topology[last + 1].neurons as int;
        assert(layer_fits(one[last], inputs, outputs));
        assert(layer_fits(other[last], inputs, outputs));
        lemma_layer_flat_len(one.last(), inputs, outputs);
        lemma_layer_flat_len(other.last(), inputs, outputs);
        lemma_split_concat(
            network_flat(one.drop_last()),
            layer_flat(one.last()),
            network_flat(other.drop_last()),
            layer_flat(other.last()),
        );
        assert(fits(one.drop_last(), topology.drop_last())) by {
            assert forall|i: int| 0 <= i < one.drop_last().len() implies layer_fits(
                #[trigger] one.drop_last()[i],
                topology.drop_last()[i].neurons as int,
                topology.drop_last()[i + 1].neurons as int,
            ) by {
                assert(layer_fits(one[i], topology[i].neurons as int, topology[i + 1].neurons as int));
            }
        }
        assert(fits(other.drop_last(), topology.drop_last())) by {
            assert forall|i: int| 0 <= i < other.drop_last().len() implies layer_fits(
                #[trigger] other.drop_last()[i],
                topology.drop_last()[i].neurons as int,
                topology.drop_last()[i + 1].neurons as int,
            ) by {
                assert(layer_fits(
                    other[i],
                    topology[i].neurons as int,
                    topology[i + 1].neurons as int,
                ));
            }
        }
        lemma_network_flat_injective(one.drop_last(), other.drop_last(), topology.drop_last());
        lemma_layer_flat_injective(one.last(), other.last(), inputs, outputs);
        assert(one =~= one.drop_last().push(one.last()));
        assert(other =~= other.drop_last().push(other.last()));
    } else {
        assert(one =~= other);
    }
}

/// Flattening and rebuilding are inverse to each other: rebuilding a network
/// from its own flat parameters, against its own topology, always succeeds and
/// gives the same network back, which therefore flattens to the same sequence
/// again.
pub proof fn lemma_rebuild_inverts_flatten<G>(
    network: Network<G>,
    topology: Seq<NetworkTopology>,
    outcome: Result<Network<G>, ShapeMismatch>,
)
    requires
        topology.len() >= 2,
        fits(network@, topology),
        rebuilds(topology, network_flat(network@), outcome),
    ensures
        outcome matches Ok(rebuilt) && rebuilt@ == network@ && network_flat(rebuilt@)
            == network_flat(network@),
{
    lemma_network_flat_len(network@, topology);
    match outcome {
        Ok(rebuilt) => {
            lemma_network_flat_injective(rebuilt@, network@, topology);
        },
        Err(_) => {},
    }
}

/// The sum of two sizes.
pub fn add(left: usize, right: usize) -> (sum: usize)
    requires
        left + right <= usize::MAX,
    ensures
        sum == left + right,
{
    left + right
}

impl<G> Neuron<G> {
    /// The neuron's bias.
    pub fn bias(&self) -> (bias: &G)
        ensures
            *bias == self@.bias,
    {
        &self.bias
    }

    /// The neuron's weights, one per input.
    pub fn weights(&self) -> (weights: &[G])
        ensures
            weights@ == self@.weights,
    {
        self.weights.as_slice()
    }
}

impl<G> Layer<G> {
    /// The number of neurons in the layer.
    pub fn len(&self) -> (count: usize)
        ensures
            count == self@.len(),
    {
        self.neurons.len()
    }

    /// The neuron at `index`.
    pub fn neuron(&self, index: usize) -> (neuron: &Neuron<G>)
        requires
            index < self@.len(),
        ensures
            neuron@ == self@[index as int],
    {
        &self.neurons[index]
    }

    /// Whether the layer has `outputs` neurons that each read `inputs` values.
    pub fn has_shape(&self, inputs: usize, outputs: usize) -> (answer: bool)
        ensures
            answer == layer_fits(self@, inputs as int, outputs as int),
    {
        if self.neurons.len() != outputs {
            return false;
        }
        let mut n: usize = 0;
        while n < self.neurons.len()
            invariant
                n <= self.neurons.len(),
                self@.len() == outputs,
                forall|m: int| 0 <= m < n ==> (#[trigger] self@[m]).weights.len() == inputs,
            decreases self.neurons.len() - n,
        {
            if self.neurons[n].weights.len() != inputs {
                proof {
                    assert(self@[n as int].weights.len() != inputs);
                }
                return false;
            }
            n = n + 1;
        }
        true
    }
}

impl<G> Network<G> {
    /// The number of layers of neurons, one less than the number of sizes in
    /// the network's topology.
    pub fn len(&self) -> (count: usize)
        ensures
            count == self@.len(),
    {
        self.layers.len()
    }

    /// The layer at `index`.
    pub fn layer(&self, index: usize) -> (layer: &Layer<G>)
        requires
            index < self@.len(),
        ensures
            layer@ == self@[index as int],
    {
        &self.layers[index]
    }

    /// Whether the network's layers connect the consecutive sizes of `layers`.
    pub fn has_topology(&self, layers: &[NetworkTopology]) -> (answer: bool)
        ensures
            answer == fits(self@, layers@),
    {
        let count = self.layers.len();
        if layers.len() == 0 || layers.len() - 1 != count {
            return false;
        }
        let mut i: usize = 0;
        while i < count
            invariant
                count == self@.len(),
                layers@.len() == count + 1,
                i <= count,
                forall|k: int|
                    0 <= k < i ==> layer_fits(
                        #[trigger] self@[k],
                        layers@[k].neurons as int,
                        layers@[k + 1].neurons as int,
                    ),
            decreases count - i,
        {
            if !self.layers[i].has_shape(layers[i].neurons, layers[i + 1].neurons) {
                proof {
                    assert(!layer_fits(
                        self@[i as int],
                        layers@[i as int].neurons as int,
                        layers@[i + 1].neurons as int,
                    ));
                }
                return false;
            }
            i = i + 1;
        }
        true
    }
}

/// `output` is what the gene type's activation gives for `neuron` on `inputs`.
pub open spec fn fires<G: Gene>(neuron: NeuronModel<G>, inputs: Seq<G>, output: G) -> bool {
    exists|weights: &[G], given: &[G]|
        weights@ == neuron.weights && given@ == inputs && #[trigger] call_ensures(
            G::activated,
            (neuron.bias, weights, given),
            output,
        )
}

/// `outputs` holds, neuron by neuron, what the neurons of `layer` give on
/// `inputs`.
pub open spec fn layer_fires<G: Gene>(
    layer: Seq<NeuronModel<G>>,
    inputs: Seq<G>,
    outputs: Seq<G>,
) -> bool {
    &&& outputs.len() == layer.len()
    &&& forall|n: int| 0 <= n < layer.len() ==> fires(layer[n], inputs, #[trigger] outputs[n])
}

/// `outputs` is what `network` gives on `inputs`: the inputs themselves where
/// the network has no layer, and otherwise what its last layer gives on what
/// the layers before it give.
pub open spec fn network_fires<G: Gene>(
    network: Seq<Seq<NeuronModel<G>>>,
    inputs: Seq<G>,
    outputs: Seq<G>,
) -> bool
    decreases network.len(),
{
    if network.len() == 0 {
        outputs == inputs
    } else {
        exists|hidden: Seq<G>|
            network_fires(network.drop_last(), inputs, hidden) && #[trigger] layer_fires(
                network.last(),
                hidden,
                outputs,
            )
    }
}

/// The number of values that come out of `network` when `inputs` values go in.
pub open spec fn output_width<G>(network: Seq<Seq<NeuronModel<G>>>, inputs: int) -> int {
    if network.len() == 0 {
        inputs
    } else {
        network.last().len() as int
    }
}

/// `network` can take `inputs` values: every neuron of its first layer reads
/// that many, and every neuron of a later layer reads as many as the layer
/// before it has neurons.
pub open spec fn accepts<G>(network: Seq<Seq<NeuronModel<G>>>, inputs: int) -> bool {
    forall|i: int|
        0 <= i < network.len() ==> layer_fits(
            #[trigger] network[i],
            output_width(network.subrange(0, i), inputs),
            network[i].len() as int,
        )
}

/// A network that fits a topology accepts as many inputs as the topology's
/// first size says, and gives as many outputs as its last size says.
pub proof fn lemma_fitting_network_accepts<G>(
    network: Seq<Seq<NeuronModel<G>>>,
    topology: Seq<NetworkTopology>,
)
    requires
        fits(network, topology),
    ensures
        accepts(network, topology[0].neurons as int),
        output_width(network, topology[0].neurons as int) == topology.last().neurons,
{
    assert forall|i: int| 0 <= i < network.len() implies layer_fits(
        #[trigger] network[i],
        output_width(network.subrange(0, i), topology[0].neurons as int),
        network[i].len() as int,
    ) by {
        assert(layer_fits(network[i], topology[i].neurons as int, topology[i + 1].neurons as int));
        if i > 0 {
            assert(network.subrange(0, i).last() == network[i - 1]);
            assert(layer_fits(
                network[i - 1],
                topology[i - 1].neurons as int,
                topology[i].neurons as int,
            ));
        }
    }
    if network.len() > 0 {
        assert(layer_fits(
            network[network.len() - 1],
            topology[network.len() - 1].neurons as int,
            topology[network.len() as int].neurons as int,
        ));
    }
}

impl<G: Gene> Neuron<G> {
    /// The neuron's output for `inputs`, of which there have to be as many as
    /// the neuron has weights.
    pub fn propagate(&self, inputs: &[G]) -> (output: G)
        requires
            inputs@.len() == self@.weights.len(),
        ensures
            fires(self@, inputs@, output),
    {
        let weights = self.weights.as_slice();
        let output = G::activated(self.bias, weights, inputs);
        proof {
            assert(call_ensures(G::activated, (self@.bias, weights, inputs), output));
        }
        output
    }
}

impl<G: Gene> Layer<G> {
    /// The outputs of the layer's neurons for `inputs`, in neuron order. Every
    /// neuron has to have as many weights as there are inputs.
    pub fn propagate(&self, inputs: &[G]) -> (outputs: Vec<G>)
        requires
            layer_fits(self@, inputs@.len() as int, self@.len() as int),
        ensures
            layer_fires(self@, inputs@, outputs@),
    {
        let mut outputs: Vec<G> = Vec::new();
        let mut n: usize = 0;
        while n < self.neurons.len()
            invariant
                n <= self.neurons.len(),
                layer_fits(self@, inputs@.len() as int, self@.len() as int),
                outputs@.len() == n,
                forall|m: int| 0 <= m < n ==> fires(self@[m], inputs@, #[trigger] outputs@[m]),
            decreases self.neurons.len() - n,
        {
            proof {
                assert(self@[n as int].weights.len() == inputs@.len());
            }
            let output = self.neurons[n].propagate(inputs);
            outputs.push(output);
            n = n + 1;
        }
        outputs
    }
}

impl<G: Gene> Network<G> {
    /// Feeds `inputs` through the layers in order, each layer reading what the
    /// one before it gave; the result is what the last layer gives. The
    /// network has to accept as many values as `inputs` holds.
    pub fn propagate(&self, inputs: Vec<G>) -> (outputs: Vec<G>)
        requires
            accepts(self@, inputs@.len() as int),
        ensures
            network_fires(self@, inputs@, outputs@),
            outputs@.len() == output_width(self@, inputs@.len() as int),
    {
        let ghost given = inputs@;
        let mut current = inputs;
        let mut i: usize = 0;
        proof {
            assert(self@.subrange(0, 0) =~= Seq::<Seq<NeuronModel<G>>>::empty());
        }
        while i < self.layers.len()
            invariant
                i <= self.layers.len(),
                accepts(self@, given.len() as int),
                network_fires(self@.subrange(0, i as int), given, current@),
                current@.len() == output_width(self@.subrange(0, i as int), given.len() as int),
            decreases self.layers.len() - i,
        {
            let ghost hidden = current@;
            proof {
                assert(layer_fits(
                    self@[i as int],
                    output_width(self@.subrange(0, i as int), given.len() as int),
                    self@[i as int].len() as int,
                ));
            }
            current = self.layers[i].propagate(current.as_slice());
            proof {
                let longer = self@.subrange(0, i + 1);
                assert(longer.len() == i + 1);
                assert(longer.drop_last() =~= self@.subrange(0, i as int));
                assert(longer.last() == self@[i as int]);
                assert(self.layers[i as int]@ == self@[i as int]);
                assert(network_fires(longer.drop_last(), given, hidden));
                assert(layer_fires(longer.last(), hidden, current@));
                assert(network_fires(longer, given, current@));
            }
            i = i + 1;
        }
        proof {
            assert(self@.subrange(0, i as int) =~= self@);
        }
        current
    }
}

} // verus!
