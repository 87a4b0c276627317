//! A feed-forward neural network over any representation of the real
//! numbers: its construction with random weights and its evaluation.

use crate::scalar::{deterministic, thread_rng, Scalar, ScalarSpec};
use rand::rngs::ThreadRng;
use vstd::prelude::*;

verus! {

/// An activation function: the transform applied to the weighted sum of each
/// node. It may be implemented elsewhere.
pub trait ActivationFunction<T: Scalar> {
    /// Performs the activation function on the given value.
    fn perform(&self, val: T) -> T;
}

/// A name for what an [`ActivationFunction`] returns.
pub trait ActivationSpec<T: Scalar>: ActivationFunction<T> {
    /// What [`ActivationFunction::perform`] returns for `val`: a value that
    /// it can return, which is the value it returns where it is a function
    /// of `self` and `val`.
    spec fn apply(&self, val: T) -> T;
}

impl<T: Scalar, A: ActivationFunction<T>> ActivationSpec<T> for A {
    open spec fn apply(&self, val: T) -> T {
        choose|r: T| #[trigger] call_ensures(A::perform, (self, val), r)
    }
}

/// Whether the activation functions of type `A` are functions of the value
/// they are performed on: whether the same value always gives the same
/// result.
pub open spec fn deterministic_activation<T: Scalar, A: ActivationFunction<T>>() -> bool {
    forall|activation: A, val: T, r1: T, r2: T|
        #[trigger] call_ensures(A::perform, (&activation, val), r1) && #[trigger] call_ensures(
            A::perform,
            (&activation, val),
            r2,
        ) ==> r1 == r2
}

/// The activation functions that come with the network.
#[derive(Debug, Copy, Clone, Eq, PartialEq, Structural)]
pub enum NNActivation {
    /// The logistic sigmoid, `1 / (1 + e^-x)`.
    Sigmoid,
}

/// The logistic sigmoid of `val`, `1 / (1 + e^-val)`, in the operations of
/// the representation.
pub open spec fn sigmoid<T: Scalar>(val: T) -> T {
    T::ratio(1, 1).quotient(T::ratio(1, 1).sum(val.negation().exponential()))
}

impl<T: Scalar> ActivationFunction<T> for NNActivation {
    fn perform(&self, val: T) -> (r: T)
        ensures
            deterministic::<T>() ==> r == match self {
                NNActivation::Sigmoid => sigmoid(val),
            },
    {
        match self {
            NNActivation::Sigmoid => {
                let one = T::from_ratio(1, 1);
                one.over(one.plus(val.negated().exp()))
            },
        }
    }
}

/// Why a network could not be created.
#[derive(Debug, Copy, Clone, Eq, PartialEq, Structural)]
pub enum NNCreateError {
    /// Fewer than two layer sizes were given.
    Min2Layers,
    /// A layer size was zero.
    EmptyLayer,
}

impl NNCreateError {
    /// The error in words.
    pub fn message(&self) -> (text: String)
        ensures
            text@ == match *self {
                NNCreateError::Min2Layers =>
                    "neural network must have at least an input layer and output layer"@,
                NNCreateError::EmptyLayer =>
                    "each layer of neural network must have at least one node"@,
            },
    {
        match self {
            NNCreateError::Min2Layers => String::from_str(
                "neural network must have at least an input layer and output layer",
            ),
            NNCreateError::EmptyLayer => String::from_str(
                "each layer of neural network must have at least one node",
            ),
        }
    }
}

/// A single node in a neural network: its bias, then one weight for each
/// value of the previous layer.
#[derive(Debug, Clone)]
pub struct NNNode<T: Scalar>(pub Vec<T>);

impl<T: Scalar> View for NNNode<T> {
    type V = Seq<T>;

    open spec fn view(&self) -> Seq<T> {
        self.0@
    }
}

impl<T: Scalar> core::ops::Deref for NNNode<T> {
    type Target = Vec<T>;

    fn deref(&self) -> (weights: &Vec<T>)
        ensures
            weights@ == self@,
    {
        &self.0
    }
}

/// A single layer in a neural network: its nodes.
#[derive(Debug, Clone)]
pub struct NNLayer<T: Scalar>(pub Vec<NNNode<T>>);

impl<T: Scalar> View for NNLayer<T> {
    type V = Seq<Seq<T>>;

    open spec fn view(&self) -> Seq<Seq<T>> {
        Seq::new(self.0@.len(), |n: int| self.0@[n]@)
    }
}

impl<T: Scalar> core::ops::Deref for NNLayer<T> {
    type Target = Vec<NNNode<T>>;

    fn deref(&self) -> (nodes: &Vec<NNNode<T>>)
        ensures
            *nodes == self.0,
    {
        &self.0
    }
}

/// The weights of the layers `layers`, node by node.
pub open spec fn layers_view<T: Scalar>(layers: Seq<NNLayer<T>>) -> Seq<Seq<Seq<T>>> {
    Seq::new(layers.len(), |l: int| layers[l]@)
}

/// A neural network as a mathematical value.
pub struct NNModel<T> {
    /// The weights: for each layer after the input layer, for each of its
    /// nodes, the bias followed by one weight per value of the layer before.
    pub layers: Seq<Seq<Seq<T>>>,
    /// The number of values that the network takes.
    pub num_inputs: nat,
}

impl<T: Scalar> NNModel<T> {
    /// The number of values in layer `i`, where layer 0 is the input and
    /// layer `i + 1` is `self.layers[i]`.
    pub open spec fn size(self, i: int) -> nat {
        if i == 0 {
            self.num_inputs
        } else {
            self.layers[i - 1].len()
        }
    }

    /// The layer sizes, input layer first.
    pub open spec fn sizes(self) -> Seq<nat> {
        Seq::new(self.layers.len() + 1, |i: int| self.size(i))
    }

    /// There is an input and an output layer, no layer is empty, and every
    /// node has a bias and one weight for each value of the layer before it.
    pub open spec fn wf(self) -> bool {
        &&& self.num_inputs >= 1
        &&& self.layers.len() >= 1
        &&& forall|l: int| 0 <= l < self.layers.len() ==> (#[trigger] self.layers[l]).len() >= 1
        &&& forall|l: int, n: int|
            0 <= l < self.layers.len() && 0 <= n < self.layers[l].len() ==> (
            #[trigger] self.layers[l][n]).len() == self.size(l) + 1
    }

    /// Whether every weight of the network, the biases included, is a value
    /// that can be drawn from `low ..= high`.
    pub open spec fn drawn_from(self, low: T, high: T) -> bool {
        forall|l: int, n: int, w: int|
            0 <= l < self.layers.len() && 0 <= n < self.layers[l].len() && 0 <= w
                < self.layers[l][n].len() ==> drawable(low, high, #[trigger] self.layers[l][n][w])
    }

    /// What the network computes from `inputs` with `activation`: the values
    /// of its last layer.
    pub open spec fn output<A: ActivationFunction<T>>(self, activation: A, inputs: Seq<T>) -> Seq<
        T,
    > {
        forward(activation, self.layers, inputs, self.layers.len())
    }
}

/// The bias of `node` plus the first `k` products of a weight and the value
/// it belongs to, added from left to right.
pub open spec fn weighted_sum<T: Scalar>(node: Seq<T>, values: Seq<T>, k: nat) -> T
    decreases k,
{
    if k == 0 {
        node[0]
    } else {
        weighted_sum(node, values, (k - 1) as nat).sum(node[k as int].product(values[k - 1]))
    }
}

/// The value of a node: the activation of its bias plus the dot product of
/// its weights with `values`.
pub open spec fn node_output<T: Scalar, A: ActivationFunction<T>>(
    activation: A,
    node: Seq<T>,
    values: Seq<T>,
) -> T {
    activation.apply(weighted_sum(node, values, values.len()))
}

/// The values of a layer, given the values of the layer before it.
pub open spec fn layer_output<T: Scalar, A: ActivationFunction<T>>(
    activation: A,
    layer: Seq<Seq<T>>,
    values: Seq<T>,
) -> Seq<T> {
    Seq::new(layer.len(), |n: int| node_output(activation, layer[n], values))
}

/// The values of layer `k` when the network is fed `inputs`: the inputs
/// themselves for `k == 0`, else the values of `layers[k - 1]`.
pub open spec fn forward<T: Scalar, A: ActivationFunction<T>>(
    activation: A,
    layers: Seq<Seq<Seq<T>>>,
    inputs: Seq<T>,
    k: nat,
) -> Seq<T>
    decreases k,
{
    if k == 0 {
        inputs
    } else {
        layer_output(activation, layers[k - 1], forward(activation, layers, inputs, (k - 1) as nat))
    }
}

/// The sigmoid is a function of the value it is performed on where the
/// operations of the representation are functions of their operands.
pub proof fn lemma_sigmoid_deterministic<T: Scalar>()
    requires
        deterministic::<T>(),
    ensures
        deterministic_activation::<T, NNActivation>(),
{
}

/// The error that creating a network with these layer sizes gives, if any.
pub open spec fn create_error(sizes: Seq<u32>) -> Option<NNCreateError> {
    if sizes.len() < 2 {
        Some(NNCreateError::Min2Layers)
    } else if exists|i: int| 0 <= i < sizes.len() && sizes[i] == 0 {
        Some(NNCreateError::EmptyLayer)
    } else {
        None
    }
}

/// The values of layer `k` of a well-formed network are as many as the layer
/// has nodes.
pub proof fn lemma_forward_len<T: Scalar, A: ActivationFunction<T>>(
    activation: A,
    net: NNModel<T>,
    inputs: Seq<T>,
    k: nat,
)
    requires
        inputs.len() == net.num_inputs,
        k <= net.layers.len(),
    ensures
        forward(activation, net.layers, inputs, k).len() == net.size(k as int),
{
}

/// Whether `value` is a value that [`Scalar::sample_inclusive`] can return
/// when it is asked to draw from `low ..= high`.
pub open spec fn drawable<T: Scalar>(low: T, high: T, value: T) -> bool {
    exists|rng: &mut ThreadRng|
        #[trigger] call_ensures(T::sample_inclusive, (rng, low, high), value)
}

/// The least and the greatest weight that a new network can be given: minus
/// one half and one half.
pub fn weight_range<T: Scalar>() -> (range: (T, T))
    ensures
        deterministic::<T>() ==> range == (T::ratio(-1i32, 2), T::ratio(1, 2)),
{
    (T::from_ratio(-1, 2), T::from_ratio(1, 2))
}

/// Calculates a single node's value before activation: its bias plus the dot
/// product of its weights with the values of the previous layer.
fn modified_dotprod<T: Scalar>(node: &Vec<T>, values: &Vec<T>) -> (total: T)
    requires
        node@.len() == values@.len() + 1,
    ensures
        deterministic::<T>() ==> total == weighted_sum(node@, values@, values@.len()),
{
    let mut total = node[0];
    let mut k: usize = 0;
    while k < values.len()
        invariant
            node@.len() == values@.len() + 1,
            k <= values@.len(),
            deterministic::<T>() ==> total == weighted_sum(node@, values@, k as nat),
        decreases values@.len() - k,
    {
        total = total.plus(node[k + 1].times(values[k]));
        k = k + 1;
    }
    total
}

/// A neural network.
#[derive(Debug)]
pub struct NN<T: Scalar> {
    layers: Vec<NNLayer<T>>,
    num_inputs: u32,
}

impl<T: Scalar> View for NN<T> {
    type V = NNModel<T>;

    closed spec fn view(&self) -> NNModel<T> {
        NNModel { layers: layers_view(self.layers@), num_inputs: self.num_inputs as nat }
    }
}

impl<T: Scalar> Clone for NN<T> {
    fn clone(&self) -> (copy: Self)
        ensures
            copy@ == self@,
    {
        proof {
            use_type_invariant(self);
        }
        let mut layers: Vec<NNLayer<T>> = Vec::new();
        let mut l: usize = 0;
        while l < self.layers.len()
            invariant
                l <= self.layers@.len(),
                layers@.len() == l,
                forall|i: int| 0 <= i < l ==> (#[trigger] layers@[i])@ == self.layers@[i]@,
            decreases self.layers@.len() - l,
        {
            let mut nodes: Vec<NNNode<T>> = Vec::new();
            let mut n: usize = 0;
            while n < self.layers[l].0.len()
                invariant
                    l < self.layers@.len(),
                    n <= self.layers@[l as int].0@.len(),
                    nodes@.len() == n,
                    forall|i: int| 0 <= i < n ==> (#[trigger] nodes@[i])@ == self.layers@[l as int].0@[i]@,
                decreases self.layers@[l as int].0@.len() - n,
            {
                let mut weights: Vec<T> = Vec::new();
                let mut w: usize = 0;
                while w < self.layers[l].0[n].0.len()
                    invariant
                        l < self.layers@.len(),
                        n < self.layers@[l as int].0@.len(),
                        w <= self.layers@[l as int].0@[n as int].0@.len(),
                        weights@ == self.layers@[l as int].0@[n as int].0@.take(w as int),
                    decreases self.layers@[l as int].0@[n as int].0@.len() - w,
                {
                    weights.push(self.layers[l].0[n].0[w]);
                    w = w + 1;
                }
                nodes.push(NNNode(weights));
                n = n + 1;
            }
            proof {
                assert(NNLayer(nodes)@ =~= self.layers@[l as int]@);
            }
            layers.push(NNLayer(nodes));
            l = l + 1;
        }
        proof {
            assert(layers_view(layers@) =~= layers_view(self.layers@));
        }
        NN { layers, num_inputs: self.num_inputs }
    }
}

impl<T: Scalar> NN<T> {
    #[verifier::type_invariant]
    spec fn well_formed(self) -> bool {
        self@.wf()
    }

    /// Creates a new neural network with the given layer sizes and random
    /// weights. The first layer size is the number of inputs, the last is the
    /// number of outputs. Every weight, the biases included, is drawn by
    /// itself with [`Scalar::sample_inclusive`] from the [`weight_range`].
    pub fn random(layers_sizes: &[u32]) -> (r: Result<NN<T>, NNCreateError>)
        ensures
            match create_error(layers_sizes@) {
                Some(e) => r == Err::<NN<T>, NNCreateError>(e),
                None => {
                    &&& r matches Ok(net) && net@.wf() && net@.sizes()
                        == layers_sizes@.map_values(|s: u32| s as nat)
                    &&& deterministic::<T>() ==> (r matches Ok(net) && net@.drawn_from(
                        T::ratio(-1i32, 2),
                        T::ratio(1, 2),
                    ))
                },
            },
    {
        // Make sure there is at least an input layer and an output layer
        if layers_sizes.len() < 2 {
            return Err(NNCreateError::Min2Layers);
        }
        // Make sure all layers have at least one node

        let mut i: usize = 0;
        while i < layers_sizes.len()
            invariant
                2 <= layers_sizes@.len(),
                i <= layers_sizes@.len(),
                forall|j: int| 0 <= j < i ==> layers_sizes@[j] != 0,
            decreases layers_sizes@.len() - i,
        {
            if layers_sizes[i] < 1 {
                assert(0 <= i < layers_sizes@.len() && layers_sizes@[i as int] == 0);
                return Err(NNCreateError::EmptyLayer);
            }
            i = i + 1;
        }

        let mut layers: Vec<NNLayer<T>> = Vec::new();
        let first_layer_size = layers_sizes[0];
        let mut rng = thread_rng();
        let (low, high) = weight_range::<T>();

        // set up the rest of the layers
        let mut prev_layer_size = first_layer_size;
        let mut l: usize = 1;
        while l < layers_sizes.len()
            invariant
                1 <= l <= layers_sizes@.len(),
                layers@.len() == l - 1,
                prev_layer_size == layers_sizes@[l - 1],
                forall|i: int|
                    0 <= i < l - 1 ==> (#[trigger] layers@[i]).0@.len() == layers_sizes@[i + 1],
                forall|i: int, n: int|
                    0 <= i < l - 1 && 0 <= n < layers@[i].0@.len() ==> (
                    #[trigger] layers@[i].0@[n]).0@.len() == layers_sizes@[i] + 1,
                forall|i: int, n: int, w: int|
                    0 <= i < l - 1 && 0 <= n < layers@[i].0@.len() && 0 <= w
                        < layers@[i].0@[n].0@.len() ==> drawable(
                        low,
                        high,
                        #[trigger] layers@[i].0@[n].0@[w],
                    ),
            decreases layers_sizes@.len() - l,
        {
            let layer_size = layers_sizes[l];
            let mut layer: Vec<NNNode<T>> = Vec::new();
            let mut n: u32 = 0;
            while n < layer_size
                invariant
                    n <= layer_size,
                    layer@.len() == n,
                    forall|j: int|
                        0 <= j < n ==> (#[trigger] layer@[j]).0@.len() == prev_layer_size + 1,
                    forall|j: int, w: int|
                        0 <= j < n && 0 <= w < layer@[j].0@.len() ==> drawable(
                            low,
                            high,
                            #[trigger] layer@[j].0@[w],
                        ),
                decreases layer_size - n,
            {
                let mut node: Vec<T> = Vec::new();
                let mut w: u64 = 0;
                while w < prev_layer_size as u64 + 1
                    invariant
                        w <= prev_layer_size + 1,
                        node@.len() == w,
                        forall|k: int| 0 <= k < w ==> drawable(low, high, #[trigger] node@[k]),
                    decreases prev_layer_size + 1 - w,
                {
                    let random_weight = T::sample_inclusive(&mut rng, low, high);
                    node.push(random_weight);
                    w = w + 1;
                }
                layer.push(NNNode(node));
                n = n + 1;
            }
            layers.push(NNLayer(layer));
            prev_layer_size = layer_size;
            l = l + 1;
        }
        let ghost model = NNModel {
            layers: layers_view(layers@),
            num_inputs: first_layer_size as nat,
        };
        proof {
            assert forall|i: int| 0 <= i < model.layers.len() implies (
            #[trigger] model.layers[i]).len() == layers_sizes@[i + 1] by {
                assert(model.layers[i] == layers@[i]@);
            }
            assert forall|i: int, n: int|
                0 <= i < model.layers.len() && 0 <= n < model.layers[i].len() implies (
            #[trigger] model.layers[i][n]).len() == model.size(i) + 1 by {
                assert(model.layers[i] == layers@[i]@);
                assert(model.layers[i][n] == layers@[i].0@[n]@);
                if i > 0 {
                    assert(model.layers[i - 1] == layers@[i - 1]@);
                }
            }
            assert(model.wf());
            assert(model.sizes() =~= layers_sizes@.map_values(|s: u32| s as nat));
            assert forall|i: int, n: int, w: int|
                0 <= i < model.layers.len() && 0 <= n < model.layers[i].len() && 0 <= w
                    < model.layers[i][n].len() implies drawable(
                low,
                high,
                #[trigger] model.layers[i][n][w],
            ) by {
                assert(model.layers[i] == layers@[i]@);
                assert(model.layers[i][n] == layers@[i].0@[n]@);
                assert(model.layers[i][n][w] == layers@[i].0@[n].0@[w]);
            }
            assert(model.drawn_from(low, high));
        }
        Ok(NN { layers, num_inputs: first_layer_size })
    }

    /// Makes a network of the given layers, which take `num_inputs` values,
    /// if they form one: if there is a layer, `num_inputs` is not zero, no
    /// layer is empty, and every node holds a bias and one weight for each
    /// value of the layer before it.
    pub fn from_layers(num_inputs: u32, layers: Vec<NNLayer<T>>) -> (r: Option<NN<T>>)
        ensures
            (NNModel { layers: layers_view(layers@), num_inputs: num_inputs as nat }).wf() ==> (
            r matches Some(net) && net@ == (NNModel {
                layers: layers_view(layers@),
                num_inputs: num_inputs as nat,
            })),
            !(NNModel { layers: layers_view(layers@), num_inputs: num_inputs as nat }).wf() ==> r
                is None,
    {
        let ghost model = NNModel { layers: layers_view(layers@), num_inputs: num_inputs as nat };
        if num_inputs < 1 || layers.len() < 1 {
            return None;
        }
        let mut prev_layer_size: usize = num_inputs as usize;
        let mut l: usize = 0;
        while l < layers.len()
            invariant
                model == (NNModel { layers: layers_view(layers@), num_inputs: num_inputs as nat }),
                l <= layers@.len(),
                prev_layer_size == model.size(l as int),
                forall|i: int| 0 <= i < l ==> (#[trigger] model.layers[i]).len() >= 1,
                forall|i: int, n: int|
                    0 <= i < l && 0 <= n < model.layers[i].len() ==> (
                    #[trigger] model.layers[i][n]).len() == model.size(i) + 1,
            decreases layers@.len() - l,
        {
            proof {
                assert(model.layers[l as int] == layers@[l as int]@);
            }
            let layer = &layers[l].0;
            if layer.len() < 1 {
                return None;
            }
            let mut n: usize = 0;
            while n < layer.len()
                invariant
                    model == (NNModel {
                        layers: layers_view(layers@),
                        num_inputs: num_inputs as nat,
                    }),
                    l < layers@.len(),
                    *layer == layers@[l as int].0,
                    model.layers[l as int] == layers@[l as int]@,
                    n <= layer@.len(),
                    prev_layer_size == model.size(l as int),
                    forall|j: int|
                        0 <= j < n ==> (#[trigger] model.layers[l as int][j]).len()
                            == prev_layer_size + 1,
                decreases layer@.len() - n,
            {
                proof {
                    assert(model.layers[l as int][n as int] == layer@[n as int]@);
                }
                let weights = layer[n].0.len();
                if weights < 1 || weights - 1 != prev_layer_size {
                    return None;
                }
                n = n + 1;
            }
            prev_layer_size = layer.len();
            l = l + 1;
        }
        Some(NN { layers, num_inputs })
    }

    /// Runs the neural network and returns the output layer values, or an
    /// error when the number of `inputs` is not the number of inputs of this
    /// network.
    pub fn run<Activation: ActivationFunction<T>>(&self, activation: Activation, inputs: &[T]) -> (r:
        Result<Vec<T>, ()>)
        ensures
            self@.wf(),
            match r {
                Ok(out) => {
                    &&& inputs@.len() == self@.num_inputs
                    &&& out@.len() == self@.layers.last().len()
                    &&& deterministic::<T>() && deterministic_activation::<T, Activation>()
                        ==> out@ == self@.output(activation, inputs@)
                },
                Err(_) => inputs@.len() != self@.num_inputs,
            },
    {
        proof {
            use_type_invariant(self);
        }
        match self.do_run(activation, inputs) {
            Ok(mut results) => {
                match results.pop() {
                    Some(out) => Ok(out),
                    None => Err(()),
                }
            },
            Err(e) => Err(e),
        }
    }

    /// Runs the neural network and returns the values of all layers, the
    /// inputs first, or an error when the number of `inputs` is not the
    /// number of inputs of this network.
    pub fn do_run<Activation: ActivationFunction<T>>(
        &self,
        activation: Activation,
        inputs: &[T],
    ) -> (r: Result<Vec<Vec<T>>, ()>)
        ensures
            self@.wf(),
            match r {
                Ok(results) => {
                    &&& inputs@.len() == self@.num_inputs
                    &&& results@.len() == self@.layers.len() + 1
                    &&& forall|k: int|
                        0 <= k <= self@.layers.len() ==> (#[trigger] results@[k])@.len()
                            == self@.size(k)
                    &&& deterministic::<T>() && deterministic_activation::<T, Activation>()
                        ==> forall|k: int|
                        0 <= k <= self@.layers.len() ==> (#[trigger] results@[k])@ == forward(
                            activation,
                            self@.layers,
                            inputs@,
                            k as nat,
                        )
                },
                Err(_) => inputs@.len() != self@.num_inputs,
            },
    {
        proof {
            use_type_invariant(self);
        }
        // Size check
        if inputs.len() != self.num_inputs as usize {
            return Err(());
        }
        // Create results and push inputs to begin processing

        let mut results: Vec<Vec<T>> = Vec::with_capacity(self.layers.len());
        results.push(vstd::slice::slice_to_vec(inputs));

        // Loop through each layer and add it to the results vector.
        let mut layer_index: usize = 0;
        while layer_index < self.layers.len()
            invariant
                self@.wf(),
                inputs@.len() == self@.num_inputs,
                layer_index <= self.layers@.len(),
                results@.len() == layer_index + 1,
                forall|k: int|
                    0 <= k <= layer_index ==> (#[trigger] results@[k])@.len() == self@.size(k),
                deterministic::<T>() && deterministic_activation::<T, Activation>() ==> forall|
                    k: int,
                |
                    0 <= k <= layer_index ==> (#[trigger] results@[k])@ == forward(
                        activation,
                        self@.layers,
                        inputs@,
                        k as nat,
                    ),
            decreases self.layers@.len() - layer_index,
        {
            let layer = &self.layers[layer_index];
            let values = &results[layer_index];
            let ghost before = values@;
            proof {
                assert(self@.layers[layer_index as int] == layer@);
            }
            let mut layer_results: Vec<T> = Vec::new();
            let mut n: usize = 0;
            while n < layer.0.len()
                invariant
                    self@.wf(),
                    layer_index < self.layers@.len(),
                    self@.layers[layer_index as int] == layer@,
                    values@ == before,
                    before.len() == self@.size(layer_index as int),
                    n <= layer.0@.len(),
                    layer_results@.len() == n,
                    deterministic::<T>() && deterministic_activation::<T, Activation>()
                        ==> forall|j: int|
                        0 <= j < n ==> #[trigger] layer_results@[j] == node_output(
                            activation,
                            layer@[j],
                            before,
                        ),
                decreases layer.0@.len() - n,
            {
                proof {
                    assert(layer@[n as int] == layer.0@[n as int]@);
                    assert(self@.layers[layer_index as int][n as int].len() == self@.size(
                        layer_index as int,
                    ) + 1);
                }
                let total = modified_dotprod(&layer.0[n].0, values);
                layer_results.push(activation.perform(total));
                n = n + 1;
            }
            proof {
                if deterministic::<T>() && deterministic_activation::<T, Activation>() {
                    assert(layer_results@ =~= layer_output(activation, layer@, before));
                }
            }
            results.push(layer_results);
            layer_index = layer_index + 1;
        }
        Ok(results)
    }

    /// The number of values that the network takes.
    pub fn num_inputs(&self) -> (n: u32)
        ensures
            n == self@.num_inputs,
    {
        self.num_inputs
    }

    /// The layers after the input layer.
    pub fn layers(&self) -> (layers: &Vec<NNLayer<T>>)
        ensures
            layers_view(layers@) == self@.layers,
            self@.wf(),
    {
        proof {
            use_type_invariant(self);
        }
        &self.layers
    }
}

/// Evaluation is repeatable. Where the operations of the representation and
/// the activation are functions of their operands, any two results that
/// [`NN::run`] can return for the same network, the same activation and the
/// same inputs are the same: both fail, or both hold the same values.
pub proof fn lemma_run_deterministic<T: Scalar, A: ActivationFunction<T>>(
    net: &NN<T>,
    activation: A,
    inputs: &[T],
    first: Result<Vec<T>, ()>,
    second: Result<Vec<T>, ()>,
)
    requires
        deterministic::<T>(),
        deterministic_activation::<T, A>(),
        call_ensures(NN::<T>::run::<A>, (net, activation, inputs), first),
        call_ensures(NN::<T>::run::<A>, (net, activation, inputs), second),
    ensures
        match (first, second) {
            (Ok(a), Ok(b)) => a@ == b@,
            (Err(_), Err(_)) => true,
            _ => false,
        },
{
}

} // verus!
