use evosim::net::{
    weight_range, ActivationFunction, NNActivation, NNCreateError, NNLayer, NNNode, NN,
};
use evosim::scalar::Scalar;
use noise::{NoiseFn, OpenSimplex};
use rand::rngs::ThreadRng;
use rand::Rng;
use std::f32::consts::PI;

/// Single-precision reals, with the operations of the machine.
#[derive(Debug, Clone, Copy, PartialEq, PartialOrd)]
struct Real(f32);

impl Scalar for Real {
    fn from_ratio(num: i32, den: i32) -> Self {
        Real(num as f32 / den as f32)
    }

    fn from_count(n: usize) -> Self {
        Real(n as f32)
    }

    fn floor_to_count(self) -> usize {
        self.0.floor() as usize
    }

    fn tau() -> Self {
        Real(2.0 * PI)
    }

    fn plus(self, rhs: Self) -> Self {
        Real(self.0 + rhs.0)
    }

    fn minus(self, rhs: Self) -> Self {
        Real(self.0 - rhs.0)
    }

    fn times(self, rhs: Self) -> Self {
        Real(self.0 * rhs.0)
    }

    fn over(self, rhs: Self) -> Self {
        Real(self.0 / rhs.0)
    }

    fn negated(self) -> Self {
        Real(-self.0)
    }

    fn exp(self) -> Self {
        Real(self.0.exp())
    }

    fn cos(self) -> Self {
        Real(self.0.cos())
    }

    fn sin(self) -> Self {
        Real(self.0.sin())
    }

    fn noise_at(noise: &OpenSimplex, x: Self, y: Self) -> Self {
        Real(noise.get([x.0 as f64, y.0 as f64]) as f32)
    }

    fn lt(self, rhs: Self) -> bool {
        self.0 < rhs.0
    }

    fn ge(self, rhs: Self) -> bool {
        self.0 >= rhs.0
    }

    fn sample_inclusive(rng: &mut ThreadRng, low: Self, high: Self) -> Self {
        Real(rng.gen_range(low.0..=high.0))
    }
}

/// The activation that leaves every value as it is.
struct Identity;

impl ActivationFunction<Real> for Identity {
    fn perform(&self, val: Real) -> Real {
        val
    }
}

fn node(weights: &[f32]) -> NNNode<Real> {
    NNNode(weights.iter().map(|w| Real(*w)).collect())
}

fn reals(values: &[f32]) -> Vec<Real> {
    values.iter().map(|v| Real(*v)).collect()
}

fn floats(values: &[Real]) -> Vec<f32> {
    values.iter().map(|v| v.0).collect()
}

/// The network of topology 2, 3, 2 in which every weight is `weight`.
fn constant_network(weight: f32) -> NN<Real> {
    let hidden = NNLayer(vec![node(&[weight; 3]), node(&[weight; 3]), node(&[weight; 3])]);
    let output = NNLayer(vec![node(&[weight; 4]), node(&[weight; 4])]);
    NN::from_layers(2, vec![hidden, output]).unwrap()
}

#[test]
fn random_fails_with_fewer_than_two_layers() {
    assert_eq!(NN::<Real>::random(&[]).unwrap_err(), NNCreateError::Min2Layers);
    assert_eq!(NN::<Real>::random(&[4]).unwrap_err(), NNCreateError::Min2Layers);
}

#[test]
fn random_reports_too_few_layers_before_empty_layer() {
    assert_eq!(NN::<Real>::random(&[0]).unwrap_err(), NNCreateError::Min2Layers);
}

#[test]
fn random_fails_with_an_empty_layer() {
    assert_eq!(NN::<Real>::random(&[0, 3]).unwrap_err(), NNCreateError::EmptyLayer);
    assert_eq!(NN::<Real>::random(&[2, 0, 2]).unwrap_err(), NNCreateError::EmptyLayer);
    assert_eq!(NN::<Real>::random(&[2, 3, 0]).unwrap_err(), NNCreateError::EmptyLayer);
    assert_eq!(NN::<Real>::random(&[0, 0]).unwrap_err(), NNCreateError::EmptyLayer);
}

#[test]
fn random_succeeds_otherwise() {
    assert!(NN::<Real>::random(&[1, 1]).is_ok());
    assert!(NN::<Real>::random(&[2, 3, 2]).is_ok());
    assert!(NN::<Real>::random(&[5, 4, 3, 2, 1]).is_ok());
}

#[test]
fn random_builds_the_asked_topology() {
    let net = NN::<Real>::random(&[2, 3, 4]).unwrap();
    assert_eq!(net.num_inputs(), 2);
    let layers = net.layers();
    assert_eq!(layers.len(), 2);
    assert_eq!(layers[0].0.len(), 3);
    assert_eq!(layers[1].0.len(), 4);
    for n in layers[0].0.iter() {
        assert_eq!(n.0.len(), 3);
    }
    for n in layers[1].0.iter() {
        assert_eq!(n.0.len(), 4);
    }
}

#[test]
fn random_draws_weights_between_minus_half_and_half() {
    let net = NN::<Real>::random(&[8, 16, 8]).unwrap();
    for layer in net.layers().iter() {
        for n in layer.0.iter() {
            for w in n.0.iter() {
                assert!(-0.5 <= w.0 && w.0 <= 0.5, "weight {} out of range", w.0);
            }
        }
    }
}

#[test]
fn random_draws_differing_weights() {
    let net = NN::<Real>::random(&[8, 16, 8]).unwrap();
    let mut all: Vec<f32> = Vec::new();
    for layer in net.layers().iter() {
        for n in layer.0.iter() {
            all.extend(floats(&n.0));
        }
    }
    assert_eq!(all.len(), 16 * 9 + 8 * 17);
    let first = all[0];
    assert!(all.iter().any(|w| *w != first));
    assert!(all.iter().any(|w| *w != -0.5));
    assert!(all.iter().any(|w| *w != 0.5));
}

#[test]
fn from_layers_keeps_the_weights() {
    let hidden = NNLayer(vec![node(&[0.1, 0.2]), node(&[0.3, 0.4])]);
    let output = NNLayer(vec![node(&[0.5, 0.6, 0.7])]);
    let net = NN::from_layers(1, vec![hidden, output]).unwrap();
    assert_eq!(net.num_inputs(), 1);
    assert_eq!(floats(&net.layers()[0].0[1].0), vec![0.3, 0.4]);
    assert_eq!(floats(&net.layers()[1].0[0].0), vec![0.5, 0.6, 0.7]);
}

#[test]
fn from_layers_refuses_what_is_no_network() {
    // no layer after the input
    assert!(NN::<Real>::from_layers(2, vec![]).is_none());
    // no input
    assert!(NN::from_layers(0, vec![NNLayer(vec![node(&[0.0])])]).is_none());
    // an empty layer
    assert!(NN::<Real>::from_layers(2, vec![NNLayer(vec![])]).is_none());
    // a node without its bias
    assert!(NN::from_layers(2, vec![NNLayer(vec![node(&[])])]).is_none());
    // a node with a weight too few
    assert!(NN::from_layers(2, vec![NNLayer(vec![node(&[0.0, 0.0])])]).is_none());
    // a node with a weight too many
    assert!(NN::from_layers(2, vec![NNLayer(vec![node(&[0.0, 0.0, 0.0, 0.0])])]).is_none());
    // a second layer that does not fit the first
    let first = NNLayer(vec![node(&[0.0, 0.0]), node(&[0.0, 0.0])]);
    let second = NNLayer(vec![node(&[0.0, 0.0])]);
    assert!(NN::from_layers(1, vec![first, second]).is_none());
}

#[test]
fn run_fails_on_a_wrong_number_of_inputs() {
    let net = constant_network(0.25);
    assert_eq!(net.run(NNActivation::Sigmoid, &reals(&[])), Err(()));
    assert_eq!(net.run(NNActivation::Sigmoid, &reals(&[1.0])), Err(()));
    assert_eq!(net.run(NNActivation::Sigmoid, &reals(&[1.0, 2.0, 3.0])), Err(()));
    assert!(net.run(NNActivation::Sigmoid, &reals(&[1.0, 2.0])).is_ok());
}

#[test]
fn run_returns_one_value_for_each_node_of_the_last_layer() {
    for sizes in [vec![2, 3, 2], vec![1, 1], vec![3, 7], vec![4, 2, 6, 5]] {
        let net = NN::<Real>::random(&sizes).unwrap();
        let inputs = vec![Real(0.5); sizes[0] as usize];
        let out = net.run(NNActivation::Sigmoid, &inputs).unwrap();
        assert_eq!(out.len(), *sizes.last().unwrap() as usize);
    }
}

#[test]
fn run_twice_gives_the_same_output() {
    let net = NN::<Real>::random(&[3, 5, 4]).unwrap();
    let inputs = reals(&[0.25, -1.5, 8.0]);
    let first = net.run(NNActivation::Sigmoid, &inputs).unwrap();
    let second = net.run(NNActivation::Sigmoid, &inputs).unwrap();
    assert_eq!(first, second);
    let copy = net.clone();
    assert_eq!(copy.run(NNActivation::Sigmoid, &inputs).unwrap(), first);
}

#[test]
fn zero_weights_give_one_half_whatever_the_inputs() {
    let net = constant_network(0.0);
    for inputs in [[0.0, 0.0], [1.0, 1.0], [-3.5, 42.0], [1.0e6, -1.0e6]] {
        let out = net.run(NNActivation::Sigmoid, &reals(&inputs)).unwrap();
        assert_eq!(floats(&out), vec![0.5, 0.5]);
    }
}

#[test]
fn run_adds_the_bias_to_the_dot_product() {
    let net = NN::from_layers(2, vec![NNLayer(vec![node(&[1.0, 2.0, 3.0])])]).unwrap();
    let out = net.run(Identity, &reals(&[4.0, 5.0])).unwrap();
    assert_eq!(floats(&out), vec![1.0 + 2.0 * 4.0 + 3.0 * 5.0]);
}

#[test]
fn run_feeds_each_layer_with_the_one_before() {
    let hidden = NNLayer(vec![node(&[1.0, 1.0, 0.0]), node(&[0.0, 0.0, 2.0]), node(&[-1.0, 1.0, 1.0])]);
    let output = NNLayer(vec![node(&[0.5, 1.0, 1.0, 1.0]), node(&[0.0, 0.0, 0.0, -2.0])]);
    let net = NN::from_layers(2, vec![hidden, output]).unwrap();
    // hidden: 1 + 3 = 4; 2 * 5 = 10; -1 + 3 + 5 = 7
    // output: 0.5 + 4 + 10 + 7 = 21.5; -2 * 7 = -14
    let out = net.run(Identity, &reals(&[3.0, 5.0])).unwrap();
    assert_eq!(floats(&out), vec![21.5, -14.0]);
}

#[test]
fn run_applies_the_activation_in_every_layer() {
    let hidden = NNLayer(vec![node(&[0.0, 1.0])]);
    let output = NNLayer(vec![node(&[0.0, 1.0])]);
    let net = NN::from_layers(1, vec![hidden, output]).unwrap();
    let out = net.run(NNActivation::Sigmoid, &reals(&[0.0])).unwrap();
    let once = 1.0 / (1.0 + (-0.0f32).exp());
    let twice = 1.0 / (1.0 + (-once).exp());
    assert_eq!(floats(&out), vec![twice]);
}

#[test]
fn do_run_returns_the_values_of_every_layer() {
    let hidden = NNLayer(vec![node(&[1.0, 1.0, 0.0]), node(&[0.0, 0.0, 2.0]), node(&[-1.0, 1.0, 1.0])]);
    let output = NNLayer(vec![node(&[0.5, 1.0, 1.0, 1.0]), node(&[0.0, 0.0, 0.0, -2.0])]);
    let net = NN::from_layers(2, vec![hidden, output]).unwrap();
    let all = net.do_run(Identity, &reals(&[3.0, 5.0])).unwrap();
    assert_eq!(all.len(), 3);
    assert_eq!(floats(&all[0]), vec![3.0, 5.0]);
    assert_eq!(floats(&all[1]), vec![4.0, 10.0, 7.0]);
    assert_eq!(floats(&all[2]), vec![21.5, -14.0]);
    assert_eq!(net.do_run(Identity, &reals(&[3.0])), Err(()));
}

#[test]
fn sigmoid_is_one_over_one_plus_exp_of_minus_x() {
    assert_eq!(NNActivation::Sigmoid.perform(Real(0.0)), Real(0.5));
    for x in [-4.0f32, -1.0, 0.3, 2.0, 10.0] {
        let expected = 1.0 / (1.0 + (-x).exp());
        assert_eq!(NNActivation::Sigmoid.perform(Real(x)), Real(expected));
    }
    assert!(NNActivation::Sigmoid.perform(Real(20.0)).0 > 0.999);
    assert!(NNActivation::Sigmoid.perform(Real(-20.0)).0 < 0.001);
}

#[test]
fn clone_copies_the_network() {
    let net = NN::<Real>::random(&[2, 3, 2]).unwrap();
    let copy = net.clone();
    assert_eq!(copy.num_inputs(), net.num_inputs());
    assert_eq!(copy.layers().len(), net.layers().len());
    for (a, b) in net.layers().iter().zip(copy.layers().iter()) {
        assert_eq!(a.0.len(), b.0.len());
        for (x, y) in a.0.iter().zip(b.0.iter()) {
            assert_eq!(x.0, y.0);
        }
    }
}

#[test]
fn create_errors_say_what_went_wrong() {
    assert_eq!(
        NNCreateError::Min2Layers.message(),
        "neural network must have at least an input layer and output layer"
    );
    assert_eq!(
        NNCreateError::EmptyLayer.message(),
        "each layer of neural network must have at least one node"
    );
}

#[test]
fn weights_range_from_minus_half_to_half() {
    assert_eq!(weight_range::<Real>(), (Real(-0.5), Real(0.5)));
}

#[test]
fn nodes_and_layers_open_onto_their_vectors() {
    let net = NN::<Real>::random(&[2, 3, 4]).unwrap();
    let layer: &NNLayer<Real> = &net.layers()[1];
    assert_eq!(layer.len(), 4);
    let first: &NNNode<Real> = &layer[0];
    assert_eq!(first.len(), 4);
    assert_eq!(first[0], first.0[0]);
    assert_eq!(layer.iter().count(), 4);
}
