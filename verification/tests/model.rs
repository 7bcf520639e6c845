use quark_sim::fixed::Fixed;
use quark_sim::model::layer_fits;
use quark_sim::model::layer_output;
use quark_sim::model::layer_shapes;
use quark_sim::model::Layer;
use quark_sim::model::LayerShape;
use quark_sim::model::ModelError;
use quark_sim::model::QuarkModel;
use quark_sim::model::Weight;
use quark_sim::model::HIDDEN1_SIZE;
use quark_sim::model::HIDDEN2_SIZE;
use quark_sim::model::HIDDEN3_SIZE;
use quark_sim::model::INPUT_SIZE;
use quark_sim::model::LAYER_COUNT;
use quark_sim::model::OUTPUT_SIZE;
use quark_sim::model::WEIGHT_LIMIT;
use quark_sim::model::WEIGHT_SCALE;
use quark_sim::regressor::Regressor;

fn fx(raw: i64) -> Fixed {
    Fixed::from_raw(raw)
}

fn w(raw: i64) -> Weight {
    Weight::from_raw(raw)
}

/// Layers of the architecture with all weights and biases zero.
fn zero_layers() -> Vec<Layer> {
    layer_shapes()
        .iter()
        .map(|shape| Layer {
            weights: vec![vec![w(0); shape.inputs]; shape.outputs],
            biases: vec![w(0); shape.outputs],
            rectified: shape.rectified,
        })
        .collect()
}

/// A network that computes `-3 * relu(0.5 * relu(2 * relu(dx) - relu(dy + 0.5)) + 0.1) + 0.25`.
fn small_network() -> QuarkModel {
    let mut layers = zero_layers();
    layers[0].weights[0][0] = w(1_000_000_000);
    layers[0].weights[1][1] = w(1_000_000_000);
    layers[0].biases[1] = w(500_000_000);
    layers[1].weights[0][0] = w(2_000_000_000);
    layers[1].weights[0][1] = w(-1_000_000_000);
    layers[2].weights[0][0] = w(500_000_000);
    layers[2].biases[0] = w(100_000_000);
    layers[3].weights[0][0] = w(-3_000_000_000);
    layers[3].biases[0] = w(250_000_000);
    QuarkModel::new(layers).unwrap()
}

#[test]
fn architecture_is_a_chain_from_three_inputs_to_one_output() {
    let layers = layer_shapes();
    assert_eq!(layers.len(), LAYER_COUNT);
    assert_eq!(
        layers,
        vec![
            LayerShape { inputs: 3, outputs: 256, rectified: true },
            LayerShape { inputs: 256, outputs: 128, rectified: true },
            LayerShape { inputs: 128, outputs: 64, rectified: true },
            LayerShape { inputs: 64, outputs: 1, rectified: false },
        ]
    );
    assert!(layers.windows(2).all(|pair| pair[0].outputs == pair[1].inputs));
    assert_eq!(
        (INPUT_SIZE, HIDDEN1_SIZE, HIDDEN2_SIZE, HIDDEN3_SIZE, OUTPUT_SIZE),
        (3, 256, 128, 64, 1)
    );
}

#[test]
fn weights_are_kept_in_billionths() {
    assert_eq!(WEIGHT_SCALE, 1_000_000_000);
    assert_eq!(WEIGHT_LIMIT, 1 << 40);
    assert_eq!(Weight::from_single_bits(1.0f32.to_bits()), Some(w(1_000_000_000)));
    assert_eq!(Weight::from_single_bits((-0.5f32).to_bits()), Some(w(-500_000_000)));
    // the single-precision number nearest to 0.1 is 0.100000001490116...
    assert_eq!(Weight::from_single_bits(0.1f32.to_bits()), Some(w(100_000_001)));
    assert_eq!(Weight::from_single_bits(0.0f32.to_bits()), Some(w(0)));
}

#[test]
fn weights_that_are_not_numbers_are_nothing() {
    assert_eq!(Weight::from_single_bits(f32::NAN.to_bits()), None);
    assert_eq!(Weight::from_single_bits(f32::INFINITY.to_bits()), Some(w(i64::MAX)));
    assert_eq!(Weight::from_single_bits(f32::NEG_INFINITY.to_bits()), Some(w(i64::MIN)));
    assert_eq!(Weight::from_single_bits(1e12f32.to_bits()), Some(w(i64::MAX)));
}

#[test]
fn model_of_the_architecture_is_accepted() {
    let layers = zero_layers();
    assert!(QuarkModel::new(layers).is_ok());
}

#[test]
fn model_needs_four_layers() {
    let mut layers = zero_layers();
    layers.pop();
    assert_eq!(QuarkModel::new(layers).err(), Some(ModelError::WrongLayerCount));
    assert_eq!(QuarkModel::new(Vec::new()).err(), Some(ModelError::WrongLayerCount));
    let mut layers = zero_layers();
    layers.push(layers[3].clone());
    assert_eq!(QuarkModel::new(layers).err(), Some(ModelError::WrongLayerCount));
}

#[test]
fn model_names_the_first_layer_that_does_not_fit() {
    // a row too short in the second layer
    let mut layers = zero_layers();
    layers[1].weights[5].pop();
    assert_eq!(QuarkModel::new(layers).err(), Some(ModelError::LayerMismatch(1)));
    // a unit too many in the first layer
    let mut layers = zero_layers();
    layers[0].weights.push(vec![w(0); 3]);
    layers[0].biases.push(w(0));
    assert_eq!(QuarkModel::new(layers).err(), Some(ModelError::LayerMismatch(0)));
    // a bias missing in the third layer
    let mut layers = zero_layers();
    layers[2].biases.pop();
    assert_eq!(QuarkModel::new(layers).err(), Some(ModelError::LayerMismatch(2)));
    // a rectifier after the last layer
    let mut layers = zero_layers();
    layers[3].rectified = true;
    assert_eq!(QuarkModel::new(layers).err(), Some(ModelError::LayerMismatch(3)));
    // no rectifier after the first layer, and a wrong last layer as well
    let mut layers = zero_layers();
    layers[0].rectified = false;
    layers[3].rectified = true;
    assert_eq!(QuarkModel::new(layers).err(), Some(ModelError::LayerMismatch(0)));
}

#[test]
fn model_rejects_weights_out_of_range() {
    let mut layers = zero_layers();
    layers[1].weights[127][255] = w(WEIGHT_LIMIT + 1);
    assert_eq!(QuarkModel::new(layers).err(), Some(ModelError::LayerMismatch(1)));
    let mut layers = zero_layers();
    layers[2].biases[63] = w(-WEIGHT_LIMIT - 1);
    assert_eq!(QuarkModel::new(layers).err(), Some(ModelError::LayerMismatch(2)));
    let mut layers = zero_layers();
    layers[1].weights[127][255] = w(WEIGHT_LIMIT);
    layers[2].biases[63] = w(-WEIGHT_LIMIT);
    assert!(QuarkModel::new(layers).is_ok());
}

#[test]
fn layer_is_held_against_a_shape() {
    let layers = zero_layers();
    let shapes = layer_shapes();
    assert!(layer_fits(&layers[0], shapes[0]));
    assert!(!layer_fits(&layers[0], shapes[1]));
    assert!(!layer_fits(&layers[3], LayerShape { inputs: 64, outputs: 1, rectified: true }));
}

#[test]
fn forward_pass_of_a_network_without_weights_is_the_last_bias() {
    let mut layers = zero_layers();
    layers[3].biases[0] = w(-1_250_000_000);
    let model = QuarkModel::new(layers).unwrap();
    assert_eq!(model.forward(fx(1_000_000), fx(2_000_000), fx(3_000_000)).raw, -1_250_000);
    assert_eq!(model.forward(fx(0), fx(0), fx(0)).raw, -1_250_000);
}

#[test]
fn forward_pass_rectifies_between_the_layers() {
    let model = small_network();
    // h1 = (1.2, 0.3), h2 = 2.4 - 0.3, h3 = 1.05 + 0.1, out = -3.45 + 0.25
    assert_eq!(model.forward(fx(1_200_000), fx(-200_000), fx(0)).raw, -3_200_000);
    // h1 = (0, 0), h2 = 0, h3 = 0.1, out = -0.3 + 0.25
    assert_eq!(model.forward(fx(-1_000_000), fx(-1_000_000), fx(5_000_000)).raw, -50_000);
    // h1 = (0.3, 1.5), h2 = relu(0.6 - 1.5) = 0
    assert_eq!(model.forward(fx(300_000), fx(1_000_000), fx(0)).raw, -50_000);
}

#[test]
fn forward_pass_does_not_rectify_the_output() {
    let model = small_network();
    assert!(model.forward(fx(1_200_000), fx(-200_000), fx(0)).raw < 0);
}

#[test]
fn forward_pass_ignores_what_no_weight_reads() {
    let model = small_network();
    let a = model.forward(fx(700_000), fx(100_000), fx(0));
    let b = model.forward(fx(700_000), fx(100_000), fx(-9_000_000));
    assert_eq!(a, b);
}

#[test]
fn unit_output_is_rounded_once() {
    // one third times 1 plus one third times 2: 0.999999999 rounds to 0.999999
    let layer = Layer {
        weights: vec![vec![w(333_333_333), w(333_333_333)]],
        biases: vec![w(0)],
        rectified: false,
    };
    let shape = LayerShape { inputs: 2, outputs: 1, rectified: false };
    let output = layer_output(&layer, shape, &vec![fx(1_000_000), fx(2_000_000)]);
    assert_eq!(output, Some(vec![fx(999_999)]));
    // the bias is added before the rounding: 0.999999999 + 0.000000001 = 1
    let layer = Layer { biases: vec![w(1)], ..layer };
    let output = layer_output(&layer, shape, &vec![fx(1_000_000), fx(2_000_000)]);
    assert_eq!(output, Some(vec![fx(1_000_000)]));
}

#[test]
fn rectified_layer_gives_no_negative_output() {
    let layer = Layer {
        weights: vec![vec![w(-1_000_000_000)], vec![w(1_000_000_000)], vec![w(0)]],
        biases: vec![w(0), w(0), w(-1)],
        rectified: true,
    };
    let shape = LayerShape { inputs: 1, outputs: 3, rectified: true };
    assert_eq!(layer_output(&layer, shape, &vec![fx(2_500_000)]), Some(vec![fx(0), fx(2_500_000), fx(0)]));
    assert_eq!(layer_output(&layer, shape, &vec![fx(-2_500_000)]), Some(vec![fx(2_500_000), fx(0), fx(0)]));
}

#[test]
fn unit_output_saturates() {
    let layer = Layer {
        weights: vec![vec![w(WEIGHT_LIMIT), w(WEIGHT_LIMIT)]],
        biases: vec![w(0)],
        rectified: false,
    };
    let shape = LayerShape { inputs: 2, outputs: 1, rectified: false };
    let output = layer_output(&layer, shape, &vec![fx(i64::MAX), fx(i64::MAX)]);
    assert_eq!(output, Some(vec![fx(i64::MAX)]));
    let output = layer_output(&layer, shape, &vec![fx(i64::MIN), fx(i64::MIN)]);
    assert_eq!(output, Some(vec![fx(i64::MIN)]));
}

#[test]
fn model_is_a_regressor() {
    let model = small_network();
    let direct = model.forward(fx(1_200_000), fx(-200_000), fx(0));
    let as_regressor = Regressor::forward(&model, fx(1_200_000), fx(-200_000), fx(0));
    assert_eq!(direct, as_regressor);
}

#[test]
fn layer_gives_no_output_for_what_does_not_fit() {
    let layer = Layer { weights: vec![vec![w(1), w(2)]], biases: vec![w(0)], rectified: false };
    let shape = LayerShape { inputs: 2, outputs: 1, rectified: false };
    // an input of the wrong size
    assert_eq!(layer_output(&layer, shape, &vec![fx(1)]), None);
    // a shape that the layer has not
    let other = LayerShape { inputs: 2, outputs: 1, rectified: true };
    assert_eq!(layer_output(&layer, other, &vec![fx(1), fx(2)]), None);
    // a weight out of range
    let heavy = Layer { weights: vec![vec![w(WEIGHT_LIMIT + 1), w(2)]], biases: vec![w(0)], rectified: false };
    assert_eq!(layer_output(&heavy, shape, &vec![fx(1), fx(2)]), None);
    assert!(layer_output(&layer, shape, &vec![fx(1), fx(2)]).is_some());
}

#[test]
fn model_hands_out_its_layers() {
    let layers = zero_layers();
    let model = QuarkModel::new(layers.clone()).unwrap();
    assert_eq!(model.as_layers(), &layers);
    assert_eq!(small_network().as_layers()[3].biases, vec![w(250_000_000)]);
}
