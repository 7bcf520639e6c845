//! The regressor: a small feed-forward network.
//!
//! The network maps a displacement (three inputs) to a potential in
//! normalized units (one output) through four linear layers, of 256, 128, 64
//! and 1 units, with a rectifier after each layer but the last. Training
//! belongs to the numerical code; a trained network is brought here as its
//! weights, and evaluated here.
//!
//! Weights are kept in billionths, finer than the millionths of the values
//! that flow through the network, so that no precision of a single-precision
//! weight is lost. A unit's output is the exact weighted sum of its inputs
//! plus its bias, rounded once.

use vstd::prelude::*;
use crate::fixed::quotient;
use crate::fixed::narrow;
use crate::fixed::trunc_div;
use crate::fixed::Fixed;
use crate::fixed::fx;
use crate::fixed::SCALE;
use crate::regressor::Regressor;
use crate::single::read_scaled;
use crate::single::reading;

verus! {

/// Inputs: the three components of the displacement.
pub const INPUT_SIZE: usize = 3;

/// Units of the first hidden layer.
pub const HIDDEN1_SIZE: usize = 256;

/// Units of the second hidden layer.
pub const HIDDEN2_SIZE: usize = 128;

/// Units of the third hidden layer.
pub const HIDDEN3_SIZE: usize = 64;

/// Outputs: the potential.
pub const OUTPUT_SIZE: usize = 1;

/// Number of linear layers.
pub const LAYER_COUNT: usize = 4;

/// Number of raw units of a weight in one whole unit.
pub const WEIGHT_SCALE: i64 = 1_000_000_000;

/// Largest magnitude of a weight or a bias, in billionths (two to the power
/// of forty, about 1099.5).
pub const WEIGHT_LIMIT: i64 = 0x100_0000_0000;

/// The sizes of one linear layer.
#[derive(Clone, Copy, Debug, PartialEq, Eq, Structural)]
pub struct LayerShape {
    pub inputs: usize,
    pub outputs: usize,
    /// Whether a rectifier follows the layer.
    pub rectified: bool,
}

/// The layers of the regressor, from the input to the output.
pub open spec fn architecture() -> Seq<LayerShape> {
    seq![
        (LayerShape { inputs: INPUT_SIZE, outputs: HIDDEN1_SIZE, rectified: true }),
        (LayerShape { inputs: HIDDEN1_SIZE, outputs: HIDDEN2_SIZE, rectified: true }),
        (LayerShape { inputs: HIDDEN2_SIZE, outputs: HIDDEN3_SIZE, rectified: true }),
        (LayerShape { inputs: HIDDEN3_SIZE, outputs: OUTPUT_SIZE, rectified: false }),
    ]
}

/// The layers fit together: each layer takes what the one before it gives,
/// and all but the last are rectified.
pub open spec fn is_chain(layers: Seq<LayerShape>) -> bool {
    &&& forall|i: int| 0 <= i < layers.len() - 1 ==> (#[trigger] layers[i]).outputs == layers[i + 1].inputs
    &&& forall|i: int| 0 <= i < layers.len() ==> ((#[trigger] layers[i]).rectified <==> i < layers.len() - 1)
}

/// The layers of the regressor, from the input to the output.
pub fn layer_shapes() -> (layers: Vec<LayerShape>)
    ensures
        layers@ == architecture(),
        is_chain(layers@),
        layers.len() == LAYER_COUNT,
        layers[0].inputs == INPUT_SIZE,
        layers[LAYER_COUNT - 1].outputs == OUTPUT_SIZE,
{
    let mut layers: Vec<LayerShape> = Vec::new();
    layers.push(LayerShape { inputs: 3, outputs: 256, rectified: true });
    layers.push(LayerShape { inputs: 256, outputs: 128, rectified: true });
    layers.push(LayerShape { inputs: 128, outputs: 64, rectified: true });
    layers.push(LayerShape { inputs: 64, outputs: 1, rectified: false });
    assert(layers@ =~= architecture());
    layers
}

/// A weight or a bias: `raw` billionths.
#[derive(Clone, Copy, Debug, PartialEq, Eq, PartialOrd, Ord, Hash, Structural)]
pub struct Weight {
    pub raw: i64,
}

impl Weight {
    /// The weight is within the limit of magnitude.
    pub open spec fn in_range(self) -> bool {
        -WEIGHT_LIMIT <= self.raw <= WEIGHT_LIMIT
    }

    /// The weight with the given number of billionths.
    pub fn from_raw(raw: i64) -> (w: Weight)
        ensures
            w.raw == raw,
    {
        Weight { raw }
    }

    /// The weight of a single-precision number given by its bit pattern: the
    /// number in billionths, rounded toward zero, saturating. A NaN gives
    /// nothing.
    pub fn from_single_bits(bits: u32) -> (weight: Option<Weight>)
        ensures
            weight matches Some(w) ==> reading(bits, WEIGHT_SCALE as int) == Some(w.raw as int),
            weight.is_none() ==> reading(bits, WEIGHT_SCALE as int).is_none(),
    {
        match read_scaled(bits, 1_000_000_000) {
            Some(raw) => Some(Weight { raw }),
            None => None,
        }
    }
}

/// One linear layer: a row of weights and a bias for each unit.
#[derive(Clone, Debug, PartialEq, Eq)]
pub struct Layer {
    /// `weights[j][i]` is the weight of input `i` in unit `j`.
    pub weights: Vec<Vec<Weight>>,
    /// `biases[j]` is the bias of unit `j`.
    pub biases: Vec<Weight>,
    /// Whether a rectifier follows the layer.
    pub rectified: bool,
}

/// A layer, as the contracts speak of it.
pub struct LayerView {
    pub weights: Seq<Seq<Weight>>,
    pub biases: Seq<Weight>,
    pub rectified: bool,
}

impl View for Layer {
    type V = LayerView;

    open spec fn view(&self) -> LayerView {
        LayerView {
            weights: self.weights@.map_values(|row: Vec<Weight>| row@),
            biases: self.biases@,
            rectified: self.rectified,
        }
    }
}

/// The sum of the first `count` inputs, each times its weight, in units of
/// which a million billions make one.
pub open spec fn weighted_sum(row: Seq<Weight>, input: Seq<Fixed>, count: int) -> int
    decreases count,
{
    if count <= 0 {
        0
    } else {
        weighted_sum(row, input, count - 1) + row[count - 1].raw * input[count - 1]@
    }
}

/// The output of one unit before the rectifier: the weighted sum of the
/// inputs plus the bias, rounded toward zero to millionths and saturating.
pub open spec fn unit_output(row: Seq<Weight>, bias: Weight, input: Seq<Fixed>) -> Fixed {
    fx(trunc_div(weighted_sum(row, input, row.len() as int) + bias.raw * SCALE, WEIGHT_SCALE as int))
}

/// The rectifier: a negative value becomes zero.
pub open spec fn rectified(value: Fixed) -> Fixed {
    if value@ < 0 {
        fx(0)
    } else {
        value
    }
}

impl LayerView {
    /// The layer has the sizes of `shape`, all its weights and biases are in
    /// range, and it is rectified as `shape` says.
    pub open spec fn fits(self, shape: LayerShape) -> bool {
        &&& self.weights.len() == shape.outputs
        &&& self.biases.len() == shape.outputs
        &&& self.rectified == shape.rectified
        &&& forall|j: int| 0 <= j < self.weights.len() ==> (#[trigger] self.weights[j]).len() == shape.inputs
        &&& forall|j: int, i: int|
            0 <= j < self.weights.len() && 0 <= i < self.weights[j].len() ==> (#[trigger] self.weights[j][i]).in_range()
        &&& forall|j: int| 0 <= j < self.biases.len() ==> (#[trigger] self.biases[j]).in_range()
    }

    /// The outputs of the layer for `input`: each unit's output, rectified
    /// where the layer is.
    pub open spec fn output(self, input: Seq<Fixed>) -> Seq<Fixed> {
        Seq::new(
            self.weights.len(),
            |j: int|
                if self.rectified {
                    rectified(unit_output(self.weights[j], self.biases[j], input))
                } else {
                    unit_output(self.weights[j], self.biases[j], input)
                },
        )
    }
}

/// The outputs of the last of `layers` when `input` is passed through them
/// in order.
pub open spec fn network_output(layers: Seq<LayerView>, input: Seq<Fixed>) -> Seq<Fixed>
    decreases layers.len(),
{
    if layers.len() == 0 {
        input
    } else {
        layers.last().output(network_output(layers.drop_last(), input))
    }
}

/// Why weights were not accepted as a model.
#[derive(Clone, Copy, Debug, PartialEq, Eq, Structural)]
pub enum ModelError {
    /// There are not four layers.
    WrongLayerCount,
    /// The layer at this index, the first such, has not the sizes or the
    /// rectifier of its place, or a weight out of range.
    LayerMismatch(usize),
}

/// The trained regressor.
#[derive(Debug, PartialEq, Eq)]
pub struct QuarkModel {
    layers: Vec<Layer>,
}

/// The layers, as the contracts speak of them.
pub open spec fn views_of(layers: Seq<Layer>) -> Seq<LayerView> {
    layers.map_values(|layer: Layer| layer@)
}

/// Every layer fits its place in the architecture.
pub open spec fn fit_architecture(layers: Seq<Layer>) -> bool {
    &&& layers.len() == LAYER_COUNT
    &&& forall|k: int| 0 <= k < LAYER_COUNT ==> (#[trigger] layers[k])@.fits(architecture()[k])
}

/// Layer `k` is the first that does not fit its place.
pub open spec fn first_mismatch(layers: Seq<Layer>, k: int) -> bool {
    &&& 0 <= k < layers.len()
    &&& !layers[k]@.fits(architecture()[k])
    &&& forall|earlier: int| 0 <= earlier < k ==> (#[trigger] layers[earlier])@.fits(architecture()[earlier])
}

/// Whether the weight is within the limit of magnitude.
fn weight_in_range(w: Weight) -> (ok: bool)
    ensures
        ok == w.in_range(),
{
    -0x100_0000_0000 <= w.raw && w.raw <= 0x100_0000_0000
}

/// Whether a layer has the sizes and the rectifier of `shape` and weights in
/// range.
pub fn layer_fits(layer: &Layer, shape: LayerShape) -> (ok: bool)
    ensures
        ok == layer@.fits(shape),
{
    if layer.weights.len() != shape.outputs || layer.biases.len() != shape.outputs || layer.rectified
        != shape.rectified {
        return false;
    }
    let mut j: usize = 0;
    while j < layer.weights.len()
        invariant
            j <= layer.weights.len(),
            layer.weights.len() == shape.outputs,
            layer.biases.len() == shape.outputs,
            forall|r: int| 0 <= r < j ==> (#[trigger] layer@.weights[r]).len() == shape.inputs,
            forall|r: int, i: int|
                0 <= r < j && 0 <= i < layer@.weights[r].len() ==> (#[trigger] layer@.weights[r][i]).in_range(),
            forall|r: int| 0 <= r < j ==> (#[trigger] layer@.biases[r]).in_range(),
        decreases layer.weights.len() - j,
    {
        let row = &layer.weights[j];
        assert(layer@.weights[j as int] == row@);
        if row.len() != shape.inputs || !weight_in_range(layer.biases[j]) {
            return false;
        }
        let mut i: usize = 0;
        while i < row.len()
            invariant
                i <= row.len(),
                j < layer@.weights.len(),
                row@ == layer@.weights[j as int],
                forall|c: int| 0 <= c < i ==> (#[trigger] row@[c]).in_range(),
            decreases row.len() - i,
        {
            if !weight_in_range(row[i]) {
                assert(!layer@.weights[j as int][i as int].in_range());
                return false;
            }
            i += 1;
        }
        j += 1;
    }
    true
}

/// The outputs of a layer of the given shape for an input of its size. There
/// are none where the layer does not fit the shape, where the input has not
/// the size that the shape asks for, or where the layer takes more than 65536
/// inputs.
pub fn layer_output(layer: &Layer, shape: LayerShape, input: &Vec<Fixed>) -> (output: Option<Vec<Fixed>>)
    ensures
        layer@.fits(shape) && input.len() == shape.inputs && shape.inputs <= 65_536 ==> (
        output matches Some(values) && values@ == layer@.output(input@)),
        !(layer@.fits(shape) && input.len() == shape.inputs && shape.inputs <= 65_536)
            ==> output.is_none(),
{
    if input.len() == shape.inputs && shape.inputs <= 65_536 && layer_fits(layer, shape) {
        Some(apply_layer(layer, shape, input))
    } else {
        None
    }
}

/// The outputs of a layer for an input of its size.
fn apply_layer(layer: &Layer, shape: LayerShape, input: &Vec<Fixed>) -> (output: Vec<Fixed>)
    requires
        layer@.fits(shape),
        input.len() == shape.inputs,
        shape.inputs <= 65_536,
    ensures
        output@ == layer@.output(input@),
{
    let mut output: Vec<Fixed> = Vec::new();
    let mut j: usize = 0;
    while j < layer.weights.len()
        invariant
            layer@.fits(shape),
            input.len() == shape.inputs,
            shape.inputs <= 65_536,
            j <= layer.weights.len(),
            output.len() == j,
            forall|r: int| 0 <= r < j ==> (#[trigger] output[r]) == layer@.output(input@)[r],
        decreases layer.weights.len() - j,
    {
        let row = &layer.weights[j];
        assert(layer@.weights[j as int] == row@);
        let mut sum: i128 = 0;
        let mut i: usize = 0;
        while i < row.len()
            invariant
                row@ == layer@.weights[j as int],
                layer@.fits(shape),
                j < layer.weights.len(),
                row.len() == input.len(),
                input.len() <= 65_536,
                i <= row.len(),
                sum == weighted_sum(row@, input@, i as int),
                -(i * 0x80_0000_0000_0000_0000_0000_0000) <= sum <= i * 0x80_0000_0000_0000_0000_0000_0000,
            decreases row.len() - i,
        {
            let w = row[i];
            let x = input[i];
            assert(w.in_range()) by {
                assert(layer@.weights[j as int][i as int].in_range());
            }
            assert(-0x80_0000_0000_0000_0000_0000_0000 <= w.raw * x.raw
                <= 0x80_0000_0000_0000_0000_0000_0000) by (nonlinear_arith)
                requires
                    -0x100_0000_0000 <= w.raw <= 0x100_0000_0000,
                    -0x8000_0000_0000_0000 <= x.raw <= 0x8000_0000_0000_0000,
            ;
            assert((i + 1) * 0x80_0000_0000_0000_0000_0000_0000 == i * 0x80_0000_0000_0000_0000_0000_0000
                + 0x80_0000_0000_0000_0000_0000_0000 && i * 0x80_0000_0000_0000_0000_0000_0000 <= 65_536
                * 0x80_0000_0000_0000_0000_0000_0000) by (nonlinear_arith)
                requires
                    0 <= i <= 65_536,
            ;
            sum = sum + (w.raw as i128) * (x.raw as i128);
            i += 1;
        }
        let bias = layer.biases[j];
        assert(bias.in_range()) by {
            assert(layer@.biases[j as int].in_range());
        }
        assert(i * 0x80_0000_0000_0000_0000_0000_0000 <= 65_536 * 0x80_0000_0000_0000_0000_0000_0000)
            by (nonlinear_arith)
            requires
                0 <= i <= 65_536,
        ;
        let total: i128 = sum + (bias.raw as i128) * 1_000_000i128;
        let value = Fixed { raw: narrow(quotient(total, 1_000_000_000i128)) };
        assert(value == unit_output(row@, bias, input@));
        let out = if layer.rectified && value.raw < 0 {
            Fixed::zero()
        } else {
            value
        };
        output.push(out);
        j += 1;
    }
    assert(output@ =~= layer@.output(input@));
    output
}

impl QuarkModel {
    /// The layers fit the architecture. This holds of every model.
    #[verifier::type_invariant]
    spec fn sound(self) -> bool {
        fit_architecture(self.layers@)
    }

    /// The layers of the model.
    pub closed spec fn layers(self) -> Seq<Layer> {
        self.layers@
    }

    /// The output that the model gives for a displacement: the one output of
    /// its last layer when the displacement is passed through its layers.
    pub open spec fn output_for(self, dx: Fixed, dy: Fixed, dz: Fixed) -> Fixed {
        network_output(views_of(self.layers()), seq![dx, dy, dz])[0]
    }

    /// A model of the given layers, which must be the four layers of the
    /// architecture with all weights in range.
    pub fn new(layers: Vec<Layer>) -> (result: Result<QuarkModel, ModelError>)
        ensures
            layers.len() != LAYER_COUNT ==> result == Err::<QuarkModel, ModelError>(
                ModelError::WrongLayerCount,
            ),
            fit_architecture(layers@) ==> (result matches Ok(model) && model.layers() == layers@),
            layers.len() == LAYER_COUNT ==> forall|k: int|
                first_mismatch(layers@, k) ==> result == Err::<QuarkModel, ModelError>(
                    ModelError::LayerMismatch(k as usize),
                ),
    {
        if layers.len() != 4 {
            return Err(ModelError::WrongLayerCount);
        }
        let shapes = layer_shapes();
        let mut k: usize = 0;
        while k < 4
            invariant
                k <= 4,
                layers.len() == 4,
                shapes@ == architecture(),
                forall|earlier: int| 0 <= earlier < k ==> (#[trigger] layers[earlier])@.fits(architecture()[earlier]),
            decreases 4 - k,
        {
            if !layer_fits(&layers[k], shapes[k]) {
                assert(first_mismatch(layers@, k as int));
                assert forall|other: int| first_mismatch(layers@, other) implies other == k by {
                    if other < k {
                        assert(layers[other]@.fits(architecture()[other]));
                    } else if other > k {
                        assert(!layers[k as int]@.fits(architecture()[k as int]));
                    }
                }
                return Err(ModelError::LayerMismatch(k));
            }
            k += 1;
        }
        assert forall|other: int| !first_mismatch(layers@, other) by {
            if 0 <= other < 4 {
                assert(layers[other]@.fits(architecture()[other]));
            }
        }
        Ok(QuarkModel { layers })
    }

    /// The layers of the model, from the input to the output.
    pub fn as_layers(&self) -> (layers: &Vec<Layer>)
        ensures
            layers@ == self.layers(),
            fit_architecture(layers@),
    {
        proof {
            use_type_invariant(self);
        }
        &self.layers
    }

    /// Forward pass: the output of the network for a displacement, in
    /// normalized units.
    pub fn forward(&self, dx: Fixed, dy: Fixed, dz: Fixed) -> (output: Fixed)
        ensures
            output == self.output_for(dx, dy, dz),
    {
        proof {
            use_type_invariant(self);
        }
        let shapes = layer_shapes();
        let mut current: Vec<Fixed> = Vec::new();
        current.push(dx);
        current.push(dy);
        current.push(dz);
        assert(current@ =~= seq![dx, dy, dz]);
        assert(views_of(self.layers@).take(0) =~= Seq::<LayerView>::empty());
        let mut k: usize = 0;
        while k < 4
            invariant
                k <= 4,
                fit_architecture(self.layers@),
                shapes@ == architecture(),
                current@ == network_output(views_of(self.layers@).take(k as int), seq![dx, dy, dz]),
                k < 4 ==> current.len() == architecture()[k as int].inputs,
                k == 4 ==> current.len() == 1,
            decreases 4 - k,
        {
            assert(self.layers[k as int]@.fits(architecture()[k as int]));
            let next = apply_layer(&self.layers[k], shapes[k], &current);
            proof {
                let views = views_of(self.layers@);
                assert(views.take(k + 1).drop_last() =~= views.take(k as int));
                assert(views.take(k + 1).last() == self.layers[k as int]@);
            }
            current = next;
            k += 1;
        }
        assert(views_of(self.layers@).take(4) =~= views_of(self.layers@));
        current[0]
    }
}

impl Regressor for QuarkModel {
    open spec fn output(&self, dx: Fixed, dy: Fixed, dz: Fixed) -> Fixed {
        self.output_for(dx, dy, dz)
    }

    fn forward(&self, dx: Fixed, dy: Fixed, dz: Fixed) -> (out: Fixed) {
        QuarkModel::forward(self, dx, dy, dz)
    }
}

/// A rectified layer gives no negative output.
pub proof fn lemma_rectified_layer_is_not_negative(layer: LayerView, input: Seq<Fixed>, j: int)
    requires
        layer.rectified,
        0 <= j < layer.weights.len(),
    ensures
        layer.output(input)[j]@ >= 0,
{
}

} // verus!
