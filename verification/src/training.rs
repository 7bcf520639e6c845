//! Training data and the training loop.
//!
//! The regressor is fitted to the Cornell potential on samples drawn at
//! random: a displacement in space and the potential at its length. The
//! targets are normalized by their mean and standard deviation, which are
//! kept with the model to bring its outputs back to physical units.
//!
//! The numerical work of an epoch (forward pass, loss, optimizer step) is
//! supplied by the caller as two functions; the loop that drives them, the
//! record of the loss and the decision to stop on a loss that is not finite
//! are here.

use vstd::prelude::*;
use crate::fixed::Fixed;
use crate::fixed::fx;
use crate::fixed::floor_sqrt;
use crate::fixed::floor_sqrt_of;
use crate::fixed::lemma_floor_sqrt_unique;
use crate::fixed::trunc_div;
use crate::physics::cornell;
use crate::physics::cornell_potential;
use crate::physics::lemma_cornell_monotonic;
use crate::single::is_infinite_bits;
use crate::single::is_nan_bits;
use crate::single::is_not_finite;

verus! {

/// Smallest radius of a training sample, in millionths (0.05).
pub const MIN_RADIUS: i64 = 50_000;

/// Width of the range of radii, in millionths (2.95): the largest radius is 3.0.
pub const RADIUS_RANGE: i64 = 2_950_000;

/// Floor of the standard deviation, in millionths (0.000001).
pub const STD_FLOOR: i64 = 1;

/// Every so many epochs the loss is recorded.
pub const RECORD_STRIDE: usize = 100;

/// The statistics of the training targets that normalize them: the model is
/// trained on `(target - target_mean) / target_std`.
#[derive(Clone, Copy, Debug, PartialEq, Eq, Structural)]
pub struct ModelConfig {
    pub target_mean: Fixed,
    pub target_std: Fixed,
}

/// Why training data could not be produced.
#[derive(Clone, Copy, Debug, PartialEq, Eq, Structural)]
pub enum TrainingError {
    /// There is no sample to take statistics of.
    NoSamples,
    /// The draw at this index has a radius fraction outside of `[0, 1]`.
    DrawOutOfRange(usize),
    /// The squared deviations of the values add up to more than 128 bits hold.
    StatisticsOverflow,
}

/// Random numbers from which one training sample is built: a fraction in
/// `[0, 1]` that places the radius in its range, and the sines and cosines of
/// the azimuth `theta` and of the polar angle `phi`.
#[derive(Clone, Copy, Debug, PartialEq, Eq, Structural)]
pub struct SphericalDraw {
    pub radius_fraction: Fixed,
    pub sin_theta: Fixed,
    pub cos_theta: Fixed,
    pub sin_phi: Fixed,
    pub cos_phi: Fixed,
}

/// A set of training samples: displacements, the potential at the length of
/// each, and the statistics of those potentials.
#[derive(Debug)]
pub struct TrainingData {
    pub samples: Vec<(Fixed, Fixed, Fixed)>,
    pub targets: Vec<Fixed>,
    pub target_mean: Fixed,
    pub target_std: Fixed,
}

/// The sum of the values, in millionths.
pub open spec fn total(values: Seq<Fixed>) -> int
    decreases values.len(),
{
    if values.len() == 0 {
        0
    } else {
        total(values.drop_last()) + values.last()@
    }
}

/// The mean of the values, rounded toward zero.
pub open spec fn mean_of(values: Seq<Fixed>) -> int
    recommends
        values.len() > 0,
{
    trunc_div(total(values), values.len() as int)
}

/// The sum of the squares of the distances of the values from `center`.
pub open spec fn squared_deviations(values: Seq<Fixed>, center: int) -> int
    decreases values.len(),
{
    if values.len() == 0 {
        0
    } else {
        squared_deviations(values.drop_last(), center) + (values.last()@ - center) * (values.last()@
            - center)
    }
}

/// The population standard deviation of the values round their mean, rounded
/// down, and raised to the floor where it is below it.
pub open spec fn deviation_of(values: Seq<Fixed>) -> int
    recommends
        values.len() > 0,
{
    let spread = floor_sqrt_of(squared_deviations(values, mean_of(values)) / (values.len() as int));
    if spread < STD_FLOOR {
        STD_FLOOR as int
    } else {
        spread
    }
}

/// The sum of values between two bounds lies between the bounds times the
/// number of values.
proof fn lemma_total_bounded(values: Seq<Fixed>, low: int, high: int)
    requires
        forall|i: int| 0 <= i < values.len() ==> low <= (#[trigger] values[i])@ <= high,
    ensures
        values.len() * low <= total(values) <= values.len() * high,
    decreases values.len(),
{
    if values.len() > 0 {
        lemma_total_bounded(values.drop_last(), low, high);
        let n = values.len() as int;
        assert((n - 1) * low + low == n * low && (n - 1) * high + high == n * high)
            by (nonlinear_arith);
        assert(low <= values[n - 1]@ <= high);
    }
}

/// The mean of values between two bounds of opposite sign lies between them.
pub proof fn lemma_mean_bounded(values: Seq<Fixed>, low: int, high: int)
    requires
        values.len() > 0,
        low <= 0 <= high,
        forall|i: int| 0 <= i < values.len() ==> low <= (#[trigger] values[i])@ <= high,
    ensures
        low <= mean_of(values) <= high,
{
    lemma_total_bounded(values, low, high);
    let n = values.len() as int;
    let t = total(values);
    if t >= 0 {
        vstd::arithmetic::div_mod::lemma_div_pos_is_pos(t, n);
        vstd::arithmetic::div_mod::lemma_div_is_ordered(t, n * high, n);
        assert(n * high == high * n) by (nonlinear_arith);
        vstd::arithmetic::div_mod::lemma_div_by_multiple(high, n);
    } else {
        vstd::arithmetic::div_mod::lemma_div_pos_is_pos(-t, n);
        assert(n * (-low) == (-low) * n && -(n * low) == n * (-low)) by (nonlinear_arith);
        vstd::arithmetic::div_mod::lemma_div_is_ordered(-t, n * (-low), n);
        vstd::arithmetic::div_mod::lemma_div_by_multiple(-low, n);
    }
}

/// The squared deviations of values that lie within `reach` of the center
/// are at most the square of `reach` times the number of values.
proof fn lemma_squared_deviations_bounded(values: Seq<Fixed>, center: int, reach: int)
    requires
        reach >= 0,
        forall|i: int| 0 <= i < values.len() ==> -reach <= (#[trigger] values[i])@ - center <= reach,
    ensures
        0 <= squared_deviations(values, center) <= values.len() * (reach * reach),
    decreases values.len(),
{
    if values.len() > 0 {
        lemma_squared_deviations_bounded(values.drop_last(), center, reach);
        let n = values.len() as int;
        let d = values[n - 1]@ - center;
        assert(0 <= d * d <= reach * reach) by (nonlinear_arith)
            requires
                -reach <= d <= reach,
        ;
        assert((n - 1) * (reach * reach) + reach * reach == n * (reach * reach)) by (nonlinear_arith);
    }
}

/// The squared deviations only grow as values are added.
proof fn lemma_squared_deviations_grow(values: Seq<Fixed>, center: int, k: int)
    requires
        0 <= k <= values.len(),
    ensures
        0 <= squared_deviations(values.take(k), center) <= squared_deviations(values, center),
    decreases values.len() - k,
{
    if k == values.len() {
        assert(values.take(k) =~= values);
        lemma_squared_deviations_nonnegative(values, center);
    } else {
        lemma_squared_deviations_grow(values, center, k + 1);
        assert(values.take(k + 1).drop_last() =~= values.take(k));
        let d = values[k]@ - center;
        assert(d * d >= 0) by (nonlinear_arith);
        lemma_squared_deviations_nonnegative(values.take(k), center);
    }
}

/// Squared deviations are never negative.
proof fn lemma_squared_deviations_nonnegative(values: Seq<Fixed>, center: int)
    ensures
        0 <= squared_deviations(values, center),
    decreases values.len(),
{
    if values.len() > 0 {
        lemma_squared_deviations_nonnegative(values.drop_last(), center);
        let d = values.last()@ - center;
        assert(d * d >= 0) by (nonlinear_arith);
    }
}

/// Mean and population standard deviation of the values, the deviation
/// raised to its floor of one millionth so that it can divide.
///
/// Fails on no values, and where the squared deviations do not fit 128 bits.
pub fn target_statistics(values: &Vec<Fixed>) -> (result: Result<ModelConfig, TrainingError>)
    ensures
        values.len() == 0 ==> result == Err::<ModelConfig, TrainingError>(TrainingError::NoSamples),
        values.len() > 0 && squared_deviations(values@, mean_of(values@)) > u128::MAX ==> result
            == Err::<ModelConfig, TrainingError>(TrainingError::StatisticsOverflow),
        values.len() > 0 && squared_deviations(values@, mean_of(values@)) <= u128::MAX ==> (result matches Ok(
            config,
        ) && config.target_mean@ == mean_of(values@) && config.target_std == fx(
            deviation_of(values@),
        )),
{
    let n = values.len();
    if n == 0 {
        return Err(TrainingError::NoSamples);
    }
    let mut sum: i128 = 0;
    let mut i: usize = 0;
    while i < n
        invariant
            n == values.len(),
            i <= n,
            sum == total(values@.take(i as int)),
            i * (-0x8000_0000_0000_0000) <= sum <= i * 0x7fff_ffff_ffff_ffff,
        decreases n - i,
    {
        assert(values@.take(i + 1).drop_last() =~= values@.take(i as int));
        assert((i + 1) * (-0x8000_0000_0000_0000) == i * (-0x8000_0000_0000_0000)
            - 0x8000_0000_0000_0000 && (i + 1) * 0x7fff_ffff_ffff_ffff == i * 0x7fff_ffff_ffff_ffff
            + 0x7fff_ffff_ffff_ffff) by (nonlinear_arith);
        assert(i * 0x7fff_ffff_ffff_ffff <= 0xffff_ffff_ffff_ffff * 0x7fff_ffff_ffff_ffff && i * (
        -0x8000_0000_0000_0000) >= 0xffff_ffff_ffff_ffff * (-0x8000_0000_0000_0000))
            by (nonlinear_arith)
            requires
                0 <= i <= 0xffff_ffff_ffff_ffff,
        ;
        sum = sum + (values[i].raw as i128);
        i += 1;
    }
    assert(values@.take(n as int) =~= values@);
    proof {
        lemma_mean_bounded(values@, i64::MIN as int, i64::MAX as int);
        assert(n * (-0x8000_0000_0000_0000) >= 0xffff_ffff_ffff_ffff * (-0x8000_0000_0000_0000))
            by (nonlinear_arith)
            requires
                0 <= n <= 0xffff_ffff_ffff_ffff,
        ;
    }
    let mean: i64 = signed_quotient(sum, n) as i64;
    let mut spread_sum: u128 = 0;
    let mut k: usize = 0;
    while k < n
        invariant
            n == values.len(),
            k <= n,
            mean == mean_of(values@),
            spread_sum == squared_deviations(values@.take(k as int), mean as int),
        decreases n - k,
    {
        assert(values@.take(k + 1).drop_last() =~= values@.take(k as int));
        proof {
            lemma_squared_deviations_grow(values@, mean as int, k + 1);
        }
        let distance: i128 = (values[k].raw as i128) - (mean as i128);
        let reach: u128 = if distance < 0 {
            (-distance) as u128
        } else {
            distance as u128
        };
        assert(reach * reach == distance * distance) by (nonlinear_arith)
            requires
                reach == distance || reach == -distance,
        ;
        let square = match reach.checked_mul(reach) {
            Some(square) => square,
            None => {
                proof {
                    lemma_squared_deviations_nonnegative(values@.take(k as int), mean as int);
                }
                return Err(TrainingError::StatisticsOverflow);
            },
        };
        spread_sum = match spread_sum.checked_add(square) {
            Some(next) => next,
            None => {
                return Err(TrainingError::StatisticsOverflow);
            },
        };
        k += 1;
    }
    assert(values@.take(n as int) =~= values@);
    let variance: u128 = spread_sum / (n as u128);
    let spread: u128 = floor_sqrt(variance);
    proof {
        crate::fixed::lemma_floor_sqrt_exists(variance as int);
        lemma_floor_sqrt_unique(variance as int, spread as int, floor_sqrt_of(variance as int));
    }
    let deviation: i64 = if spread < 1 {
        1
    } else if spread > 0x7fff_ffff_ffff_ffff {
        i64::MAX
    } else {
        spread as i64
    };
    Ok(ModelConfig { target_mean: Fixed { raw: mean }, target_std: Fixed { raw: deviation } })
}

/// Quotient of a sum by a count, rounded toward zero.
fn signed_quotient(sum: i128, count: usize) -> (q: i128)
    requires
        count > 0,
        -0x8000_0000_0000_0000_0000_0000_0000_0000 < sum,
    ensures
        q == trunc_div(sum as int, count as int),
{
    let magnitude: u128 = if sum < 0 {
        (-sum) as u128
    } else {
        sum as u128
    };
    let q: u128 = magnitude / (count as u128);
    proof {
        assert(q <= magnitude) by (nonlinear_arith)
            requires
                q == magnitude / (count as u128),
                count > 0,
        ;
    }
    if sum < 0 {
        -(q as i128)
    } else {
        q as i128
    }
}

impl SphericalDraw {
    /// The radius fraction lies in `[0, 1]`.
    pub open spec fn in_range(self) -> bool {
        0 <= self.radius_fraction@ <= crate::fixed::SCALE
    }

    /// The radius of the sample: the fraction laid over the range of radii,
    /// `fraction * 2.95 + 0.05`.
    pub open spec fn radius(self) -> Fixed {
        self.radius_fraction.times(fx(RADIUS_RANGE as int)).plus(fx(MIN_RADIUS as int))
    }

    /// The displacement of the sample: the point at the radius in the
    /// direction of the two angles,
    /// `(r sin(phi) cos(theta), r sin(phi) sin(theta), r cos(phi))`.
    pub open spec fn displacement(self) -> (Fixed, Fixed, Fixed) {
        let r = self.radius();
        (
            r.times(self.sin_phi).times(self.cos_theta),
            r.times(self.sin_phi).times(self.sin_theta),
            r.times(self.cos_phi),
        )
    }

    /// A draw in range has a radius from 0.05 to 3.0.
    pub proof fn lemma_radius_in_range(self)
        requires
            self.in_range(),
        ensures
            MIN_RADIUS <= self.radius()@ <= MIN_RADIUS + RADIUS_RANGE,
    {
        let u = self.radius_fraction@;
        assert(0 <= u * 2_950_000 <= 1_000_000 * 2_950_000) by (nonlinear_arith)
            requires
                0 <= u <= 1_000_000,
        ;
        vstd::arithmetic::div_mod::lemma_div_pos_is_pos(u * 2_950_000, 1_000_000);
        vstd::arithmetic::div_mod::lemma_div_is_ordered(u * 2_950_000, 1_000_000int * 2_950_000, 1_000_000);
        assert((1_000_000 * 2_950_000int) / 1_000_000 == 2_950_000) by {
            vstd::arithmetic::div_mod::lemma_div_by_multiple(2_950_000, 1_000_000);
        }
    }

    /// The radius and the displacement of the sample.
    pub fn locate(&self) -> (place: (Fixed, (Fixed, Fixed, Fixed)))
        ensures
            place.0 == self.radius(),
            place.1 == self.displacement(),
    {
        let r = self.radius_fraction.mul(Fixed::from_raw(2_950_000)).add(Fixed::from_raw(50_000));
        let flat = r.mul(self.sin_phi);
        (r, (flat.mul(self.cos_theta), flat.mul(self.sin_theta), r.mul(self.cos_phi)))
    }
}

/// The potentials of radii within the sampled range lie between the
/// potential at the smallest radius and that at the largest.
pub proof fn lemma_sampled_potential_bounded(r: int)
    requires
        MIN_RADIUS <= r <= MIN_RADIUS + RADIUS_RANGE,
    ensures
        -13_288_333 <= cornell(r) <= 2_477_778,
{
    lemma_cornell_monotonic(50_000, r);
    lemma_cornell_monotonic(r, 3_000_000);
    assert(2_000_000_000_000int / 150_000 == 13_333_333) by {
        vstd::arithmetic::div_mod::lemma_fundamental_div_mod_converse(
            2_000_000_000_000int,
            150_000,
            13_333_333,
            50_000,
        );
    }
    assert(2_000_000_000_000int / 9_000_000 == 222_222) by {
        vstd::arithmetic::div_mod::lemma_fundamental_div_mod_converse(
            2_000_000_000_000int,
            9_000_000,
            222_222,
            2_000_000,
        );
    }
    assert((900_000int * 50_000) / 1_000_000 == 45_000) by {
        vstd::arithmetic::div_mod::lemma_div_by_multiple(45_000, 1_000_000);
    }
    assert((900_000int * 3_000_000) / 1_000_000 == 2_700_000) by {
        vstd::arithmetic::div_mod::lemma_div_by_multiple(2_700_000, 1_000_000);
    }
}

/// `data` is the training set of `draws`: one sample per draw, the target
/// of each the Cornell potential at its radius, with the statistics of the
/// targets.
pub open spec fn is_training_set(draws: Seq<SphericalDraw>, data: TrainingData) -> bool {
    &&& data.samples.len() == draws.len()
    &&& data.targets.len() == draws.len()
    &&& forall|i: int|
        0 <= i < draws.len() ==> (#[trigger] data.samples[i]) == draws[i].displacement()
    &&& forall|i: int|
        0 <= i < draws.len() ==> (#[trigger] data.targets[i])@ == cornell(draws[i].radius()@)
    &&& data.target_mean@ == mean_of(data.targets@)
    &&& data.target_std@ == deviation_of(data.targets@)
}

/// `index` is the first draw that is out of range.
pub open spec fn first_out_of_range(draws: Seq<SphericalDraw>, index: int) -> bool {
    &&& 0 <= index < draws.len()
    &&& !draws[index].in_range()
    &&& forall|i: int| 0 <= i < index ==> (#[trigger] draws[i]).in_range()
}

/// Builds the training set from random draws: for each draw the displacement
/// and the Cornell potential at the draw's radius, then the mean and the
/// floored population standard deviation of those potentials.
///
/// Fails on no draws, and on a draw whose radius fraction is outside of
/// `[0, 1]`, naming the first such draw.
pub fn generate_training_data(draws: &Vec<SphericalDraw>) -> (result: Result<
    TrainingData,
    TrainingError,
>)
    ensures
        draws.len() == 0 ==> result == Err::<TrainingData, TrainingError>(TrainingError::NoSamples),
        draws.len() > 0 && (forall|i: int| 0 <= i < draws.len() ==> (#[trigger] draws[i]).in_range())
            ==> (result matches Ok(data) && is_training_set(draws@, data)),
        forall|index: int|
            first_out_of_range(draws@, index) ==> result == Err::<TrainingData, TrainingError>(
                TrainingError::DrawOutOfRange(index as usize),
            ),
{
    let n = draws.len();
    if n == 0 {
        return Err(TrainingError::NoSamples);
    }
    let mut samples: Vec<(Fixed, Fixed, Fixed)> = Vec::new();
    let mut targets: Vec<Fixed> = Vec::new();
    let mut i: usize = 0;
    while i < n
        invariant
            n == draws.len(),
            i <= n,
            samples.len() == i,
            targets.len() == i,
            forall|k: int| 0 <= k < i ==> (#[trigger] draws[k]).in_range(),
            forall|k: int| 0 <= k < i ==> (#[trigger] samples[k]) == draws[k].displacement(),
            forall|k: int| 0 <= k < i ==> (#[trigger] targets[k])@ == cornell(draws[k].radius()@),
            forall|k: int| 0 <= k < i ==> -13_288_333 <= (#[trigger] targets[k])@ <= 2_477_778,
        decreases n - i,
    {
        let draw = draws[i];
        if draw.radius_fraction.raw < 0 || draw.radius_fraction.raw > 1_000_000 {
            assert(first_out_of_range(draws@, i as int));
            assert forall|index: int| first_out_of_range(draws@, index) implies index == i by {
                if index < i {
                    assert(draws[index].in_range());
                } else if index > i {
                    assert(draws[i as int].in_range());
                }
            }
            return Err(TrainingError::DrawOutOfRange(i));
        }
        proof {
            draw.lemma_radius_in_range();
            lemma_sampled_potential_bounded(draw.radius()@);
        }
        let (radius, displacement) = draw.locate();
        let target = match cornell_potential(radius) {
            Ok(target) => target,
            Err(_) => {
                assert(false);
                return Err(TrainingError::NoSamples);
            },
        };
        samples.push(displacement);
        targets.push(target);
        i += 1;
    }
    proof {
        // The targets are few millionths wide, so their squared deviations fit.
        lemma_mean_bounded(targets@, -13_288_333, 2_477_778);
        let center = mean_of(targets@);
        assert forall|k: int| 0 <= k < targets@.len() implies -0x100_0000 <= (#[trigger] targets@[k])@
            - center <= 0x100_0000 by {}
        lemma_squared_deviations_bounded(targets@, center, 0x100_0000);
        assert(targets@.len() * (0x100_0000int * 0x100_0000int) <= u128::MAX) by (nonlinear_arith)
            requires
                targets@.len() <= 0xffff_ffff_ffff_ffff,
        ;
        assert forall|index: int| !first_out_of_range(draws@, index) by {
            if 0 <= index < draws.len() {
                assert(draws[index].in_range());
            }
        }
    }
    match target_statistics(&targets) {
        Ok(config) => {
            proof {
                // The deviation of values this close together needs no clamping.
                lemma_deviation_bounded(targets@, 0x100_0000);
            }
            Ok(
                TrainingData {
                    samples,
                    targets,
                    target_mean: config.target_mean,
                    target_std: config.target_std,
                },
            )
        },
        Err(e) => {
            assert(false);
            Err(e)
        },
    }
}

/// The standard deviation of values that lie within `reach` of their mean
/// is at most `reach`, or the floor.
proof fn lemma_deviation_bounded(values: Seq<Fixed>, reach: int)
    requires
        values.len() > 0,
        reach >= 1,
        forall|i: int|
            0 <= i < values.len() ==> -reach <= (#[trigger] values[i])@ - mean_of(values) <= reach,
    ensures
        STD_FLOOR <= deviation_of(values) <= reach,
{
    let n = values.len() as int;
    let spread_sum = squared_deviations(values, mean_of(values));
    lemma_squared_deviations_bounded(values, mean_of(values), reach);
    let variance = spread_sum / n;
    vstd::arithmetic::div_mod::lemma_div_pos_is_pos(spread_sum, n);
    vstd::arithmetic::div_mod::lemma_div_is_ordered(spread_sum, n * (reach * reach), n);
    assert(n * (reach * reach) == (reach * reach) * n) by (nonlinear_arith);
    vstd::arithmetic::div_mod::lemma_div_by_multiple(reach * reach, n);
    crate::fixed::lemma_floor_sqrt_exists(variance);
    let root = floor_sqrt_of(variance);
    assert(root <= reach) by (nonlinear_arith)
        requires
            0 <= root,
            root * root <= variance,
            variance <= reach * reach,
            reach >= 1,
    ;
}

/// What one epoch reports to the training loop.
#[derive(Clone, Copy, Debug, PartialEq, Eq, Structural)]
pub struct EpochReport {
    /// The loss in normalized units, as the bit pattern of a single-precision
    /// number.
    pub loss_bits: u32,
    /// The loss in physical units; read only in the epochs that are recorded.
    pub physical_loss: Fixed,
}

/// What a training run leaves.
#[derive(Debug)]
pub struct TrainingOutcome {
    /// The loss in physical units at every recorded epoch, in order.
    pub loss_history: Vec<(usize, Fixed)>,
    /// The epoch whose loss was not finite and stopped the run, if any.
    pub halted_at: Option<usize>,
}

/// The history of the first `epochs_done` epochs: the physical loss of every
/// epoch among them that is a multiple of the stride, with its epoch.
pub open spec fn history_of(reports: Seq<EpochReport>, epochs_done: int) -> Seq<(usize, Fixed)>
    decreases epochs_done,
{
    if epochs_done <= 0 {
        Seq::empty()
    } else {
        let earlier = history_of(reports, epochs_done - 1);
        let epoch = epochs_done - 1;
        if epoch % (RECORD_STRIDE as int) == 0 {
            earlier.push((epoch as usize, reports[epoch].physical_loss))
        } else {
            earlier
        }
    }
}

/// `outcome` is what training leaves after the epochs reported `reports`:
/// every report came from evaluating its epoch; either all `epochs` epochs
/// had a finite loss, or the last report is the first loss that was not
/// finite and the run halted there; and the history holds the recorded
/// epochs that were completed.
pub open spec fn trained<E, F: Fn(usize, bool) -> Result<EpochReport, E>>(
    evaluate: &F,
    epochs: usize,
    reports: Seq<EpochReport>,
    outcome: TrainingOutcome,
) -> bool {
    &&& forall|k: int|
        0 <= k < reports.len() ==> evaluate.ensures(
            (k as usize, k % (RECORD_STRIDE as int) == 0),
            Ok::<EpochReport, E>(#[trigger] reports[k]),
        )
    &&& match outcome.halted_at {
        None => {
            &&& reports.len() == epochs
            &&& forall|k: int|
                0 <= k < epochs ==> !is_nan_bits((#[trigger] reports[k]).loss_bits) && !is_infinite_bits(
                    reports[k].loss_bits,
                )
            &&& outcome.loss_history@ == history_of(reports, epochs as int)
        },
        Some(halt) => {
            &&& halt < epochs
            &&& reports.len() == halt + 1
            &&& is_nan_bits(reports[halt as int].loss_bits) || is_infinite_bits(
                reports[halt as int].loss_bits,
            )
            &&& forall|k: int|
                0 <= k < halt ==> !is_nan_bits((#[trigger] reports[k]).loss_bits) && !is_infinite_bits(
                    reports[k].loss_bits,
                )
            &&& outcome.loss_history@ == history_of(reports, halt as int)
        },
    }
}

/// The error `e` is one that evaluating epoch `epoch`, or applying its step,
/// ended with.
pub open spec fn failed_at<
    E,
    F: Fn(usize, bool) -> Result<EpochReport, E>,
    G: Fn(usize) -> Result<(), E>,
>(evaluate: &F, apply_step: &G, epoch: usize, e: E) -> bool {
    evaluate.ensures((epoch, epoch % RECORD_STRIDE == 0), Err::<EpochReport, E>(e))
        || apply_step.ensures((epoch,), Err::<(), E>(e))
}

/// The history of the first epochs does not depend on later reports.
proof fn lemma_history_reads_prefix(a: Seq<EpochReport>, b: Seq<EpochReport>, epochs_done: int)
    requires
        forall|k: int| 0 <= k < epochs_done ==> a[k] == b[k],
    ensures
        history_of(a, epochs_done) == history_of(b, epochs_done),
    decreases epochs_done,
{
    if epochs_done > 0 {
        lemma_history_reads_prefix(a, b, epochs_done - 1);
    }
}

/// The loss history is recorded at a fixed stride and only ever appended to:
/// entry `i` is the loss of epoch `100 i`, the epochs `0, 100, 200, ...`
/// below `epochs_done` are all there, and the history of fewer epochs is a
/// prefix of the history of more.
pub proof fn lemma_history_shape(reports: Seq<EpochReport>, epochs_done: int)
    requires
        0 <= epochs_done <= usize::MAX,
    ensures
        history_of(reports, epochs_done).len() == (epochs_done + RECORD_STRIDE - 1) / (
        RECORD_STRIDE as int),
        forall|i: int|
            0 <= i < history_of(reports, epochs_done).len() ==> (#[trigger] history_of(
                reports,
                epochs_done,
            )[i]) == ((RECORD_STRIDE * i) as usize, reports[RECORD_STRIDE * i].physical_loss),
        forall|fewer: int|
            0 <= fewer <= epochs_done ==> (#[trigger] history_of(reports, fewer)).is_prefix_of(
                history_of(reports, epochs_done),
            ),
    decreases epochs_done,
{
    if epochs_done > 0 {
        lemma_history_shape(reports, epochs_done - 1);
        let epoch = epochs_done - 1;
        let earlier = history_of(reports, epoch);
        let now = history_of(reports, epochs_done);
        if epoch % 100 == 0 {
            vstd::arithmetic::div_mod::lemma_fundamental_div_mod(epoch, 100);
            vstd::arithmetic::div_mod::lemma_fundamental_div_mod_converse(
                epoch + 99,
                100,
                epoch / 100,
                99,
            );
            vstd::arithmetic::div_mod::lemma_fundamental_div_mod_converse(
                epoch + 100,
                100,
                epoch / 100 + 1,
                0,
            );
        } else {
            vstd::arithmetic::div_mod::lemma_fundamental_div_mod(epoch, 100);
            vstd::arithmetic::div_mod::lemma_fundamental_div_mod_converse(
                epoch + 99,
                100,
                epoch / 100 + 1,
                epoch % 100 - 1,
            );
            vstd::arithmetic::div_mod::lemma_fundamental_div_mod_converse(
                epoch + 100,
                100,
                epoch / 100 + 1,
                epoch % 100,
            );
        }
        assert forall|fewer: int| 0 <= fewer <= epochs_done implies (#[trigger] history_of(
            reports,
            fewer,
        )).is_prefix_of(now) by {
            if fewer < epochs_done {
                assert(history_of(reports, fewer).is_prefix_of(earlier));
            }
        }
    } else {
        assert((0 + 100 - 1) / 100 == 0) by {
            vstd::arithmetic::div_mod::lemma_basic_div(99, 100);
        }
    }
}

/// Runs the training loop for `epochs` epochs.
///
/// In every epoch `evaluate` is called with the epoch and with whether the
/// epoch is recorded (every hundredth is); it makes the forward pass and
/// reports the loss. A loss that is NaN or infinite halts the run at once:
/// no step is applied for that epoch and the history recorded so far is
/// returned with the epoch of the halt. Otherwise `apply_step` makes the
/// optimizer step and, in a recorded epoch, the loss in physical units is
/// appended to the history. An error of either function ends the run with
/// that error.
pub fn train_model<E, F: Fn(usize, bool) -> Result<EpochReport, E>, G: Fn(usize) -> Result<(), E>>(
    evaluate: &F,
    apply_step: &G,
    epochs: usize,
) -> (result: Result<TrainingOutcome, E>)
    requires
        forall|epoch: usize, record: bool| evaluate.requires((epoch, record)),
        forall|epoch: usize| apply_step.requires((epoch,)),
    ensures
        result matches Ok(outcome) ==> exists|reports: Seq<EpochReport>| #[trigger]
            trained(evaluate, epochs, reports, outcome),
        result matches Err(e) ==> exists|epoch: usize|
            epoch < epochs && #[trigger] failed_at(evaluate, apply_step, epoch, e),
{
    let mut loss_history: Vec<(usize, Fixed)> = Vec::new();
    let ghost mut reports: Seq<EpochReport> = Seq::empty();
    let mut epoch: usize = 0;
    while epoch < epochs
        invariant
            forall|epoch: usize, record: bool| evaluate.requires((epoch, record)),
            forall|epoch: usize| apply_step.requires((epoch,)),
            epoch <= epochs,
            reports.len() == epoch,
            forall|k: int|
                0 <= k < reports.len() ==> evaluate.ensures(
                    (k as usize, k % (RECORD_STRIDE as int) == 0),
                    Ok::<EpochReport, E>(#[trigger] reports[k]),
                ),
            forall|k: int|
                0 <= k < epoch ==> !is_nan_bits((#[trigger] reports[k]).loss_bits) && !is_infinite_bits(
                    reports[k].loss_bits,
                ),
            loss_history@ == history_of(reports, epoch as int),
        decreases epochs - epoch,
    {
        let record = epoch % 100 == 0;
        let report = match evaluate(epoch, record) {
            Ok(report) => report,
            Err(e) => {
                let failure: Result<TrainingOutcome, E> = Err(e);
                assert(failure matches Err(cause) ==> failed_at(evaluate, apply_step, epoch, cause));
                return failure;
            },
        };
        let ghost earlier = reports;
        proof {
            reports = reports.push(report);
            lemma_history_reads_prefix(earlier, reports, epoch as int);
        }
        if is_not_finite(report.loss_bits) {
            let outcome = TrainingOutcome { loss_history, halted_at: Some(epoch) };
            assert(trained(evaluate, epochs, reports, outcome));
            return Ok(outcome);
        }
        match apply_step(epoch) {
            Ok(_) => {},
            Err(e) => {
                let failure: Result<TrainingOutcome, E> = Err(e);
                assert(failure matches Err(cause) ==> failed_at(evaluate, apply_step, epoch, cause));
                return failure;
            },
        }
        if record {
            loss_history.push((epoch, report.physical_loss));
        }
        epoch += 1;
    }
    let outcome = TrainingOutcome { loss_history, halted_at: None };
    assert(trained(evaluate, epochs, reports, outcome));
    Ok(outcome)
}

} // verus!
