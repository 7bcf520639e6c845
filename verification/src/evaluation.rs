//! Comparison of a trained regressor with the Cornell potential.
//!
//! The regressor is asked along the positive x axis, at a few probe
//! distances and on a fine grid, and its denormalized answers are set beside
//! the closed-form potential. The relative error of a prediction and the
//! trend of a loss history are measured here as well.

use vstd::prelude::*;
use crate::fixed::Fixed;
use crate::fixed::fx;
use crate::fixed::SCALE;
use crate::field::denormalized;
use crate::physics::cornell;
use crate::physics::cornell_potential;
use crate::regressor::Regressor;

verus! {

/// Number of points of the potential curves: radii 0.10, 0.11, ..., 2.50.
pub const CURVE_POINTS: usize = 241;

/// The distances at which the regressor is probed, in fm.
pub open spec fn probe_distances() -> Seq<Fixed> {
    seq![
        fx(100_000),
        fx(200_000),
        fx(400_000),
        fx(600_000),
        fx(800_000),
        fx(1_000_000),
        fx(1_300_000),
        fx(1_600_000),
        fx(2_000_000),
        fx(2_400_000),
        fx(2_800_000),
    ]
}

/// Radius of point `i` of the potential curves: `(10 + i) * 0.01`.
pub open spec fn curve_radius(i: int) -> Fixed {
    fx((10 + i) * 10_000)
}

/// The prediction of the regressor at distance `r` along the x axis: its
/// output for the displacement `(r, 0, 0)`, denormalized.
pub open spec fn prediction_at<R: Regressor>(model: &R, r: Fixed, mean: Fixed, std: Fixed) -> Fixed {
    denormalized(model.output(r, fx(0), fx(0)), mean, std)
}

/// The regressor set beside the closed-form potential.
#[derive(Debug)]
pub struct ModelReport {
    /// The probe distances.
    pub test_distances: Vec<Fixed>,
    /// The Cornell potential at each probe distance.
    pub cornell_values: Vec<Fixed>,
    /// The regressor's prediction at each probe distance.
    pub nn_values: Vec<Fixed>,
    /// The curve of the Cornell potential: radius and potential.
    pub potential_theory: Vec<(Fixed, Fixed)>,
    /// The curve of the regressor: radius and prediction.
    pub potential_nn: Vec<(Fixed, Fixed)>,
}

/// `report` is the report on `model`: the closed-form values are those of the
/// Cornell potential and the predictions are those of the model at the same
/// radii.
pub open spec fn reports_on<R: Regressor>(model: &R, mean: Fixed, std: Fixed, report: ModelReport) -> bool {
    &&& report.test_distances@ == probe_distances()
    &&& report.cornell_values.len() == probe_distances().len()
    &&& report.nn_values.len() == probe_distances().len()
    &&& forall|i: int|
        0 <= i < probe_distances().len() ==> (#[trigger] report.cornell_values[i])@ == cornell(
            probe_distances()[i]@,
        )
    &&& forall|i: int|
        0 <= i < probe_distances().len() ==> (#[trigger] report.nn_values[i]) == prediction_at(
            model,
            probe_distances()[i],
            mean,
            std,
        )
    &&& report.potential_theory.len() == CURVE_POINTS
    &&& report.potential_nn.len() == CURVE_POINTS
    &&& forall|i: int|
        0 <= i < CURVE_POINTS ==> (#[trigger] report.potential_theory[i]).0 == curve_radius(i)
            && report.potential_theory[i].1@ == cornell(curve_radius(i)@)
    &&& forall|i: int|
        0 <= i < CURVE_POINTS ==> (#[trigger] report.potential_nn[i]) == (
            curve_radius(i),
            prediction_at(model, curve_radius(i), mean, std),
        )
}

/// The regressor's denormalized prediction at distance `r` along the x axis.
pub fn predict_along_axis<R: Regressor>(model: &R, r: Fixed, mean: Fixed, std: Fixed) -> (value: Fixed)
    ensures
        value == prediction_at(model, r, mean, std),
{
    let output = model.forward(r, Fixed::zero(), Fixed::zero());
    output.mul(std).add(mean)
}

/// The Cornell potential at a radius known to be positive.
fn cornell_at(r: Fixed) -> (v: Fixed)
    requires
        r@ > 0,
    ensures
        v@ == cornell(r@),
{
    match cornell_potential(r) {
        Ok(v) => v,
        Err(_) => Fixed::zero(),
    }
}

/// The probe distances.
pub fn test_distances() -> (distances: Vec<Fixed>)
    ensures
        distances@ == probe_distances(),
{
    let mut distances: Vec<Fixed> = Vec::new();
    distances.push(Fixed::from_raw(100_000));
    distances.push(Fixed::from_raw(200_000));
    distances.push(Fixed::from_raw(400_000));
    distances.push(Fixed::from_raw(600_000));
    distances.push(Fixed::from_raw(800_000));
    distances.push(Fixed::from_raw(1_000_000));
    distances.push(Fixed::from_raw(1_300_000));
    distances.push(Fixed::from_raw(1_600_000));
    distances.push(Fixed::from_raw(2_000_000));
    distances.push(Fixed::from_raw(2_400_000));
    distances.push(Fixed::from_raw(2_800_000));
    assert(distances@ =~= probe_distances());
    distances
}

/// Probes the regressor at the probe distances and along the curve grid, and
/// sets its predictions beside the Cornell potential.
pub fn test_model<R: Regressor>(model: &R, mean: Fixed, std: Fixed) -> (report: ModelReport)
    ensures
        reports_on(model, mean, std, report),
{
    let distances = test_distances();
    let mut cornell_values: Vec<Fixed> = Vec::new();
    let mut nn_values: Vec<Fixed> = Vec::new();
    let mut i: usize = 0;
    while i < distances.len()
        invariant
            distances@ == probe_distances(),
            i <= distances.len(),
            cornell_values.len() == i,
            nn_values.len() == i,
            forall|k: int|
                0 <= k < i ==> (#[trigger] cornell_values[k])@ == cornell(probe_distances()[k]@),
            forall|k: int|
                0 <= k < i ==> (#[trigger] nn_values[k]) == prediction_at(
                    model,
                    probe_distances()[k],
                    mean,
                    std,
                ),
        decreases distances.len() - i,
    {
        let r = distances[i];
        cornell_values.push(cornell_at(r));
        nn_values.push(predict_along_axis(model, r, mean, std));
        i += 1;
    }
    let mut potential_theory: Vec<(Fixed, Fixed)> = Vec::new();
    let mut potential_nn: Vec<(Fixed, Fixed)> = Vec::new();
    let mut j: usize = 0;
    while j < 241
        invariant
            j <= 241,
            potential_theory.len() == j,
            potential_nn.len() == j,
            forall|k: int|
                0 <= k < j ==> (#[trigger] potential_theory[k]).0 == curve_radius(k)
                    && potential_theory[k].1@ == cornell(curve_radius(k)@),
            forall|k: int|
                0 <= k < j ==> (#[trigger] potential_nn[k]) == (
                    curve_radius(k),
                    prediction_at(model, curve_radius(k), mean, std),
                ),
        decreases 241 - j,
    {
        let r = Fixed::from_raw((10 + j as i64) * 10_000);
        potential_theory.push((r, cornell_at(r)));
        potential_nn.push((r, predict_along_axis(model, r, mean, std)));
        j += 1;
    }
    ModelReport { test_distances: distances, cornell_values, nn_values, potential_theory, potential_nn }
}

/// The relative error of `predicted` against `truth` in percent:
/// `|predicted - truth| / |truth| * 100`.
pub open spec fn relative_error_of(predicted: Fixed, truth: Fixed) -> Fixed
    recommends
        truth@ != 0,
{
    predicted.minus(truth).magnitude().over(truth.magnitude()).times(fx(100 * SCALE))
}

/// The relative error of a prediction in percent, where the true value is
/// not zero.
pub fn relative_error_percent(predicted: Fixed, truth: Fixed) -> (error: Option<Fixed>)
    ensures
        truth@ == 0 ==> error.is_none(),
        truth@ != 0 ==> error == Some(relative_error_of(predicted, truth)),
{
    if truth.raw == 0 {
        None
    } else {
        let size = truth.abs();
        Some(predicted.sub(truth).abs().div(size).mul(Fixed::from_int(100)))
    }
}

/// How well a prediction agrees with the true value.
#[derive(Clone, Copy, Debug, PartialEq, Eq, Structural)]
pub enum Agreement {
    /// The relative error is under 5 percent.
    Close,
    /// The relative error is under 20 percent.
    Fair,
    /// The relative error is 20 percent or more.
    Poor,
}

/// Grades a relative error given in percent.
pub fn grade_error(percent: Fixed) -> (grade: Agreement)
    ensures
        percent@ < 5 * SCALE ==> grade == Agreement::Close,
        5 * SCALE <= percent@ < 20 * SCALE ==> grade == Agreement::Fair,
        20 * SCALE <= percent@ ==> grade == Agreement::Poor,
{
    if percent.raw < 5_000_000 {
        Agreement::Close
    } else if percent.raw < 20_000_000 {
        Agreement::Fair
    } else {
        Agreement::Poor
    }
}

/// The number of consecutive pairs among the first `upto` entries of the
/// history in which the loss does not rise.
pub open spec fn falling_pairs(history: Seq<(usize, Fixed)>, upto: int) -> int
    decreases upto,
{
    if upto <= 1 {
        0
    } else {
        falling_pairs(history, upto - 1) + if history[upto - 1].1@ <= history[upto - 2].1@ {
            1int
        } else {
            0int
        }
    }
}

/// Counts the consecutive pairs of recorded losses in which the loss does not
/// rise, and the pairs there are.
pub fn loss_trend(history: &Vec<(usize, Fixed)>) -> (counts: (usize, usize))
    ensures
        counts.0 == falling_pairs(history@, history.len() as int),
        counts.1 == if history.len() == 0 {
            0int
        } else {
            history.len() - 1
        },
        counts.0 <= counts.1,
{
    if history.len() < 2 {
        return (0, 0);
    }
    let mut falling: usize = 0;
    let mut i: usize = 1;
    while i < history.len()
        invariant
            1 <= i <= history.len(),
            falling == falling_pairs(history@, i as int),
            falling <= i - 1,
        decreases history.len() - i,
    {
        if history[i].1.raw <= history[i - 1].1.raw {
            falling += 1;
        }
        i += 1;
    }
    (falling, history.len() - 1)
}

} // verus!
