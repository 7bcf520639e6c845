//! The field that a scattered particle moves in.
//!
//! A regressor gives the potential of one target charge as a function of the
//! displacement from it, in normalized units. The total potential at a point
//! is the plain sum, over all target charges, of the regressor's
//! denormalized output; the force is its forward-difference gradient,
//! scaled. A second, independent contributor is a rotational force from the
//! targets' spins.

use vstd::prelude::*;
use crate::fixed::Fixed;
use crate::fixed::fx;
use crate::fixed::is_floor_sqrt;
use crate::fixed::SCALE;
use crate::regressor::Regressor;

verus! {

/// Step of the forward difference that estimates the gradient, in millionths (0.02).
pub const GRADIENT_STEP: i64 = 20_000;

/// Spin of the scattered electron, in millionths (-0.5).
pub const ELECTRON_SPIN: i64 = -500_000;

/// Squared distance below which a target exerts no spin force, in millionths (0.1).
pub const SPIN_CUTOFF: i64 = 100_000;

/// Strength of the spin interaction used by the scattering scenario, in millionths (0.05).
pub const SPIN_COEFFICIENT: i64 = 50_000;

/// A fixed source of the potential: a position in the simulation plane and,
/// where the spin interaction applies to it, a spin of plus or minus one half.
#[derive(Clone, Copy, Debug, PartialEq, Eq)]
pub struct TargetCharge {
    pub x: Fixed,
    pub y: Fixed,
    pub spin: Option<Fixed>,
}

/// The three charges of the default target: two up-type charges with spin
/// +1/2 and one down-type charge with spin -1/2, on a triangle round the
/// origin.
pub open spec fn proton_quarks() -> Seq<TargetCharge> {
    seq![
        (TargetCharge { x: fx(-400_000), y: fx(-300_000), spin: Some(fx(500_000)) }),
        (TargetCharge { x: fx(400_000), y: fx(-300_000), spin: Some(fx(500_000)) }),
        (TargetCharge { x: fx(0), y: fx(500_000), spin: Some(fx(-500_000)) }),
    ]
}

/// The default target configuration.
pub fn get_proton_quarks() -> (targets: Vec<TargetCharge>)
    ensures
        targets@ == proton_quarks(),
{
    let mut targets: Vec<TargetCharge> = Vec::new();
    targets.push(
        TargetCharge {
            x: Fixed::from_raw(-400_000),
            y: Fixed::from_raw(-300_000),
            spin: Some(Fixed::from_raw(500_000)),
        },
    );
    targets.push(
        TargetCharge {
            x: Fixed::from_raw(400_000),
            y: Fixed::from_raw(-300_000),
            spin: Some(Fixed::from_raw(500_000)),
        },
    );
    targets.push(
        TargetCharge {
            x: Fixed::from_raw(0),
            y: Fixed::from_raw(500_000),
            spin: Some(Fixed::from_raw(-500_000)),
        },
    );
    assert(targets@ =~= proton_quarks());
    targets
}

/// A regressor output `output` brought back to physical units with the
/// statistics of the training targets: `output * std + mean`.
pub open spec fn denormalized(output: Fixed, mean: Fixed, std: Fixed) -> Fixed {
    output.times(std).plus(mean)
}

/// The sum of the denormalized outputs, taken in order from zero.
pub open spec fn superposition(outputs: Seq<Fixed>, mean: Fixed, std: Fixed) -> Fixed
    decreases outputs.len(),
{
    if outputs.len() == 0 {
        fx(0)
    } else {
        superposition(outputs.drop_last(), mean, std).plus(denormalized(outputs.last(), mean, std))
    }
}

/// What the regressor answers for a probe at `(x, y)` about `target`: its
/// output for the probe's position relative to the target, in the plane.
pub open spec fn answer_for<R: Regressor>(model: &R, x: Fixed, y: Fixed, target: TargetCharge) -> Fixed {
    model.output(x.minus(target.x), y.minus(target.y), fx(0))
}

/// The regressor's answers for a probe at `(x, y)`, one per target.
pub open spec fn answers_for<R: Regressor>(
    model: &R,
    x: Fixed,
    y: Fixed,
    targets: Seq<TargetCharge>,
) -> Seq<Fixed> {
    Seq::new(targets.len(), |i: int| answer_for(model, x, y, targets[i]))
}

/// The total potential at `(x, y)`: the superposition of the regressor's
/// answers about all targets.
pub open spec fn potential_of<R: Regressor>(
    model: &R,
    x: Fixed,
    y: Fixed,
    targets: Seq<TargetCharge>,
    mean: Fixed,
    std: Fixed,
) -> Fixed {
    superposition(answers_for(model, x, y, targets), mean, std)
}

/// One component of the force: minus the forward difference of the potential
/// over the step, times the scale.
pub open spec fn gradient_component(probe: Fixed, here: Fixed, step: Fixed, scale: Fixed) -> Fixed
    recommends
        step@ != 0,
{
    probe.minus(here).negated().over(step).times(scale)
}

/// The force from the potential's gradient at `(x, y)`: for each axis, minus
/// the forward difference of the total potential over one gradient step
/// along the axis, times the scale.
pub open spec fn gradient_force_of<R: Regressor>(
    model: &R,
    x: Fixed,
    y: Fixed,
    targets: Seq<TargetCharge>,
    mean: Fixed,
    std: Fixed,
    scale: Fixed,
) -> (Fixed, Fixed) {
    let step = fx(GRADIENT_STEP as int);
    let here = potential_of(model, x, y, targets, mean, std);
    let along_x = potential_of(model, x.plus(step), y, targets, mean, std);
    let along_y = potential_of(model, x, y.plus(step), targets, mean, std);
    (gradient_component(along_x, here, step, scale), gradient_component(along_y, here, step, scale))
}

/// Where the potential rises along an axis, the forward difference (a probe
/// one step ahead, where the potential is higher) and the backward difference
/// (a probe one step behind, where it is lower, over the negated step) agree
/// in sign: neither gives a positive force component. Where the potential
/// falls, neither gives a negative one.
pub proof fn lemma_gradient_sign_agrees(
    behind: Fixed,
    here: Fixed,
    ahead: Fixed,
    step: Fixed,
    scale: Fixed,
)
    requires
        step@ > 0,
        scale@ >= 0,
    ensures
        behind@ <= here@ <= ahead@ ==> gradient_component(ahead, here, step, scale)@ <= 0
            && gradient_component(behind, here, step.negated(), scale)@ <= 0,
        behind@ >= here@ >= ahead@ ==> gradient_component(ahead, here, step, scale)@ >= 0
            && gradient_component(behind, here, step.negated(), scale)@ >= 0,
{
    let forward = ahead.minus(here).negated();
    let backward = behind.minus(here).negated();
    forward.lemma_over_sign(step);
    backward.lemma_over_sign(step.negated());
    forward.over(step).lemma_times_sign(scale);
    backward.over(step.negated()).lemma_times_sign(scale);
}

/// The denormalized sum of regressor outputs.
pub fn superpose(outputs: &Vec<Fixed>, mean: Fixed, std: Fixed) -> (v: Fixed)
    ensures
        v == superposition(outputs@, mean, std),
{
    let mut total = Fixed::zero();
    let mut i: usize = 0;
    while i < outputs.len()
        invariant
            i <= outputs.len(),
            total == superposition(outputs@.take(i as int), mean, std),
        decreases outputs.len() - i,
    {
        assert(outputs@.take(i + 1).drop_last() =~= outputs@.take(i as int));
        total = total.add(outputs[i].mul(std).add(mean));
        i += 1;
    }
    assert(outputs@.take(i as int) =~= outputs@);
    total
}

/// Total potential at `(x, y)`: the regressor is asked once per target, for
/// the displacement from that target, and its denormalized answers are added
/// up.
pub fn total_potential<R: Regressor>(
    x: Fixed,
    y: Fixed,
    targets: &Vec<TargetCharge>,
    model: &R,
    mean: Fixed,
    std: Fixed,
) -> (v: Fixed)
    ensures
        v == potential_of(model, x, y, targets@, mean, std),
{
    let mut outputs: Vec<Fixed> = Vec::new();
    let mut i: usize = 0;
    while i < targets.len()
        invariant
            i <= targets.len(),
            outputs@ == answers_for(model, x, y, targets@.take(i as int)),
        decreases targets.len() - i,
    {
        let target = targets[i];
        let output = model.forward(x.sub(target.x), y.sub(target.y), Fixed::zero());
        outputs.push(output);
        assert(outputs@ =~= answers_for(model, x, y, targets@.take(i + 1)));
        i += 1;
    }
    assert(targets@.take(i as int) =~= targets@);
    superpose(&outputs, mean, std)
}

/// The force from the potential's gradient, from three total potentials.
pub fn force_from_potentials(here: Fixed, along_x: Fixed, along_y: Fixed, scale: Fixed) -> (f: (
    Fixed,
    Fixed,
))
    ensures
        f == (
            gradient_component(along_x, here, fx(GRADIENT_STEP as int), scale),
            gradient_component(along_y, here, fx(GRADIENT_STEP as int), scale),
        ),
{
    let step = Fixed::from_raw(20_000);
    (force_component(along_x, here, step, scale), force_component(along_y, here, step, scale))
}

/// One component of the force from the potential at the point and at a probe
/// that lies `step` further along the component's axis: minus the difference
/// of the potentials over the step, times the scale. A negative step makes
/// it a backward difference. The step must not be zero.
pub fn force_component(probe: Fixed, here: Fixed, step: Fixed, scale: Fixed) -> (f: Fixed)
    requires
        step@ != 0,
    ensures
        f == gradient_component(probe, here, step, scale),
{
    probe.sub(here).neg().div(step).mul(scale)
}

/// Force at `(x, y)`: minus the forward-difference gradient of the total
/// potential, times `scale`.
pub fn force<R: Regressor>(
    x: Fixed,
    y: Fixed,
    targets: &Vec<TargetCharge>,
    model: &R,
    mean: Fixed,
    std: Fixed,
    scale: Fixed,
) -> (f: (Fixed, Fixed))
    ensures
        f == gradient_force_of(model, x, y, targets@, mean, std, scale),
{
    let step = Fixed::from_raw(20_000);
    let here = total_potential(x, y, targets, model, mean, std);
    let along_x = total_potential(x.add(step), y, targets, model, mean, std);
    let along_y = total_potential(x, y.add(step), targets, model, mean, std);
    force_from_potentials(here, along_x, along_y, scale)
}

/// What one target adds to the spin force on an electron at `(x, y)`.
///
/// A target without a spin, or closer than the cutoff (squared distance under
/// 0.1), adds nothing. Otherwise the force is perpendicular to the separation
/// `(dx, dy)` from the target, along `(-dy, dx)`, with strength
/// `(spin * electron spin) / d^3 * coefficient`, where `d^3` is the squared
/// distance times its square root.
pub open spec fn spin_contribution(x: Fixed, y: Fixed, target: TargetCharge, coefficient: Fixed) -> (
    Fixed,
    Fixed,
) {
    let dx = x.minus(target.x);
    let dy = y.minus(target.y);
    let d2 = dx.times(dx).plus(dy.times(dy));
    match target.spin {
        Some(spin) => if d2@ < SPIN_CUTOFF {
            (fx(0), fx(0))
        } else {
            let strength = spin.times(fx(ELECTRON_SPIN as int)).over(d2.times(d2.root())).times(
                coefficient,
            );
            (dy.negated().times(strength), dx.times(strength))
        },
        None => (fx(0), fx(0)),
    }
}

/// The spin force on an electron at `(x, y)`: the contributions of all
/// targets, added up in order from zero.
pub open spec fn spin_force_of(x: Fixed, y: Fixed, targets: Seq<TargetCharge>, coefficient: Fixed) -> (
    Fixed,
    Fixed,
)
    decreases targets.len(),
{
    if targets.len() == 0 {
        (fx(0), fx(0))
    } else {
        let rest = spin_force_of(x, y, targets.drop_last(), coefficient);
        let last = spin_contribution(x, y, targets.last(), coefficient);
        (rest.0.plus(last.0), rest.1.plus(last.1))
    }
}

/// Beyond the cutoff the cube of the distance is not zero, so the strength of
/// the spin force is defined.
proof fn lemma_cubed_distance_positive(d2: Fixed)
    requires
        d2@ >= SPIN_CUTOFF,
    ensures
        d2.times(d2.root())@ > 0,
{
    let n = d2@ * SCALE as int;
    // The root of at least 0.1 is at least 0.316227.
    assert(exists|r: int| is_floor_sqrt(n, r)) by {
        crate::fixed::lemma_floor_sqrt_exists(n);
    }
    let r = crate::fixed::floor_sqrt_of(n);
    assert(is_floor_sqrt(n, r));
    assert(r >= 316_227 && r < 0x1_0000_0000_0000) by (nonlinear_arith)
        requires
            0 <= r,
            r * r <= n,
            n < (r + 1) * (r + 1),
            100_000_000_000 <= n,
            n <= 0x8000_0000_0000_0000 * 1_000_000,
    ;
    assert(d2.root()@ == r);
    assert(d2@ * r >= 1_000_000) by (nonlinear_arith)
        requires
            d2@ >= 100_000,
            r >= 316_227,
    ;
    vstd::arithmetic::div_mod::lemma_div_is_ordered(1_000_000, d2@ * r, 1_000_000);
}

/// What one target adds to the spin force.
fn spin_push(x: Fixed, y: Fixed, target: &TargetCharge, coefficient: Fixed) -> (f: (Fixed, Fixed))
    ensures
        f == spin_contribution(x, y, *target, coefficient),
{
    let dx = x.sub(target.x);
    let dy = y.sub(target.y);
    let d2 = dx.mul(dx).add(dy.mul(dy));
    match target.spin {
        Some(spin) => {
            if d2.raw < 100_000 {
                (Fixed::zero(), Fixed::zero())
            } else {
                proof {
                    lemma_cubed_distance_positive(d2);
                }
                let cube = d2.mul(d2.sqrt());
                let strength = spin.mul(Fixed::from_raw(-500_000)).div(cube).mul(coefficient);
                (dy.neg().mul(strength), dx.mul(strength))
            }
        },
        None => (Fixed::zero(), Fixed::zero()),
    }
}

/// The rotational force that the targets' spins exert on an electron at
/// `(x, y)`. It depends on the position alone, not on the velocity.
pub fn spin_force(x: Fixed, y: Fixed, targets: &Vec<TargetCharge>, coefficient: Fixed) -> (f: (
    Fixed,
    Fixed,
))
    ensures
        f == spin_force_of(x, y, targets@, coefficient),
{
    let mut total_x = Fixed::zero();
    let mut total_y = Fixed::zero();
    let mut i: usize = 0;
    while i < targets.len()
        invariant
            i <= targets.len(),
            (total_x, total_y) == spin_force_of(x, y, targets@.take(i as int), coefficient),
        decreases targets.len() - i,
    {
        assert(targets@.take(i + 1).drop_last() =~= targets@.take(i as int));
        let push = spin_push(x, y, &targets[i], coefficient);
        total_x = total_x.add(push.0);
        total_y = total_y.add(push.1);
        i += 1;
    }
    assert(targets@.take(i as int) =~= targets@);
    (total_x, total_y)
}

} // verus!
