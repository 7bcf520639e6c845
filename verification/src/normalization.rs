//! Normalized and physical units.
//!
//! The regressor is trained on targets from which their mean was taken and
//! which were divided by their standard deviation, and it answers in those
//! normalized units. Its answers are brought back to physical units with the
//! same two statistics. The loss that is reported is measured in physical
//! units.

use vstd::prelude::*;
use vstd::arithmetic::div_mod::lemma_div_is_ordered;
use vstd::arithmetic::div_mod::lemma_div_pos_is_pos;
use vstd::arithmetic::div_mod::lemma_fundamental_div_mod;
use vstd::arithmetic::div_mod::lemma_fundamental_div_mod_converse;
use crate::fixed::Fixed;
use crate::fixed::fx;
use crate::fixed::SCALE;
use crate::field::denormalized;
use crate::training::ModelConfig;

verus! {

/// A value in physical units brought to normalized units:
/// `(value - mean) / std`.
pub open spec fn normalized(value: Fixed, mean: Fixed, std: Fixed) -> Fixed
    recommends
        std@ != 0,
{
    value.minus(mean).over(std)
}

/// Brings a value in physical units to normalized units, unless the
/// standard deviation is zero.
pub fn normalize(value: Fixed, config: ModelConfig) -> (result: Option<Fixed>)
    ensures
        config.target_std@ == 0 ==> result.is_none(),
        config.target_std@ != 0 ==> result == Some(
            normalized(value, config.target_mean, config.target_std),
        ),
{
    if config.target_std.raw == 0 {
        None
    } else {
        Some(value.sub(config.target_mean).div(config.target_std))
    }
}

/// Brings an output of the regressor back to physical units:
/// `output * std + mean`.
pub fn denormalize(output: Fixed, config: ModelConfig) -> (value: Fixed)
    ensures
        value == denormalized(output, config.target_mean, config.target_std),
{
    output.mul(config.target_std).add(config.target_mean)
}

/// The targets in normalized units, in their order, unless the standard
/// deviation is zero.
pub fn normalized_targets(targets: &Vec<Fixed>, config: ModelConfig) -> (result: Option<Vec<Fixed>>)
    ensures
        config.target_std@ == 0 ==> result.is_none(),
        config.target_std@ != 0 ==> (result matches Some(values) && values.len() == targets.len()
            && forall|i: int|
            0 <= i < targets.len() ==> (#[trigger] values[i]) == normalized(
                targets[i],
                config.target_mean,
                config.target_std,
            )),
{
    if config.target_std.raw == 0 {
        return None;
    }
    let mut values: Vec<Fixed> = Vec::new();
    let mut i: usize = 0;
    while i < targets.len()
        invariant
            config.target_std@ != 0,
            i <= targets.len(),
            values.len() == i,
            forall|k: int|
                0 <= k < i ==> (#[trigger] values[k]) == normalized(
                    targets[k],
                    config.target_mean,
                    config.target_std,
                ),
        decreases targets.len() - i,
    {
        values.push(targets[i].sub(config.target_mean).div(config.target_std));
        i += 1;
    }
    Some(values)
}

/// The squared error of one prediction in physical units: the square of the
/// denormalized output less the target.
pub open spec fn squared_error(output: Fixed, target: Fixed, mean: Fixed, std: Fixed) -> Fixed {
    let error = denormalized(output, mean, std).minus(target);
    error.times(error)
}

/// The sum of the squared errors of the first `count` predictions, taken in
/// order from zero.
pub open spec fn summed_squared_error(
    outputs: Seq<Fixed>,
    targets: Seq<Fixed>,
    mean: Fixed,
    std: Fixed,
    count: int,
) -> Fixed
    decreases count,
{
    if count <= 0 {
        fx(0)
    } else {
        summed_squared_error(outputs, targets, mean, std, count - 1).plus(
            squared_error(outputs[count - 1], targets[count - 1], mean, std),
        )
    }
}

/// The mean squared error of the predictions in physical units.
pub open spec fn mean_squared_error(
    outputs: Seq<Fixed>,
    targets: Seq<Fixed>,
    mean: Fixed,
    std: Fixed,
) -> Fixed
    recommends
        outputs.len() == targets.len(),
        outputs.len() > 0,
{
    summed_squared_error(outputs, targets, mean, std, outputs.len() as int).over(
        fx(outputs.len() * SCALE),
    )
}

/// The loss in physical units: the mean over all samples of the squared
/// difference between the denormalized output and the target. There is no
/// loss of no samples, nor of outputs that are not as many as the targets.
pub fn physical_loss(outputs: &Vec<Fixed>, targets: &Vec<Fixed>, config: ModelConfig) -> (loss: Option<
    Fixed,
>)
    ensures
        outputs.len() != targets.len() || outputs.len() == 0 ==> loss.is_none(),
        outputs.len() == targets.len() && outputs.len() > 0 ==> loss == Some(
            mean_squared_error(outputs@, targets@, config.target_mean, config.target_std),
        ),
{
    let n = outputs.len();
    if n != targets.len() || n == 0 {
        return None;
    }
    let mut sum = Fixed::zero();
    let mut i: usize = 0;
    while i < n
        invariant
            n == outputs.len(),
            n == targets.len(),
            i <= n,
            sum == summed_squared_error(
                outputs@,
                targets@,
                config.target_mean,
                config.target_std,
                i as int,
            ),
        decreases n - i,
    {
        let error = denormalize(outputs[i], config).sub(targets[i]);
        sum = sum.add(error.mul(error));
        i += 1;
    }
    let count = Fixed::from_usize(n);
    Some(sum.div(count))
}

/// Normalizing a value and bringing it back with the same statistics gives
/// the value again, up to rounding: the two differ by no more than one
/// millionth plus one millionth of the standard deviation. (Stated where
/// nothing saturates: for a positive standard deviation and magnitudes below
/// two to the power of forty millionths.)
pub proof fn lemma_normalization_round_trip(value: Fixed, mean: Fixed, std: Fixed)
    requires
        0 < std@ <= 0x100_0000_0000,
        -0x100_0000_0000 <= value@ <= 0x100_0000_0000,
        -0x100_0000_0000 <= mean@ <= 0x100_0000_0000,
    ensures
        -(std@ / SCALE as int) - 1 <= denormalized(normalized(value, mean, std), mean, std)@ - value@
            <= std@ / SCALE as int + 1,
{
    let s = std@;
    let a = value@ - mean@;
    let size = if a >= 0 {
        a
    } else {
        -a
    };
    lemma_round_trip_of_size(size, s);
    let q = (size * 1_000_000) / s;
    let back = (q * s) / 1_000_000;
    assert(size * 1_000_000 <= 0x200_0000_0000 * 1_000_000) by (nonlinear_arith)
        requires
            size <= 0x200_0000_0000,
    ;
    let shifted = value.minus(mean);
    assert(shifted@ == a);
    let n = shifted.over(std);
    if a >= 0 {
        assert(n@ == q);
        assert(n@ * s >= 0) by (nonlinear_arith)
            requires
                n@ >= 0,
                s > 0,
        ;
        assert(n.times(std)@ == back);
    } else {
        assert(a * 1_000_000 < 0 && -(a * 1_000_000) == size * 1_000_000) by (nonlinear_arith)
            requires
                a < 0,
                size == -a,
        ;
        assert(n@ == -q);
        assert(n@ * s <= 0 && -(n@ * s) == q * s) by (nonlinear_arith)
            requires
                n@ == -q,
                q >= 0,
                s > 0,
        ;
        assert(n.times(std)@ == -back);
    }
}

/// The round trip of a size that is not negative: dividing `a` millionths by
/// `s` and multiplying the quotient by `s` again loses less than
/// `s / 1000000 + 1`.
proof fn lemma_round_trip_of_size(a: int, s: int)
    requires
        0 <= a <= 0x200_0000_0000,
        0 < s <= 0x100_0000_0000,
    ensures
        0 <= (a * 1_000_000) / s <= a * 1_000_000,
        0 <= (((a * 1_000_000) / s) * s) / 1_000_000 <= a,
        a - (((a * 1_000_000) / s) * s) / 1_000_000 <= s / 1_000_000 + 1,
{
    let scaled = a * 1_000_000;
    let q = scaled / s;
    let r = scaled % s;
    lemma_fundamental_div_mod(scaled, s);
    lemma_div_pos_is_pos(scaled, s);
    assert(0 <= r < s) by {
        vstd::arithmetic::div_mod::lemma_mod_pos_bound(scaled, s);
    }
    assert(q * s == scaled - r) by (nonlinear_arith)
        requires
            scaled == s * q + r,
    ;
    assert(q <= scaled) by (nonlinear_arith)
        requires
            q * s == scaled - r,
            0 <= r,
            s >= 1,
            q >= 0,
    ;
    let back = (q * s) / 1_000_000;
    lemma_div_pos_is_pos(q * s, 1_000_000);
    lemma_div_is_ordered(q * s, scaled, 1_000_000);
    assert(scaled / 1_000_000 == a) by {
        lemma_fundamental_div_mod_converse(scaled, 1_000_000, a, 0);
    }
    // q * s > scaled - s, and scaled - s >= (a - s / 1000000 - 1) * 1000000
    let lost = s / 1_000_000 + 1;
    lemma_fundamental_div_mod(s, 1_000_000);
    assert(s < lost * 1_000_000) by {
        vstd::arithmetic::div_mod::lemma_mod_pos_bound(s, 1_000_000);
        assert(lost * 1_000_000 == 1_000_000 * (s / 1_000_000) + 1_000_000) by (nonlinear_arith)
            requires
                lost == s / 1_000_000 + 1,
        ;
    }
    assert((a - lost) * 1_000_000 == scaled - lost * 1_000_000) by (nonlinear_arith)
        requires
            scaled == a * 1_000_000,
    ;
    if a - lost >= 0 {
        lemma_div_is_ordered((a - lost) * 1_000_000, q * s, 1_000_000);
        assert(((a - lost) * 1_000_000) / 1_000_000 == a - lost) by {
            lemma_fundamental_div_mod_converse((a - lost) * 1_000_000, 1_000_000, a - lost, 0);
        }
    }
}

} // verus!
