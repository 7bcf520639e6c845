//! Physical constants and the Cornell potential.
//!
//! The Cornell potential models the binding energy of a quark-antiquark pair
//! at separation `r`: a Coulomb-like attraction `-4 alpha_s / (3 r)` that
//! dominates at short range plus a linear confinement term `sigma r`.

use vstd::prelude::*;
use vstd::arithmetic::div_mod::lemma_div_is_ordered;
use vstd::arithmetic::div_mod::lemma_div_is_ordered_by_denominator;
use vstd::arithmetic::div_mod::lemma_div_pos_is_pos;
use vstd::arithmetic::div_mod::lemma_fundamental_div_mod;
use crate::fixed::Fixed;
use crate::fixed::SCALE;
use crate::fixed::trunc_div;

verus! {

/// Strong coupling constant, in millionths (0.5).
pub const ALPHA_S: i64 = 500_000;

/// String tension in GeV/fm, in millionths (0.9).
pub const STRING_TENSION: i64 = 900_000;

/// Reduced Planck constant times the speed of light in GeV fm, in millionths (0.1973).
pub const HBARC: i64 = 197_300;

/// Why a potential could not be evaluated.
#[derive(Clone, Copy, Debug, PartialEq, Eq, Structural)]
pub enum PotentialError {
    /// The separation was zero or negative, where the potential is singular or undefined.
    NonPositiveSeparation,
}

/// The Coulomb-like term `-(4 alpha_s) / (3 r)` at separation `r` millionths.
pub open spec fn coulomb_term(r: int) -> int
    recommends
        r > 0,
{
    -trunc_div(4 * ALPHA_S * SCALE, 3 * r)
}

/// The linear confinement term `sigma r` at separation `r` millionths.
pub open spec fn linear_term(r: int) -> int
    recommends
        r > 0,
{
    trunc_div(STRING_TENSION * r, SCALE as int)
}

/// The Cornell potential at separation `r` millionths, in millionths of a GeV.
pub open spec fn cornell(r: int) -> int
    recommends
        r > 0,
{
    coulomb_term(r) + linear_term(r)
}

/// The Cornell potential `V(r) = -4 alpha_s / (3 r) + sigma r`.
///
/// A separation that is not positive is rejected; every positive separation
/// has a finite potential that fits the fixed-point range without saturating.
pub fn cornell_potential(r: Fixed) -> (v: Result<Fixed, PotentialError>)
    ensures
        r@ > 0 ==> (v matches Ok(p) && p@ == cornell(r@)),
        r@ <= 0 ==> v == Err::<Fixed, PotentialError>(PotentialError::NonPositiveSeparation),
{
    if r.raw <= 0 {
        return Err(PotentialError::NonPositiveSeparation);
    }
    let sep: u128 = r.raw as u128;
    let pull: u128 = 2_000_000_000_000u128 / (3 * sep);
    let climb: u128 = (900_000u128 * sep) / 1_000_000u128;
    proof {
        lemma_terms_bounded(r@);
    }
    let value: i64 = (climb as i64) - (pull as i64);
    Ok(Fixed { raw: value })
}

/// For a positive separation the Coulomb term is never positive and the
/// linear term never negative, and both stay well inside the 64-bit range.
pub proof fn lemma_terms_bounded(r: int)
    requires
        0 < r <= i64::MAX,
    ensures
        -666_666_666_666 <= coulomb_term(r) <= 0,
        0 <= linear_term(r) <= r,
        coulomb_term(r) == -(2_000_000_000_000int / (3 * r)),
        linear_term(r) == (900_000 * r) / 1_000_000,
{
    lemma_div_pos_is_pos(2_000_000_000_000int, 3 * r);
    lemma_div_is_ordered_by_denominator(2_000_000_000_000int, 3, 3 * r);
    lemma_div_pos_is_pos(900_000 * r, 1_000_000);
    lemma_div_is_ordered(900_000 * r, 1_000_000 * r, 1_000_000);
    assert((1_000_000 * r) / 1_000_000 == r) by {
        lemma_fundamental_div_mod(1_000_000 * r, 1_000_000);
    }
}

/// The Coulomb term is strictly negative up to a separation of two thirds of
/// a million fm, beyond which it rounds to zero.
pub proof fn lemma_coulomb_term_negative(r: int)
    requires
        0 < r,
    ensures
        3 * r <= 2_000_000_000_000 <==> coulomb_term(r) < 0,
{
    if 3 * r <= 2_000_000_000_000 {
        lemma_div_is_ordered(3 * r, 2_000_000_000_000, 3 * r);
        assert((3 * r) / (3 * r) == 1) by {
            vstd::arithmetic::div_mod::lemma_div_by_self(3 * r);
        }
    } else {
        vstd::arithmetic::div_mod::lemma_basic_div(2_000_000_000_000, 3 * r);
    }
}

/// The linear term is strictly positive from two millionths of a fm on.
pub proof fn lemma_linear_term_positive(r: int)
    requires
        0 < r,
    ensures
        r >= 2 <==> linear_term(r) > 0,
{
    if r >= 2 {
        lemma_div_is_ordered(1_000_000, 900_000 * r, 1_000_000);
    } else {
        vstd::arithmetic::div_mod::lemma_basic_div(900_000 * r, 1_000_000);
    }
}

/// The potential never decreases as the separation grows: both terms are
/// increasing on all positive separations.
pub proof fn lemma_cornell_monotonic(r1: int, r2: int)
    requires
        0 < r1 <= r2,
    ensures
        coulomb_term(r1) <= coulomb_term(r2),
        linear_term(r1) <= linear_term(r2),
        cornell(r1) <= cornell(r2),
{
    lemma_div_is_ordered_by_denominator(2_000_000_000_000int, 3 * r1, 3 * r2);
    lemma_div_is_ordered(900_000 * r1, 900_000 * r2, 1_000_000);
}

/// Two separations at least two millionths apart have different potentials:
/// the potential increases strictly.
pub proof fn lemma_cornell_strictly_increasing(r1: int, r2: int)
    requires
        0 < r1,
        r1 + 2 <= r2,
    ensures
        cornell(r1) < cornell(r2),
{
    lemma_cornell_monotonic(r1, r2);
    let a = 900_000 * r1;
    let b = 900_000 * r2;
    lemma_fundamental_div_mod(a, 1_000_000);
    lemma_fundamental_div_mod(b, 1_000_000);
    // b >= a + 1_800_000, so the quotients differ by at least one.
    assert(b / 1_000_000 > a / 1_000_000) by {
        lemma_div_is_ordered(a + 1_000_000, b, 1_000_000);
        vstd::arithmetic::div_mod::lemma_div_plus_one(a, 1_000_000);
    }
}

/// The potential has no minimum in the interior of the positive separations:
/// its least value is taken at the smallest positive separation and nowhere
/// else.
pub proof fn lemma_cornell_least_at_smallest_separation(r: int)
    requires
        1 < r,
    ensures
        cornell(1) < cornell(r),
{
    lemma_cornell_monotonic(2, r);
    assert(2_000_000_000_000int / 3 == 666_666_666_666) by {
        lemma_fundamental_div_mod(2_000_000_000_000int, 3);
    }
    assert(2_000_000_000_000int / 6 == 333_333_333_333) by {
        lemma_fundamental_div_mod(2_000_000_000_000int, 6);
    }
    assert(900_000int / 1_000_000 == 0) by {
        vstd::arithmetic::div_mod::lemma_basic_div(900_000, 1_000_000);
    }
    assert(1_800_000int / 1_000_000 == 1) by {
        lemma_fundamental_div_mod(1_800_000int, 1_000_000);
    }
}

} // verus!
