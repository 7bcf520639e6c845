//! What the field is made of: a regressor.
//!
//! A regressor maps the displacement from a target charge to a potential in
//! normalized units. It is a function: the same displacement always has the
//! same output. The trained network is one regressor; the closed-form
//! Cornell potential is another, against which the network and the field
//! built on it can be held.

use vstd::prelude::*;
use crate::fixed::Fixed;
use crate::fixed::fx;
use crate::physics::cornell;
use crate::physics::cornell_potential;
use crate::physics::lemma_terms_bounded;

verus! {

/// A function from displacements to potentials in normalized units.
///
/// `output` says what the regressor gives for each displacement and
/// `forward` computes it. A regressor written in plain Rust has nothing to
/// say apart from what it computes: it gives `output` as a call of `forward`.
pub trait Regressor {
    /// The output for the displacement `(dx, dy, dz)`.
    spec fn output(&self, dx: Fixed, dy: Fixed, dz: Fixed) -> Fixed;

    /// Evaluates the regressor at the displacement `(dx, dy, dz)`.
    fn forward(&self, dx: Fixed, dy: Fixed, dz: Fixed) -> (out: Fixed)
        ensures
            out == self.output(dx, dy, dz),
    ;
}

/// The length of a displacement: the square root of the sum of the squares
/// of its components.
pub open spec fn length_of(dx: Fixed, dy: Fixed, dz: Fixed) -> Fixed {
    dx.times(dx).plus(dy.times(dy)).plus(dz.times(dz)).root()
}

/// The Cornell potential at length `r`, continued to length zero, where it is
/// singular, by its value at the smallest length.
pub open spec fn cornell_at_length(r: Fixed) -> Fixed {
    if r@ > 0 {
        fx(cornell(r@))
    } else {
        fx(cornell(1))
    }
}

/// The closed-form Cornell potential as a regressor. Its outputs are in
/// physical units already: they are denormalized with mean zero and standard
/// deviation one.
#[derive(Clone, Copy, Debug, PartialEq, Eq, Structural)]
pub struct CornellField;

impl Regressor for CornellField {
    open spec fn output(&self, dx: Fixed, dy: Fixed, dz: Fixed) -> Fixed {
        cornell_at_length(length_of(dx, dy, dz))
    }

    fn forward(&self, dx: Fixed, dy: Fixed, dz: Fixed) -> (out: Fixed) {
        let r = dx.mul(dx).add(dy.mul(dy)).add(dz.mul(dz)).sqrt();
        proof {
            if r@ > 0 {
                lemma_terms_bounded(r@);
            }
            lemma_terms_bounded(1);
        }
        let at = if r.raw > 0 {
            r
        } else {
            Fixed::from_raw(1)
        };
        match cornell_potential(at) {
            Ok(v) => v,
            Err(_) => Fixed::zero(),
        }
    }
}

/// The closed-form field never falls as the length grows, zero length
/// included.
pub proof fn lemma_closed_form_rises_with_length(r1: Fixed, r2: Fixed)
    requires
        0 <= r1@ <= r2@,
    ensures
        cornell_at_length(r1)@ <= cornell_at_length(r2)@,
{
    let a = if r1@ > 0 {
        r1@
    } else {
        1
    };
    let b = if r2@ > 0 {
        r2@
    } else {
        1
    };
    lemma_terms_bounded(a);
    lemma_terms_bounded(b);
    crate::physics::lemma_cornell_monotonic(a, b);
}

} // verus!
