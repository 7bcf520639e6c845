//! A live simulation: electrons in flight, advanced together tick by tick.
//!
//! Electrons are added as they are fired. Every tick advances all of them by
//! one integration step and then removes those that have left the bounding
//! box. Between ticks the targets may change: a spin may be flipped.

use vstd::prelude::*;
use crate::fixed::Fixed;
use crate::field::TargetCharge;
use crate::scattering::states_of;
use crate::regressor::Regressor;
use crate::scattering::Electron;
use crate::scattering::ElectronState;
use crate::scattering::Scene;

verus! {

/// The states that are inside the bounding box, in their order.
pub open spec fn still_inside(states: Seq<ElectronState>) -> Seq<ElectronState>
    decreases states.len(),
{
    if states.len() == 0 {
        Seq::empty()
    } else {
        let earlier = still_inside(states.drop_last());
        if states.last().has_exited() {
            earlier
        } else {
            earlier.push(states.last())
        }
    }
}

/// The states after every electron has made one integration step.
pub open spec fn all_stepped<R: Regressor>(model: &R, scene: Scene, before: Seq<ElectronState>) -> Seq<
    ElectronState,
> {
    before.map_values(|state: ElectronState| state.stepped(model, scene))
}

/// What a tick leaves: every electron has made one integration step, and
/// those that are then outside the bounding box are gone.
pub open spec fn ticked<R: Regressor>(model: &R, scene: Scene, before: Seq<ElectronState>) -> Seq<
    ElectronState,
> {
    still_inside(all_stepped(model, scene, before))
}

/// What is kept is inside the bounding box, and nothing is added.
pub proof fn lemma_still_inside_holds(states: Seq<ElectronState>)
    ensures
        still_inside(states).len() <= states.len(),
        forall|i: int|
            0 <= i < still_inside(states).len() ==> !(#[trigger] still_inside(states)[i]).has_exited(),
    decreases states.len(),
{
    if states.len() > 0 {
        lemma_still_inside_holds(states.drop_last());
    }
}

/// Where every state is inside the bounding box, all are kept.
proof fn lemma_all_inside_are_kept(states: Seq<ElectronState>)
    requires
        forall|i: int| 0 <= i < states.len() ==> !(#[trigger] states[i]).has_exited(),
    ensures
        still_inside(states) == states,
    decreases states.len(),
{
    if states.len() > 0 {
        lemma_all_inside_are_kept(states.drop_last());
        assert(states.drop_last().push(states.last()) =~= states);
    } else {
        assert(states =~= Seq::empty());
    }
}

/// Taking out a state that is outside the bounding box changes nothing of
/// what is kept.
proof fn lemma_outside_is_not_kept(states: Seq<ElectronState>, i: int)
    requires
        0 <= i < states.len(),
        states[i].has_exited(),
    ensures
        still_inside(states.remove(i)) == still_inside(states),
    decreases states.len(),
{
    if i == states.len() - 1 {
        assert(states.remove(i) =~= states.drop_last());
    } else {
        lemma_outside_is_not_kept(states.drop_last(), i);
        assert(states.remove(i).drop_last() =~= states.drop_last().remove(i));
        assert(states.remove(i).last() == states.last());
    }
}

/// Flips the spin of a target; a target without spin stays without.
pub fn flip_spin(target: &mut TargetCharge)
    ensures
        final(target).x == old(target).x,
        final(target).y == old(target).y,
        final(target).spin == match old(target).spin {
            Some(spin) => Some(spin.negated()),
            None => None,
        },
{
    target.spin = match target.spin {
        Some(spin) => Some(spin.neg()),
        None => None,
    };
}

/// Advances every electron by one integration step.
pub fn advance_all<R: Regressor>(
    live: &mut Vec<Electron>,
    model: &R,
    targets: &Vec<TargetCharge>,
    mean: Fixed,
    std: Fixed,
    dt: Fixed,
    force_scale: Fixed,
    spin_coefficient: Fixed,
)
    ensures
        states_of(final(live)@) == all_stepped(
            model,
            (Scene { targets: targets@, mean, std, dt, force_scale, spin_coefficient }),
            states_of(old(live)@),
        ),
{
    let ghost scene = Scene { targets: targets@, mean, std, dt, force_scale, spin_coefficient };
    let mut i: usize = 0;
    while i < live.len()
        invariant
            scene == (Scene { targets: targets@, mean, std, dt, force_scale, spin_coefficient }),
            i <= live.len(),
            live.len() == old(live).len(),
            forall|k: int| 0 <= k < i ==> (#[trigger] live[k])@ == old(live)[k]@.stepped(model, scene),
            forall|k: int| i <= k < live.len() ==> (#[trigger] live[k]) == old(live)[k],
        decreases live.len() - i,
    {
        let electron = &mut live[i];
        electron.advance(model, targets, mean, std, dt, force_scale, spin_coefficient);
        i += 1;
    }
    assert(states_of(live@) =~= all_stepped(model, scene, states_of(old(live)@)));
}

/// Removes the electrons that are outside the bounding box.
pub fn cull_exited(live: &mut Vec<Electron>)
    ensures
        states_of(final(live)@) == still_inside(states_of(old(live)@)),
{
    let mut i: usize = 0;
    while i < live.len()
        invariant
            i <= live.len(),
            still_inside(states_of(live@)) == still_inside(states_of(old(live)@)),
            forall|k: int| 0 <= k < i ==> !(#[trigger] live[k])@.has_exited(),
        decreases live.len() - i,
    {
        if live[i].has_exited() {
            proof {
                lemma_outside_is_not_kept(states_of(live@), i as int);
                assert(states_of(live@.remove(i as int)) =~= states_of(live@).remove(i as int));
            }
            live.remove(i);
        } else {
            i += 1;
        }
    }
    proof {
        assert forall|k: int| 0 <= k < states_of(live@).len() implies !(#[trigger] states_of(
            live@,
        )[k]).has_exited() by {
            assert(!live[k]@.has_exited());
        }
        lemma_all_inside_are_kept(states_of(live@));
    }
}

/// One tick of a live simulation: every electron makes one integration step,
/// and those that are then outside the bounding box are removed.
pub fn tick<R: Regressor>(
    live: &mut Vec<Electron>,
    model: &R,
    targets: &Vec<TargetCharge>,
    mean: Fixed,
    std: Fixed,
    dt: Fixed,
    force_scale: Fixed,
    spin_coefficient: Fixed,
)
    ensures
        states_of(final(live)@) == ticked(
            model,
            (Scene { targets: targets@, mean, std, dt, force_scale, spin_coefficient }),
            states_of(old(live)@),
        ),
        final(live).len() <= old(live).len(),
        forall|i: int| 0 <= i < final(live).len() ==> !(#[trigger] final(live)[i])@.has_exited(),
{
    advance_all(live, model, targets, mean, std, dt, force_scale, spin_coefficient);
    let ghost stepped = states_of(live@);
    cull_exited(live);
    proof {
        lemma_still_inside_holds(stepped);
        assert forall|i: int| 0 <= i < live.len() implies !(#[trigger] live[i])@.has_exited() by {
            assert(states_of(live@)[i] == live[i]@);
        }
    }
}

} // verus!
