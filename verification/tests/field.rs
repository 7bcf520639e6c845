use quark_sim::field::force;
use quark_sim::field::force_component;
use quark_sim::field::force_from_potentials;
use quark_sim::field::get_proton_quarks;
use quark_sim::field::spin_force;
use quark_sim::field::superpose;
use quark_sim::field::total_potential;
use quark_sim::field::TargetCharge;
use quark_sim::field::ELECTRON_SPIN;
use quark_sim::field::GRADIENT_STEP;
use quark_sim::field::SPIN_COEFFICIENT;
use quark_sim::field::SPIN_CUTOFF;
use quark_sim::fixed::Fixed;
use quark_sim::regressor::CornellField;
use quark_sim::regressor::Regressor;
use std::cell::RefCell;

fn fx(raw: i64) -> Fixed {
    Fixed::from_raw(raw)
}

fn one() -> Fixed {
    fx(1_000_000)
}

/// A regressor that answers with the x component of the displacement.
struct AlongX;

impl Regressor for AlongX {
    fn output(&self, dx: Fixed, dy: Fixed, dz: Fixed) -> Fixed {
        self.forward(dx, dy, dz)
    }

    fn forward(&self, dx: Fixed, _dy: Fixed, _dz: Fixed) -> Fixed {
        dx
    }
}

/// A regressor that keeps the displacements it was asked about.
struct Recorder(RefCell<Vec<(i64, i64, i64)>>);

impl Regressor for Recorder {
    fn output(&self, dx: Fixed, dy: Fixed, dz: Fixed) -> Fixed {
        self.forward(dx, dy, dz)
    }

    fn forward(&self, dx: Fixed, dy: Fixed, dz: Fixed) -> Fixed {
        self.0.borrow_mut().push((dx.raw, dy.raw, dz.raw));
        Fixed::zero()
    }
}

fn closed_form(dx: Fixed, dy: Fixed, dz: Fixed) -> Fixed {
    CornellField.forward(dx, dy, dz)
}

fn lone_target(spin: Option<Fixed>) -> Vec<TargetCharge> {
    vec![TargetCharge { x: fx(0), y: fx(0), spin }]
}

#[test]
fn field_constants_have_their_values() {
    assert_eq!(GRADIENT_STEP, 20_000);
    assert_eq!(ELECTRON_SPIN, -500_000);
    assert_eq!(SPIN_CUTOFF, 100_000);
    assert_eq!(SPIN_COEFFICIENT, 50_000);
}

#[test]
fn default_target_has_three_charges() {
    let quarks = get_proton_quarks();
    assert_eq!(quarks.len(), 3);
    assert_eq!(quarks[0], TargetCharge { x: fx(-400_000), y: fx(-300_000), spin: Some(fx(500_000)) });
    assert_eq!(quarks[1], TargetCharge { x: fx(400_000), y: fx(-300_000), spin: Some(fx(500_000)) });
    assert_eq!(quarks[2], TargetCharge { x: fx(0), y: fx(500_000), spin: Some(fx(-500_000)) });
    // two spins up, one down
    let up = quarks.iter().filter(|q| q.spin == Some(fx(500_000))).count();
    let down = quarks.iter().filter(|q| q.spin == Some(fx(-500_000))).count();
    assert_eq!((up, down), (2, 1));
}

#[test]
fn superposition_denormalizes_each_output() {
    // (1.0 * 2 + 0.25) + (2.0 * 2 + 0.25) + (-0.5 * 2 + 0.25) = 5.75
    let outputs = vec![fx(1_000_000), fx(2_000_000), fx(-500_000)];
    assert_eq!(superpose(&outputs, fx(250_000), fx(2_000_000)).raw, 5_750_000);
}

#[test]
fn superposition_of_nothing_is_zero() {
    assert_eq!(superpose(&Vec::new(), fx(250_000), fx(2_000_000)).raw, 0);
}

#[test]
fn total_potential_sums_over_the_targets() {
    // a regressor that answers with the x displacement: 1.4 + 0.6 + 1.0
    let v = total_potential(one(), fx(0), &get_proton_quarks(), &AlongX, fx(0), one());
    assert_eq!(v.raw, 3_000_000);
}

#[test]
fn total_potential_evaluates_the_displacement_from_each_target() {
    let model = Recorder(RefCell::new(Vec::new()));
    total_potential(one(), fx(500_000), &get_proton_quarks(), &model, fx(0), one());
    assert_eq!(
        *model.0.borrow(),
        vec![(1_400_000, 800_000, 0), (600_000, 800_000, 0), (1_000_000, 0, 0)]
    );
}

#[test]
fn total_potential_of_the_closed_form() {
    let v = total_potential(one(), fx(500_000), &get_proton_quarks(), &CornellField, fx(0), one());
    assert_eq!(v.raw, 1_504_424);
}

#[test]
fn total_potential_without_targets_is_zero() {
    let v = total_potential(one(), fx(500_000), &Vec::new(), &CornellField, fx(7), one());
    assert_eq!(v.raw, 0);
}

#[test]
fn force_is_minus_the_scaled_forward_difference() {
    // V = sum of (x - tx): the difference over one step is 3 * 0.02, so
    // fx = -(0.06 / 0.02) * 0.1 = -0.3, and V does not depend on y
    let f = force(one(), fx(0), &get_proton_quarks(), &AlongX, fx(0), one(), fx(100_000));
    assert_eq!((f.0.raw, f.1.raw), (-300_000, 0));
}

#[test]
fn force_of_the_closed_form() {
    let f = force(one(), fx(500_000), &get_proton_quarks(), &CornellField, fx(0), one(), fx(100_000));
    assert_eq!((f.0.raw, f.1.raw), (-350_205, -184_430));
}

#[test]
fn force_from_three_potentials() {
    // here 1.0, along x 1.1, along y 0.98: fx = -(0.1 / 0.02) * 0.2 = -1.0, fy = (0.02 / 0.02) * 0.2
    let f = force_from_potentials(one(), fx(1_100_000), fx(980_000), fx(200_000));
    assert_eq!((f.0.raw, f.1.raw), (-1_000_000, 200_000));
}

#[test]
fn forward_and_backward_difference_agree_in_sign() {
    // against the closed-form potential along the x axis, which rises with x
    let scale = fx(100_000);
    let step = fx(20_000);
    let mut x: i64 = 100_000;
    while x < 3_000_000 {
        let here = closed_form(fx(x), fx(0), fx(0));
        let ahead = closed_form(fx(x + 20_000), fx(0), fx(0));
        let behind = closed_form(fx(x - 20_000), fx(0), fx(0));
        let forward = force_component(ahead, here, step, scale);
        let backward = force_component(behind, here, step.neg(), scale);
        assert!(forward.raw < 0);
        assert!(backward.raw < 0);
        x += 50_000;
    }
}

#[test]
fn spin_force_is_perpendicular_to_the_separation() {
    // electron at (1, 0), target at the origin with spin +1/2, coefficient 1:
    // strength = (0.5 * -0.5) / 1 = -0.25, force = (-0 * s, 1 * s)
    let f = spin_force(one(), fx(0), &lone_target(Some(fx(500_000))), one());
    assert_eq!((f.0.raw, f.1.raw), (0, -250_000));
    // electron at (0.6, 0.8), distance 1, spin -1/2, coefficient 0.05:
    // strength = 0.25 * 0.05 = 0.0125, force = (-0.8 * s, 0.6 * s)
    let f = spin_force(fx(600_000), fx(800_000), &lone_target(Some(fx(-500_000))), fx(50_000));
    assert_eq!((f.0.raw, f.1.raw), (-10_000, 7_500));
    // perpendicular: the dot product with the separation vanishes
    assert_eq!(f.0.raw * 600_000 + f.1.raw * 800_000, 0);
}

#[test]
fn spin_force_flips_with_the_spin() {
    let up = spin_force(fx(600_000), fx(800_000), &lone_target(Some(fx(500_000))), fx(50_000));
    let down = spin_force(fx(600_000), fx(800_000), &lone_target(Some(fx(-500_000))), fx(50_000));
    assert_eq!((up.0.raw, up.1.raw), (-down.0.raw, -down.1.raw));
}

#[test]
fn spin_force_skips_targets_within_the_cutoff() {
    // squared distance 0.09 < 0.1
    let f = spin_force(fx(300_000), fx(0), &lone_target(Some(fx(500_000))), one());
    assert_eq!((f.0.raw, f.1.raw), (0, 0));
    // on top of the target
    let f = spin_force(fx(0), fx(0), &lone_target(Some(fx(500_000))), one());
    assert_eq!((f.0.raw, f.1.raw), (0, 0));
    // squared distance 0.1024 >= 0.1
    let f = spin_force(fx(320_000), fx(0), &lone_target(Some(fx(500_000))), one());
    assert!(f.1.raw < 0);
}

#[test]
fn spin_force_skips_targets_without_spin() {
    let f = spin_force(one(), fx(0), &lone_target(None), one());
    assert_eq!((f.0.raw, f.1.raw), (0, 0));
}

#[test]
fn spin_force_of_the_default_target() {
    let f = spin_force(one(), fx(500_000), &get_proton_quarks(), fx(50_000));
    assert_eq!((f.0.raw, f.1.raw), (12_384, 827));
}

#[test]
fn spin_force_falls_off_with_the_cube_of_the_distance() {
    let near = spin_force(one(), fx(0), &lone_target(Some(fx(500_000))), one());
    let far = spin_force(fx(2_000_000), fx(0), &lone_target(Some(fx(500_000))), one());
    // strength falls by 8, the lever arm doubles: the force falls by 4
    assert_eq!(near.1.raw, -250_000);
    assert_eq!(far.1.raw, -62_500);
}

#[test]
fn closed_form_regressor_is_the_cornell_potential_at_the_length() {
    // a displacement of length 1: V(1) = -2/3 + 0.9
    assert_eq!(CornellField.forward(fx(600_000), fx(0), fx(800_000)).raw, 233_334);
    assert_eq!(CornellField.forward(fx(0), fx(-1_000_000), fx(0)).raw, 233_334);
    assert_eq!(CornellField.forward(fx(3_000_000), fx(0), fx(0)).raw, 2_477_778);
}

#[test]
fn closed_form_regressor_at_zero_length() {
    // continued by the value at the smallest length
    assert_eq!(CornellField.forward(fx(0), fx(0), fx(0)).raw, -666_666_666_666);
    // a displacement too short to have a length in millionths
    assert_eq!(CornellField.forward(fx(100), fx(0), fx(0)).raw, -666_666_666_666);
}
