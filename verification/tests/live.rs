use quark_sim::field::get_proton_quarks;
use quark_sim::field::TargetCharge;
use quark_sim::fixed::Fixed;
use quark_sim::live::advance_all;
use quark_sim::live::cull_exited;
use quark_sim::live::flip_spin;
use quark_sim::live::tick;
use quark_sim::regressor::Regressor;
use quark_sim::scattering::Electron;

fn fx(raw: i64) -> Fixed {
    Fixed::from_raw(raw)
}

/// A regressor that answers zero everywhere.
struct Flat;

impl Regressor for Flat {
    fn output(&self, dx: Fixed, dy: Fixed, dz: Fixed) -> Fixed {
        self.forward(dx, dy, dz)
    }

    fn forward(&self, _dx: Fixed, _dy: Fixed, _dz: Fixed) -> Fixed {
        Fixed::zero()
    }
}

fn no_spin() -> Vec<TargetCharge> {
    vec![TargetCharge { x: fx(0), y: fx(0), spin: None }]
}

fn at(x: i64, y: i64) -> Electron {
    let mut e = Electron::new(fx(y), fx(500_000));
    e.x = fx(x);
    e
}

#[test]
fn spin_flip_negates_the_spin() {
    let mut target = TargetCharge { x: fx(1), y: fx(2), spin: Some(fx(500_000)) };
    flip_spin(&mut target);
    assert_eq!(target, TargetCharge { x: fx(1), y: fx(2), spin: Some(fx(-500_000)) });
    flip_spin(&mut target);
    assert_eq!(target.spin, Some(fx(500_000)));
}

#[test]
fn spin_flip_leaves_a_spinless_target_alone() {
    let mut target = TargetCharge { x: fx(1), y: fx(2), spin: None };
    flip_spin(&mut target);
    assert_eq!(target, TargetCharge { x: fx(1), y: fx(2), spin: None });
}

#[test]
fn every_electron_makes_one_step() {
    let mut live = vec![at(-5_000_000, 0), at(0, 1_000_000), at(4_990_000, -1_000_000)];
    advance_all(&mut live, &Flat, &no_spin(), fx(0), fx(1_000_000), fx(50_000), fx(100_000), fx(50_000));
    let places: Vec<(i64, i64)> = live.iter().map(|e| (e.x.raw, e.y.raw)).collect();
    assert_eq!(places, vec![(-4_975_000, 0), (25_000, 1_000_000), (5_015_000, -1_000_000)]);
}

#[test]
fn electrons_outside_the_box_are_removed_in_order() {
    let mut live = vec![at(6_000_000, 0), at(0, 1), at(0, 7_000_000), at(1, 2), at(-5_000_001, 0), at(3, 4)];
    cull_exited(&mut live);
    let places: Vec<(i64, i64)> = live.iter().map(|e| (e.x.raw, e.y.raw)).collect();
    assert_eq!(places, vec![(0, 1), (1, 2), (3, 4)]);
    cull_exited(&mut live);
    assert_eq!(live.len(), 3);
}

#[test]
fn culling_all_or_none() {
    let mut live = vec![at(6_000_000, 0), at(-6_000_000, 0)];
    cull_exited(&mut live);
    assert!(live.is_empty());
    cull_exited(&mut live);
    assert!(live.is_empty());
}

#[test]
fn tick_steps_and_culls() {
    let mut live = vec![at(-5_000_000, 0), at(4_990_000, -1_000_000), at(0, 1_000_000)];
    tick(&mut live, &Flat, &no_spin(), fx(0), fx(1_000_000), fx(50_000), fx(100_000), fx(50_000));
    // the second electron has crossed the right edge and is gone
    let places: Vec<(i64, i64)> = live.iter().map(|e| (e.x.raw, e.y.raw)).collect();
    assert_eq!(places, vec![(-4_975_000, 0), (25_000, 1_000_000)]);
    assert!(live.iter().all(|e| !e.has_exited()));
}

#[test]
fn ticks_empty_the_simulation_in_time() {
    let mut live: Vec<Electron> = (0..5).map(|i| Electron::new(fx(i * 400_000), fx(500_000))).collect();
    let targets = get_proton_quarks();
    let mut ticks = 0;
    while !live.is_empty() && ticks < 2000 {
        let before = live.len();
        tick(&mut live, &Flat, &targets, fx(0), fx(1_000_000), fx(50_000), fx(100_000), fx(50_000));
        assert!(live.len() <= before);
        assert!(live.iter().all(|e| !e.has_exited()));
        ticks += 1;
    }
    assert!(live.is_empty());
}
