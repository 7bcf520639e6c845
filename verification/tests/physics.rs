use quark_sim::fixed::Fixed;
use quark_sim::physics::cornell_potential;
use quark_sim::physics::PotentialError;
use quark_sim::physics::ALPHA_S;
use quark_sim::physics::HBARC;
use quark_sim::physics::STRING_TENSION;

fn exact(r: f64) -> f64 {
    -(4.0 * 0.5) / (3.0 * r) + 0.9 * r
}

#[test]
fn constants_have_their_values() {
    assert_eq!(ALPHA_S, 500_000);
    assert_eq!(STRING_TENSION, 900_000);
    assert_eq!(HBARC, 197_300);
}

#[test]
fn cornell_potential_at_one_fermi() {
    // V(1) = -2/3 + 0.9
    let v = cornell_potential(Fixed::from_raw(1_000_000)).unwrap();
    assert_eq!(v.raw, 233_334);
}

#[test]
fn cornell_potential_at_the_ends_of_the_sampled_range() {
    assert_eq!(cornell_potential(Fixed::from_raw(50_000)).unwrap().raw, -13_288_333);
    assert_eq!(cornell_potential(Fixed::from_raw(3_000_000)).unwrap().raw, 2_477_778);
    assert_eq!(cornell_potential(Fixed::from_raw(1_525_000)).unwrap().raw, 935_342);
}

#[test]
fn cornell_potential_agrees_with_the_closed_form() {
    let mut r = 0.05f64;
    while r <= 3.0 {
        let v = cornell_potential(Fixed::from_raw((r * 1e6).round() as i64)).unwrap();
        assert!((v.raw as f64 / 1e6 - exact(r)).abs() < 3e-6);
        r += 0.01;
    }
}

#[test]
fn cornell_potential_rejects_zero_separation() {
    assert_eq!(cornell_potential(Fixed::from_raw(0)), Err(PotentialError::NonPositiveSeparation));
    assert_eq!(cornell_potential(Fixed::from_raw(-5)), Err(PotentialError::NonPositiveSeparation));
    assert_eq!(cornell_potential(Fixed::from_raw(i64::MIN)), Err(PotentialError::NonPositiveSeparation));
}

#[test]
fn cornell_potential_is_finite_at_the_extremes() {
    // the smallest separation: the Coulomb term alone, -2/3 of a million
    assert_eq!(cornell_potential(Fixed::from_raw(1)).unwrap().raw, -666_666_666_666);
    // the largest separation: the linear term alone
    let far = cornell_potential(Fixed::from_raw(i64::MAX)).unwrap().raw;
    assert_eq!(far, ((i64::MAX as i128 * 9) / 10) as i64);
}

#[test]
fn cornell_potential_increases_with_the_separation() {
    let mut last = cornell_potential(Fixed::from_raw(1)).unwrap().raw;
    let mut r: i64 = 3;
    while r < 10_000_000 {
        let v = cornell_potential(Fixed::from_raw(r)).unwrap().raw;
        assert!(v > last);
        last = v;
        r += r / 7 + 2;
    }
}

#[test]
fn coulomb_term_is_negative_and_linear_term_positive() {
    // at short range the attraction wins, at long range the confinement
    assert!(cornell_potential(Fixed::from_raw(100_000)).unwrap().raw < 0);
    assert!(cornell_potential(Fixed::from_raw(2_000_000)).unwrap().raw > 0);
    // the two terms at 2 fm: -1/3 and 1.8
    assert_eq!(cornell_potential(Fixed::from_raw(2_000_000)).unwrap().raw, 1_800_000 - 333_333);
}
