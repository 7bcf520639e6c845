use quark_sim::evaluation::grade_error;
use quark_sim::evaluation::loss_trend;
use quark_sim::evaluation::predict_along_axis;
use quark_sim::evaluation::relative_error_percent;
use quark_sim::evaluation::test_distances;
use quark_sim::evaluation::test_model;
use quark_sim::evaluation::Agreement;
use quark_sim::evaluation::CURVE_POINTS;
use quark_sim::fixed::Fixed;
use quark_sim::physics::cornell_potential;
use quark_sim::regressor::CornellField;
use quark_sim::regressor::Regressor;

fn fx(raw: i64) -> Fixed {
    Fixed::from_raw(raw)
}

/// A regressor that answers the same everywhere, and accepts only
/// displacements along the x axis.
struct Constant(i64);

impl Regressor for Constant {
    fn output(&self, dx: Fixed, dy: Fixed, dz: Fixed) -> Fixed {
        self.forward(dx, dy, dz)
    }

    fn forward(&self, _dx: Fixed, dy: Fixed, dz: Fixed) -> Fixed {
        assert_eq!((dy.raw, dz.raw), (0, 0));
        fx(self.0)
    }
}

/// A regressor that answers with the x component of the displacement.
struct AlongX;

impl Regressor for AlongX {
    fn output(&self, dx: Fixed, dy: Fixed, dz: Fixed) -> Fixed {
        self.forward(dx, dy, dz)
    }

    fn forward(&self, dx: Fixed, _dy: Fixed, _dz: Fixed) -> Fixed {
        dx
    }
}

#[test]
fn probe_distances_are_fixed() {
    let raw: Vec<i64> = test_distances().iter().map(|d| d.raw).collect();
    assert_eq!(
        raw,
        vec![
            100_000, 200_000, 400_000, 600_000, 800_000, 1_000_000, 1_300_000, 1_600_000,
            2_000_000, 2_400_000, 2_800_000,
        ]
    );
}

#[test]
fn prediction_is_denormalized() {
    // output 0.5 at every point, std 2, mean 0.25: 1.25
    assert_eq!(predict_along_axis(&Constant(500_000), fx(1_000_000), fx(250_000), fx(2_000_000)).raw, 1_250_000);
}

#[test]
fn prediction_asks_along_the_x_axis() {
    assert_eq!(predict_along_axis(&AlongX, fx(1_300_000), fx(0), fx(1_000_000)).raw, 1_300_000);
    assert_eq!(predict_along_axis(&Constant(7), fx(1_300_000), fx(0), fx(1_000_000)).raw, 7);
}

#[test]
fn report_on_a_perfect_model() {
    let report = test_model(&CornellField, fx(0), fx(1_000_000));
    assert_eq!(report.test_distances, test_distances());
    assert_eq!(report.cornell_values.len(), 11);
    assert_eq!(report.nn_values, report.cornell_values);
    assert_eq!(report.cornell_values[5].raw, 233_334);
    assert_eq!(report.cornell_values[0].raw, 90_000 - 6_666_666);
    assert_eq!(report.potential_theory.len(), CURVE_POINTS);
    assert_eq!(report.potential_nn, report.potential_theory);
    assert_eq!(report.potential_theory[0], (fx(100_000), fx(90_000 - 6_666_666)));
    assert_eq!(report.potential_theory[90], (fx(1_000_000), fx(233_334)));
    assert_eq!(report.potential_theory[240].0.raw, 2_500_000);
    for (i, point) in report.potential_theory.iter().enumerate() {
        assert_eq!(point.0.raw, (10 + i as i64) * 10_000);
        assert_eq!(Ok(point.1), cornell_potential(point.0));
    }
}

#[test]
fn report_on_a_constant_model() {
    let report = test_model(&Constant(-1_000_000), fx(300_000), fx(500_000));
    assert!(report.nn_values.iter().all(|v| v.raw == -200_000));
    assert!(report.potential_nn.iter().all(|p| p.1.raw == -200_000));
    assert_eq!(report.potential_nn.len(), 241);
    assert_eq!(report.cornell_values[8].raw, 1_800_000 - 333_333);
}

#[test]
fn relative_error_in_percent() {
    // |1.1 - 1.0| / 1.0 = 10 %
    assert_eq!(relative_error_percent(fx(1_100_000), fx(1_000_000)), Some(fx(10_000_000)));
    // |-0.5 - -2.0| / 2.0 = 75 %
    assert_eq!(relative_error_percent(fx(-500_000), fx(-2_000_000)), Some(fx(75_000_000)));
    assert_eq!(relative_error_percent(fx(233_334), fx(233_334)), Some(fx(0)));
}

#[test]
fn relative_error_against_zero_is_undefined() {
    assert_eq!(relative_error_percent(fx(1_100_000), fx(0)), None);
    assert_eq!(relative_error_percent(fx(0), fx(0)), None);
}

#[test]
fn errors_are_graded() {
    assert_eq!(grade_error(fx(0)), Agreement::Close);
    assert_eq!(grade_error(fx(4_999_999)), Agreement::Close);
    assert_eq!(grade_error(fx(5_000_000)), Agreement::Fair);
    assert_eq!(grade_error(fx(19_999_999)), Agreement::Fair);
    assert_eq!(grade_error(fx(20_000_000)), Agreement::Poor);
    assert_eq!(grade_error(fx(i64::MAX)), Agreement::Poor);
}

#[test]
fn trend_counts_pairs_that_do_not_rise() {
    let history = vec![(0, fx(900)), (100, fx(500)), (200, fx(500)), (300, fx(600)), (400, fx(100))];
    assert_eq!(loss_trend(&history), (3, 4));
    assert_eq!(loss_trend(&Vec::new()), (0, 0));
    assert_eq!(loss_trend(&vec![(0, fx(1))]), (0, 0));
    assert_eq!(loss_trend(&vec![(0, fx(1)), (100, fx(2))]), (0, 1));
    assert_eq!(loss_trend(&vec![(0, fx(2)), (100, fx(1))]), (1, 1));
}
