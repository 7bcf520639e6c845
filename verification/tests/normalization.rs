use quark_sim::fixed::Fixed;
use quark_sim::normalization::denormalize;
use quark_sim::normalization::normalize;
use quark_sim::normalization::normalized_targets;
use quark_sim::normalization::physical_loss;
use quark_sim::training::ModelConfig;

fn fx(raw: i64) -> Fixed {
    Fixed::from_raw(raw)
}

fn config(mean: i64, std: i64) -> ModelConfig {
    ModelConfig { target_mean: fx(mean), target_std: fx(std) }
}

#[test]
fn normalizing_takes_the_mean_and_divides_by_the_deviation() {
    // (2.5 - 0.5) / 2 = 1
    assert_eq!(normalize(fx(2_500_000), config(500_000, 2_000_000)), Some(fx(1_000_000)));
    // (1 - 0) / 3 = 0.333333
    assert_eq!(normalize(fx(1_000_000), config(0, 3_000_000)), Some(fx(333_333)));
    assert_eq!(normalize(fx(-1_000_000), config(0, 3_000_000)), Some(fx(-333_333)));
}

#[test]
fn normalizing_by_a_zero_deviation_is_undefined() {
    assert_eq!(normalize(fx(2_500_000), config(500_000, 0)), None);
    assert_eq!(normalized_targets(&vec![fx(1)], config(0, 0)), None);
}

#[test]
fn denormalizing_multiplies_by_the_deviation_and_adds_the_mean() {
    // 1 * 2 + 0.5 = 2.5
    assert_eq!(denormalize(fx(1_000_000), config(500_000, 2_000_000)).raw, 2_500_000);
    assert_eq!(denormalize(fx(333_333), config(0, 3_000_000)).raw, 999_999);
    assert_eq!(denormalize(fx(-1_000_000), config(300_000, 500_000)).raw, -200_000);
}

#[test]
fn targets_are_normalized_in_order() {
    let targets = vec![fx(2_500_000), fx(500_000), fx(-1_500_000)];
    assert_eq!(
        normalized_targets(&targets, config(500_000, 2_000_000)),
        Some(vec![fx(1_000_000), fx(0), fx(-1_000_000)])
    );
    assert_eq!(normalized_targets(&Vec::new(), config(500_000, 2_000_000)), Some(Vec::new()));
}

#[test]
fn round_trip_loses_at_most_the_rounding() {
    let setting = config(-3_291_737, 7_096_652);
    let mut value: i64 = -20_000_000;
    while value < 20_000_000 {
        let back = denormalize(normalize(fx(value), setting).unwrap(), setting);
        // one millionth plus one millionth of the deviation
        assert!((back.raw - value).abs() <= 7 + 1);
        value += 123_457;
    }
}

#[test]
fn physical_loss_is_the_mean_squared_error_after_denormalizing() {
    // outputs 1 and 2 stand for 2.5 and 4.5; against 2.5 and 4: (0 + 0.25) / 2
    let outputs = vec![fx(1_000_000), fx(2_000_000)];
    let targets = vec![fx(2_500_000), fx(4_000_000)];
    assert_eq!(physical_loss(&outputs, &targets, config(500_000, 2_000_000)), Some(fx(125_000)));
    assert_eq!(physical_loss(&targets, &targets, config(0, 1_000_000)), Some(fx(0)));
}

#[test]
fn physical_loss_needs_one_output_per_target() {
    let one = vec![fx(1_000_000)];
    let two = vec![fx(1_000_000), fx(2_000_000)];
    assert_eq!(physical_loss(&one, &two, config(0, 1_000_000)), None);
    assert_eq!(physical_loss(&two, &one, config(0, 1_000_000)), None);
    assert_eq!(physical_loss(&Vec::new(), &Vec::new(), config(0, 1_000_000)), None);
}

#[test]
fn physical_loss_agrees_with_double_precision() {
    let outputs: Vec<f64> = (0..40).map(|i| (i as f64 * 0.37).sin()).collect();
    let targets: Vec<f64> = (0..40).map(|i| (i as f64 * 0.41).cos() * 2.0 - 0.3).collect();
    let (mean, std) = (-0.25f64, 1.75f64);
    let exact = outputs
        .iter()
        .zip(targets.iter())
        .map(|(o, t)| (o * std + mean - t) * (o * std + mean - t))
        .sum::<f64>()
        / 40.0;
    let as_fixed = |values: &Vec<f64>| -> Vec<Fixed> { values.iter().map(|v| fx((v * 1e6).round() as i64)).collect() };
    let loss = physical_loss(&as_fixed(&outputs), &as_fixed(&targets), config(-250_000, 1_750_000)).unwrap();
    assert!((loss.raw as f64 / 1e6 - exact).abs() < 1e-4);
}
