use octasine::common::WaveType;
use octasine::gen::hard_limit_bits;
use octasine::processing::OperatorModulationTargetProcessingParameter;
use octasine::sync::valid_tempo;

#[test]
fn hard_limit_agrees_with_float_limit() {
    let samples = [
        0.0f64, -0.0, 1.0, -1.0, 4.999999999999999, 5.0, 5.000000000000001, -5.0,
        -5.000000000000001, 1.0e300, -1.0e300, f64::MAX, f64::MIN, f64::INFINITY,
        f64::NEG_INFINITY, f64::MIN_POSITIVE, -f64::MIN_POSITIVE, 5.0e-324, f64::NAN,
    ];
    for value in samples {
        let expected = value.min(5.0).max(-5.0);
        assert_eq!(hard_limit_bits(value.to_bits()), expected.to_bits(), "{}", value);
    }
    for _ in 0..20_000 {
        let bits = fastrand::u64(..);
        let value = f64::from_bits(bits);
        let limited = f64::from_bits(hard_limit_bits(bits));
        assert_eq!(limited.to_bits(), value.min(5.0).max(-5.0).to_bits(), "{:#x}", bits);
        assert!((-5.0..=5.0).contains(&limited));
    }
    for _ in 0..20_000 {
        let value = (fastrand::f64() - 0.5) * 30.0;
        let limited = f64::from_bits(hard_limit_bits(value.to_bits()));
        assert_eq!(limited, value.min(5.0).max(-5.0));
    }
}

#[test]
fn silence_passes_the_limit() {
    assert_eq!(hard_limit_bits(0), 0);
    assert_eq!(hard_limit_bits(0.25f64.to_bits()), 0.25f64.to_bits());
    assert_eq!(hard_limit_bits(0xFFF8_0000_0000_0000), 5.0f64.to_bits());
}

#[test]
fn wave_type_steps() {
    assert_eq!(WaveType::steps(), vec![WaveType::Sine, WaveType::WhiteNoise]);
}

#[test]
fn tempo_counts_only_when_flagged() {
    assert_eq!(valid_tempo(1 << 10, 120.0f64.to_bits()), Some(120.0f64.to_bits()));
    assert_eq!(valid_tempo(-1, 7), Some(7));
    assert_eq!(valid_tempo((1 << 10) | 3, 7), Some(7));
    assert_eq!(valid_tempo(0, 7), None);
    assert_eq!(valid_tempo(!(1 << 10), 7), None);
    assert_eq!(valid_tempo(1 << 9, 7), None);
}

#[test]
fn modulation_targets_by_operator() {
    assert!(OperatorModulationTargetProcessingParameter::opt_new(0).is_none());
    assert!(OperatorModulationTargetProcessingParameter::opt_new(4).is_none());
    assert!(OperatorModulationTargetProcessingParameter::opt_new(usize::MAX).is_none());
    let two = OperatorModulationTargetProcessingParameter::opt_new(1).unwrap();
    assert!(matches!(two, OperatorModulationTargetProcessingParameter::Two(_)));
    assert_eq!(two.get_values(), vec![true]);
    let three = OperatorModulationTargetProcessingParameter::opt_new(2).unwrap();
    assert!(matches!(three, OperatorModulationTargetProcessingParameter::Three(_)));
    assert_eq!(three.get_values(), vec![false, true]);
    let mut four = OperatorModulationTargetProcessingParameter::opt_new(3).unwrap();
    assert!(matches!(four, OperatorModulationTargetProcessingParameter::Four(_)));
    four.advance_one_sample();
    assert_eq!(four.get_values(), vec![false, false, true]);
}
