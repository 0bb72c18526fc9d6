use octasine::common::WaveType;
use octasine::gen::{
    operators_to_generate, plan_batches, run_operator_dependency_analysis, select_batch_width,
    RemainingSamples,
};

const SINE: [WaveType; 4] = [WaveType::Sine; 4];

#[test]
fn remaining_samples_classes() {
    assert_eq!(RemainingSamples::new(0), RemainingSamples::Zero);
    assert_eq!(RemainingSamples::new(1), RemainingSamples::One);
    assert_eq!(RemainingSamples::new(2), RemainingSamples::TwoOrMore);
    assert_eq!(RemainingSamples::new(3), RemainingSamples::TwoOrMore);
    assert_eq!(RemainingSamples::new(4), RemainingSamples::FourOrMore);
    assert_eq!(RemainingSamples::new(usize::MAX), RemainingSamples::FourOrMore);
}

#[test]
fn batch_width_is_the_widest_available() {
    assert_eq!(select_batch_width(RemainingSamples::FourOrMore, true, true), 4);
    assert_eq!(select_batch_width(RemainingSamples::FourOrMore, false, true), 2);
    assert_eq!(select_batch_width(RemainingSamples::FourOrMore, false, false), 1);
    assert_eq!(select_batch_width(RemainingSamples::FourOrMore, true, false), 4);
    assert_eq!(select_batch_width(RemainingSamples::TwoOrMore, true, true), 2);
    assert_eq!(select_batch_width(RemainingSamples::TwoOrMore, true, false), 1);
    assert_eq!(select_batch_width(RemainingSamples::One, true, true), 1);
    assert_eq!(select_batch_width(RemainingSamples::Zero, true, true), 0);
}

#[test]
fn batch_plans() {
    assert_eq!(plan_batches(0, true, true), Vec::<usize>::new());
    assert_eq!(plan_batches(7, true, true), vec![4, 2, 1]);
    assert_eq!(plan_batches(7, false, true), vec![2, 2, 2, 1]);
    assert_eq!(plan_batches(3, false, false), vec![1, 1, 1]);
    assert_eq!(plan_batches(128, true, true), vec![4; 32]);
}

#[test]
fn batch_plans_cover_the_buffer() {
    for n in 0..200usize {
        for (wide, paired) in [(true, true), (false, true), (false, false), (true, false)] {
            let plan = plan_batches(n, wide, paired);
            assert_eq!(plan.iter().sum::<usize>(), n);
            for width in plan {
                assert!(width == 1 || (width == 2 && paired) || (width == 4 && wide));
            }
        }
    }
}

#[test]
fn all_operators_generated_by_default() {
    let generate = run_operator_dependency_analysis(
        [false; 4],
        [false; 4],
        [false; 4],
        SINE,
        [0, 0, 1, 2],
    );
    assert_eq!(generate, [true; 4]);
}

#[test]
fn silent_operators_are_left_out() {
    let generate =
        run_operator_dependency_analysis([true; 4], [false; 4], [false; 4], SINE, [0, 0, 1, 2]);
    assert_eq!(generate, [false; 4]);
    let generate = run_operator_dependency_analysis(
        [false, true, false, false],
        [false; 4],
        [false; 4],
        SINE,
        [0, 0, 1, 2],
    );
    assert_eq!(generate, [true, false, true, true]);
}

#[test]
fn pure_modulator_of_a_silent_target_is_left_out() {
    // Operator 3 only modulates operator 2, whose volume is off; operator 4
    // only modulates operator 3.
    let generate = run_operator_dependency_analysis(
        [false, true, false, false],
        [false, false, true, true],
        [false; 4],
        SINE,
        [0, 0, 1, 2],
    );
    assert_eq!(generate, [true, false, false, false]);
}

#[test]
fn modulator_with_additive_output_is_kept() {
    let generate = run_operator_dependency_analysis(
        [false, true, false, false],
        [false, false, false, true],
        [false; 4],
        SINE,
        [0, 0, 1, 2],
    );
    assert_eq!(generate, [true, false, true, true]);
}

#[test]
fn modulator_of_noise_or_deaf_target_is_left_out() {
    let generate = run_operator_dependency_analysis(
        [false; 4],
        [false, true, false, false],
        [false; 4],
        [WaveType::WhiteNoise, WaveType::Sine, WaveType::Sine, WaveType::Sine],
        [0, 0, 1, 2],
    );
    assert_eq!(generate, [true, false, true, true]);
    let generate = run_operator_dependency_analysis(
        [false; 4],
        [false, true, false, false],
        [true, false, false, false],
        SINE,
        [0, 0, 1, 2],
    );
    assert_eq!(generate, [true, false, true, true]);
}

#[test]
fn a_chain_against_the_order_of_the_pass_is_followed() {
    // 1 -> 2 -> 3 -> 0 where operator 1 is visited first: three passes are
    // needed to see that none of them is heard once operator 0 ignores
    // modulation.
    let generate = run_operator_dependency_analysis(
        [false; 4],
        [false, true, true, true],
        [true, false, false, false],
        SINE,
        [0, 2, 3, 0],
    );
    assert_eq!(generate, [true, false, false, false]);
}

#[test]
fn analysis_is_a_fixed_point_for_all_inputs() {
    for bits in 0u32..(1 << 12) {
        for targets in [[0usize, 0, 0, 0], [0, 0, 1, 2], [0, 2, 3, 0], [0, 3, 1, 2], [0, 1, 2, 3]] {
            for noise in 0u32..4 {
                let flag = |k: u32| bits & (1 << k) != 0;
                let volume_off = [flag(0), flag(1), flag(2), flag(3)];
                let additive_off = [flag(4), flag(5), flag(6), flag(7)];
                let index_off = [flag(8), flag(9), flag(10), flag(11)];
                let mut waves = SINE;
                waves[noise as usize] = WaveType::WhiteNoise;
                let generate = run_operator_dependency_analysis(
                    volume_off,
                    additive_off,
                    index_off,
                    waves,
                    targets,
                );
                assert_eq!(generate[0], !volume_off[0]);
                for i in 1..4 {
                    let t = targets[i];
                    let left_out = volume_off[i]
                        || (additive_off[i]
                            && (!generate[t] || waves[t] == WaveType::WhiteNoise || index_off[t]));
                    assert_eq!(!generate[i], left_out);
                }
            }
        }
    }
}

#[test]
fn first_operator_silent_with_default_routing_leaves_nothing() {
    // By default only the first operator is mixed out, and each of the
    // others modulates the operator just below it.
    let generate = run_operator_dependency_analysis(
        [true, false, false, false],
        [false, true, true, true],
        [false; 4],
        SINE,
        [0, 0, 1, 2],
    );
    assert_eq!(generate, [false; 4]);
}

#[test]
fn operators_are_generated_from_the_top_down() {
    assert_eq!(operators_to_generate([true; 4]), vec![3, 2, 1, 0]);
    assert_eq!(operators_to_generate([false; 4]), Vec::<usize>::new());
    assert_eq!(operators_to_generate([true, false, true, false]), vec![2, 0]);
    assert_eq!(operators_to_generate([false, false, false, true]), vec![3]);
}

#[test]
fn with_downward_routing_exactly_the_heard_operators_are_generated() {
    for t2 in 0..2usize {
        for t3 in 0..3usize {
            let targets = [0usize, 0, t2, t3];
            for bits in 0u32..(1 << 16) {
                let flag = |k: u32| bits & (1 << k) != 0;
                let volume_off = [flag(0), flag(1), flag(2), flag(3)];
                let additive_off = [flag(4), flag(5), flag(6), flag(7)];
                let index_off = [flag(8), flag(9), flag(10), flag(11)];
                let wave = |k: u32| if flag(k) { WaveType::WhiteNoise } else { WaveType::Sine };
                let waves = [wave(12), wave(13), wave(14), wave(15)];
                let mut heard = [false; 4];
                heard[0] = !volume_off[0];
                for i in 1..4 {
                    let t = targets[i];
                    heard[i] = !volume_off[i]
                        && (!additive_off[i]
                            || (heard[t] && waves[t] != WaveType::WhiteNoise && !index_off[t]));
                }
                let generate = run_operator_dependency_analysis(
                    volume_off,
                    additive_off,
                    index_off,
                    waves,
                    targets,
                );
                assert_eq!(generate, heard);
            }
        }
    }
}
