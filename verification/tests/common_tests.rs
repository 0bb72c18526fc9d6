use octasine::common::{
    get_lfo_target_parameters, LfoTargetLfoParameter, LfoTargetMasterParameter,
    LfoTargetOperatorParameter, LfoTargetParameter, ModTarget, ModTargetStorage, WaveType,
};
use octasine::text::{push_decimal, push_decimal_padded};

#[test]
fn active_indices_lists_set_flags_in_order() {
    let storage = ModTargetStorage::<3>::new([true, false, true]);
    assert_eq!(storage.active_indices(), vec![0, 2]);
    let none = ModTargetStorage::<3>::new([false, false, false]);
    assert_eq!(none.active_indices(), Vec::<usize>::new());
    let all = ModTargetStorage::<2>::new([true, true]);
    assert_eq!(all.active_indices(), vec![0, 1]);
}

#[test]
fn set_index_changes_one_flag() {
    let mut storage = ModTargetStorage::<3>::default();
    assert!(!storage.index_active(0));
    assert!(!storage.index_active(1));
    assert!(storage.index_active(2));
    storage.set_index(0, true);
    storage.set_index(2, false);
    assert_eq!(storage, ModTargetStorage::<3>::new([true, false, false]));
}

#[test]
fn as_string_joins_operator_numbers() {
    assert_eq!(ModTargetStorage::<3>::new([true, false, true]).as_string(), "1, 3");
    assert_eq!(ModTargetStorage::<3>::new([false, true, false]).as_string(), "2");
    assert_eq!(ModTargetStorage::<3>::new([true, true, true]).as_string(), "1, 2, 3");
    assert_eq!(ModTargetStorage::<3>::new([false, false, false]).as_string(), "");
    assert_eq!(ModTargetStorage::<1>::default().as_string(), "1");
}

#[test]
fn as_string_counts_past_nine() {
    let mut flags = [false; 12];
    flags[9] = true;
    flags[11] = true;
    assert_eq!(ModTargetStorage::<12>::new(flags).as_string(), "10, 12");
}

#[test]
fn defaults_target_the_operator_just_below() {
    assert_eq!(ModTargetStorage::<1>::default(), ModTargetStorage::<1>::new([true]));
    assert_eq!(ModTargetStorage::<2>::default(), ModTargetStorage::<2>::new([false, true]));
    assert_eq!(ModTargetStorage::<3>::default(), ModTargetStorage::<3>::new([false, false, true]));
    assert_eq!(WaveType::default(), WaveType::Sine);
}

#[test]
fn permutations_of_one_and_two_flags() {
    assert_eq!(
        ModTargetStorage::<1>::permutations(),
        vec![ModTargetStorage::<1>::new([true]), ModTargetStorage::<1>::new([false])]
    );
    assert_eq!(
        ModTargetStorage::<2>::permutations(),
        vec![
            ModTargetStorage::<2>::new([false, false]),
            ModTargetStorage::<2>::new([true, false]),
            ModTargetStorage::<2>::new([false, true]),
            ModTargetStorage::<2>::new([true, true]),
        ]
    );
}

#[test]
fn permutations_of_three_flags_are_the_eight_masks() {
    let all = ModTargetStorage::<3>::permutations();
    assert_eq!(all.len(), 8);
    assert_eq!(all[0], ModTargetStorage::<3>::new([true, false, false]));
    assert_eq!(all[7], ModTargetStorage::<3>::new([false, false, false]));
    for a in [false, true] {
        for b in [false, true] {
            for c in [false, true] {
                let wanted = ModTargetStorage::<3>::new([a, b, c]);
                assert_eq!(all.iter().filter(|s| **s == wanted).count(), 1);
            }
        }
    }
}

#[test]
fn lfo_targets_grow_by_four_per_oscillator() {
    assert_eq!(get_lfo_target_parameters(0).len(), 33);
    assert_eq!(get_lfo_target_parameters(1).len(), 37);
    assert_eq!(get_lfo_target_parameters(2).len(), 41);
    assert_eq!(get_lfo_target_parameters(3).len(), 45);
}

#[test]
fn lfo_targets_are_listed_in_order() {
    let targets = get_lfo_target_parameters(3);
    assert_eq!(targets[0], LfoTargetParameter::Master(LfoTargetMasterParameter::Volume));
    assert_eq!(targets[1], LfoTargetParameter::Master(LfoTargetMasterParameter::Frequency));
    assert_eq!(targets[2], LfoTargetParameter::Operator(0, LfoTargetOperatorParameter::Volume));
    assert_eq!(targets[4], LfoTargetParameter::Operator(0, LfoTargetOperatorParameter::MixOut));
    assert_eq!(targets[5], LfoTargetParameter::Operator(0, LfoTargetOperatorParameter::Feedback));
    assert_eq!(targets[8], LfoTargetParameter::Operator(0, LfoTargetOperatorParameter::FrequencyFine));
    assert_eq!(targets[9], LfoTargetParameter::Operator(1, LfoTargetOperatorParameter::Volume));
    assert_eq!(targets[12], LfoTargetParameter::Operator(1, LfoTargetOperatorParameter::ModOut));
    assert_eq!(targets[32], LfoTargetParameter::Operator(3, LfoTargetOperatorParameter::FrequencyFine));
    assert_eq!(targets[33], LfoTargetParameter::Lfo(0, LfoTargetLfoParameter::Shape));
    assert_eq!(targets[44], LfoTargetParameter::Lfo(2, LfoTargetLfoParameter::Amount));
}

#[test]
fn lfo_targets_are_legal_and_distinct() {
    for lfo_index in 0..4 {
        let targets = get_lfo_target_parameters(lfo_index);
        for (i, target) in targets.iter().enumerate() {
            match target {
                LfoTargetParameter::Master(_) => {}
                LfoTargetParameter::Operator(index, _) => assert!(*index < 4),
                LfoTargetParameter::Lfo(index, _) => assert!(*index < lfo_index),
            }
            assert_eq!(targets.iter().position(|t| t == target), Some(i));
        }
        assert!(!targets.contains(&LfoTargetParameter::Operator(0, LfoTargetOperatorParameter::ModOut)));
    }
}

#[test]
fn lfo_target_text() {
    assert_eq!(LfoTargetParameter::Master(LfoTargetMasterParameter::Volume).to_text(), "Master volume");
    assert_eq!(LfoTargetParameter::Master(LfoTargetMasterParameter::Frequency).to_text(), "Master frequency");
    assert_eq!(LfoTargetParameter::Operator(0, LfoTargetOperatorParameter::Panning).to_text(), "Op. 1 pan");
    assert_eq!(LfoTargetParameter::Operator(3, LfoTargetOperatorParameter::MixOut).to_text(), "Op. 4 mix out");
    assert_eq!(LfoTargetParameter::Operator(1, LfoTargetOperatorParameter::ModOut).to_text(), "Op. 2 mod out");
    assert_eq!(LfoTargetParameter::Operator(2, LfoTargetOperatorParameter::FrequencyFine).to_text(), "Op. 3 freq fine");
    assert_eq!(LfoTargetParameter::Lfo(0, LfoTargetLfoParameter::Shape).to_text(), "LFO 1 shape");
    assert_eq!(LfoTargetParameter::Lfo(2, LfoTargetLfoParameter::Amount).to_text(), "LFO 3 amount");
    assert_eq!(LfoTargetParameter::Lfo(1, LfoTargetLfoParameter::FrequencyRatio).to_text(), "LFO 2 freq ratio");
}

#[test]
fn decimal_text() {
    let mut text = String::from("n=");
    push_decimal(&mut text, 0);
    assert_eq!(text, "n=0");
    push_decimal(&mut text, 1203);
    assert_eq!(text, "n=01203");
    let mut padded = String::new();
    push_decimal_padded(&mut padded, 7);
    push_decimal_padded(&mut padded, 42);
    push_decimal_padded(&mut padded, 128);
    push_decimal_padded(&mut padded, 1000);
    assert_eq!(padded, "0070421281000");
}
