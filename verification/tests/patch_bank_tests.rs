use octasine::parameters::{MasterParameter, OperatorParameter, Parameter, NUM_PARAMETERS};
use octasine::sync::change_info::{ParameterChangeInfo, MAX_NUM_PARAMETERS};
use octasine::sync::patch_bank::{clamp_bits, Patch, PatchBank, SerdePatch, SerdePatchBank};
use octasine::sync::patch_bytes::{PatchDecodeError, PatchEncodeError};

fn defaults() -> Vec<u32> {
    (0..NUM_PARAMETERS).map(|i| (i as f32 / 200.0).to_bits()).collect()
}

fn default_bank() -> PatchBank {
    PatchBank::new(defaults())
}

/// Test importing and exporting, as well as some related functionality
#[test]
pub fn test_export_import() {
    for _ in 0..20 {
        let mut bank_1 = default_bank();

        for preset_index in 0..bank_1.num_patches() {
            bank_1.set_patch_index(preset_index);

            assert_eq!(bank_1.get_patch_index(), preset_index);

            for parameter_index in 0..bank_1.num_parameters() {
                let value = fastrand::f32();

                bank_1.set_parameter_from_host(parameter_index, value.to_bits());

                assert_eq!(
                    bank_1.get_parameter_value(parameter_index).map(f32::from_bits),
                    Some(value)
                );
            }
        }

        let mut bank_2 = default_bank();

        bank_2.import_bank_from_bytes(&bank_1.export_bank_as_bytes()).unwrap();

        for preset_index in 0..bank_1.num_patches() {
            bank_1.set_patch_index(preset_index);
            bank_2.set_patch_index(preset_index);

            for parameter_index in 0..bank_1.num_parameters() {
                assert_eq!(
                    bank_1.get_parameter_value(parameter_index),
                    bank_2.get_parameter_value(parameter_index)
                );
            }
        }
    }
}

#[test]
fn test_load_built_in_patches() {
    let preset_bank = default_bank();

    println!("Dummy info: {:?}", preset_bank.get_parameter_value(0));
}

#[test]
fn new_bank_holds_defaults() {
    let mut bank = default_bank();
    assert_eq!(bank.num_patches(), 128);
    assert_eq!(bank.num_parameters(), 121);
    assert_eq!(bank.get_patch_index(), 0);
    assert!(!bank.have_patches_changed());
    assert_eq!(bank.get_changed_parameters_from_audio(), None);
    assert_eq!(bank.get_changed_parameters_from_gui(), None);
    for index in 0..128 {
        assert_eq!(bank.get_patch(index).get_name(), "-");
        assert_eq!(bank.get_patch(index).num_parameters(), 121);
        assert_eq!(bank.get_patch(index).get_value(3), Some((3.0f32 / 200.0).to_bits()));
    }
    assert_eq!(bank.get_parameter_value(120), Some((120.0f32 / 200.0).to_bits()));
    assert_eq!(bank.get_parameter_value(121), None);
}

#[test]
fn patch_names_keep_ascii_only() {
    let mut patch = Patch::new("Grüße, 世界!", vec![1, 2]);
    assert_eq!(patch.get_name(), "Gre, !");
    patch.set_name("ünïcödé".to_string());
    assert_eq!(patch.get_name(), "ncd");
    patch.set_name("plain".to_string());
    assert_eq!(patch.get_name(), "plain");
    assert_eq!(patch.get_value(1), Some(2));
    assert_eq!(patch.get_value(2), None);
}

#[test]
fn numbered_patch_names() {
    let mut bank = default_bank();
    bank.set_patch_name("Lead".to_string());
    assert!(bank.have_patches_changed());
    assert!(!bank.have_patches_changed());
    bank.set_patch_index(99);
    bank.set_patch_name("Bass".to_string());
    assert_eq!(bank.get_current_patch_name(), "Bass");
    assert_eq!(bank.get_patch_name(0), Some("001: Lead".to_string()));
    assert_eq!(bank.get_patch_name(9), Some("010: -".to_string()));
    assert_eq!(bank.get_patch_name(99), Some("100: Bass".to_string()));
    assert_eq!(bank.get_patch_name(127), Some("128: -".to_string()));
    assert_eq!(bank.get_patch_name(128), None);
    let names = bank.get_patch_names();
    assert_eq!(names.len(), 128);
    assert_eq!(names[0], "001: Lead");
    assert_eq!(names[99], "100: Bass");
    assert_eq!(names[41], "042: -");
}

#[test]
fn export_filename() {
    let mut bank = default_bank();
    assert_eq!(bank.get_current_patch_filename_for_export(), "-.fxp");
    bank.set_patch_name("Pad 1".to_string());
    assert_eq!(bank.get_current_patch_filename_for_export(), "Pad 1.fxp");
    bank.set_patch_name("".to_string());
    assert_eq!(bank.get_current_patch_filename_for_export(), "-.fxp");
}

#[test]
fn set_patch_index_ignores_what_the_bank_lacks() {
    let mut bank = default_bank();
    bank.set_patch_index(128);
    assert_eq!(bank.get_patch_index(), 0);
    assert!(!bank.have_patches_changed());
    assert_eq!(bank.get_changed_parameters_from_audio(), None);
    bank.set_patch_index(127);
    assert_eq!(bank.get_patch_index(), 127);
    assert!(bank.have_patches_changed());
    let changes = bank.get_changed_parameters_from_audio().unwrap();
    assert_eq!(changes.len(), MAX_NUM_PARAMETERS);
    for (i, change) in changes.iter().enumerate() {
        if i < 121 {
            assert_eq!(*change, Some((i as f32 / 200.0).to_bits()));
        } else {
            assert_eq!(*change, None);
        }
    }
    assert_eq!(bank.get_changed_parameters_from_audio(), None);
    assert!(bank.get_changed_parameters_from_gui().is_some());
}

#[test]
fn clamp_agrees_with_float_clamp() {
    let samples = [
        0.0f32, 1.0, 0.5, 0.25, 1.0e-30, f32::MIN_POSITIVE, 0.99999994, 1.0000001, 2.0, 1.0e30,
        f32::MAX, f32::INFINITY, -1.0e-30, -0.5, -1.0, -2.0, f32::MIN, f32::NEG_INFINITY, f32::NAN,
    ];
    for value in samples {
        let expected = value.min(1.0).max(0.0);
        assert_eq!(f32::from_bits(clamp_bits(value.to_bits())), expected, "{}", value);
    }
    for _ in 0..10_000 {
        let bits = fastrand::u32(..);
        let value = f32::from_bits(bits);
        if bits == 0x8000_0000 {
            continue;
        }
        assert_eq!(clamp_bits(bits), value.min(1.0).max(0.0).to_bits(), "{:#x}", bits);
    }
    assert_eq!(clamp_bits((-0.0f32).to_bits()), 0);
    assert_eq!(clamp_bits(0x7FC0_0000), 1.0f32.to_bits());
    assert_eq!(clamp_bits(0xFFC0_0000), 1.0f32.to_bits());
}

#[test]
fn set_parameter_from_gui_clamps_and_tells_audio() {
    let mut bank = default_bank();
    bank.set_parameter_from_gui(5, 1.5f32.to_bits());
    assert_eq!(bank.get_parameter_value(5), Some(1.0f32.to_bits()));
    bank.set_parameter_from_gui(6, (-0.5f32).to_bits());
    assert_eq!(bank.get_parameter_value(6), Some(0.0f32.to_bits()));
    bank.set_parameter_from_gui(7, 0.75f32.to_bits());
    assert_eq!(bank.get_parameter_value(7), Some(0.75f32.to_bits()));
    bank.set_parameter_from_gui(121, 0.75f32.to_bits());
    assert_eq!(bank.get_changed_parameters_from_gui(), None);
    let changes = bank.get_changed_parameters_from_audio().unwrap();
    for (i, change) in changes.iter().enumerate() {
        match i {
            5 => assert_eq!(*change, Some(1.0f32.to_bits())),
            6 => assert_eq!(*change, Some(0)),
            7 => assert_eq!(*change, Some(0.75f32.to_bits())),
            _ => assert_eq!(*change, None),
        }
    }
}

#[test]
fn set_parameter_from_host_clamps_and_tells_both() {
    let mut bank = default_bank();
    for (index, value) in [1.5f32, -0.25, f32::NAN, f32::INFINITY, f32::NEG_INFINITY, 0.625, 0.0, 1.0]
        .into_iter()
        .enumerate()
    {
        bank.set_parameter_from_host(index, value.to_bits());
        assert_eq!(
            bank.get_parameter_value(index).map(f32::from_bits),
            Some(value.min(1.0).max(0.0))
        );
    }
    assert_eq!(bank.get_parameter_value(0), Some(1.0f32.to_bits()));
    assert_eq!(bank.get_parameter_value(1), Some(0));
    assert_eq!(bank.get_parameter_value(5), Some(0.625f32.to_bits()));
    assert_eq!(bank.get_parameter_value(8), Some((8.0f32 / 200.0).to_bits()));
    bank.set_parameter_from_host(500, 1);
    let audio = bank.get_changed_parameters_from_audio().unwrap();
    let gui = bank.get_changed_parameters_from_gui().unwrap();
    assert_eq!(audio, gui);
    assert_eq!(audio[0], Some(1.0f32.to_bits()));
    assert_eq!(audio.iter().filter(|c| c.is_some()).count(), 8);
}

#[test]
fn text_values_are_clamped() {
    let mut bank = default_bank();
    assert!(bank.set_parameter_text_from_host(2, Some(3.0f32.to_bits())));
    assert_eq!(bank.get_parameter_value(2), Some(1.0f32.to_bits()));
    assert!(bank.set_parameter_text_from_gui(3, Some((-3.0f32).to_bits())));
    assert_eq!(bank.get_parameter_value(3), Some(0));
    assert!(bank.set_parameter_text_from_gui(4, Some(0.5f32.to_bits())));
    assert_eq!(bank.get_parameter_value(4), Some(0.5f32.to_bits()));
}

#[test]
fn text_that_was_not_understood_changes_nothing() {
    let mut bank = default_bank();
    assert!(!bank.set_parameter_text_from_host(3, None));
    assert!(!bank.set_parameter_text_from_gui(3, None));
    assert!(!bank.set_parameter_text_from_host(121, Some(7)));
    assert!(!bank.set_parameter_text_from_gui(121, Some(7)));
    assert_eq!(bank.get_parameter_value(3), Some((3.0f32 / 200.0).to_bits()));
    assert_eq!(bank.get_changed_parameters_from_audio(), None);
    assert_eq!(bank.get_changed_parameters_from_gui(), None);
    assert!(bank.set_parameter_text_from_gui(3, Some(7)));
    assert_eq!(bank.get_parameter_value(3), Some(7));
    assert_eq!(bank.get_changed_parameters_from_gui(), None);
    assert_eq!(bank.get_changed_parameters_from_audio().unwrap()[3], Some(7));
    assert!(bank.set_parameter_text_from_host(4, Some(8)));
    assert_eq!(bank.get_changed_parameters_from_gui().unwrap()[4], Some(8));
    assert_eq!(bank.get_changed_parameters_from_audio().unwrap()[4], Some(8));
}

#[test]
fn parameters_by_key() {
    let mut bank = default_bank();
    bank.set_parameter_from_host(22, 9);
    let key = Parameter::Operator(1, OperatorParameter::ModOut);
    assert_eq!(bank.get_parameter_by_key(key), Some(9));
    assert_eq!(bank.get_index_and_parameter_by_key(key), Some((22, 9)));
    assert_eq!(bank.get_parameter_by_key(Parameter::Operator(0, OperatorParameter::ModOut)), None);
    assert_eq!(bank.get_index_and_parameter_by_key(Parameter::Unset), None);
    let short = PatchBank::new(vec![1, 2, 3]);
    assert_eq!(short.get_parameter_by_key(Parameter::Master(MasterParameter::Frequency)), Some(2));
    assert_eq!(short.get_parameter_by_key(Parameter::Master(MasterParameter::GlideTime)), None);
}

#[test]
fn change_info_reports_and_clears() {
    let mut info = ParameterChangeInfo::new();
    assert!(!info.changes_exist());
    assert_eq!(info.get_changed_parameters(&vec![1, 2, 3]), None);
    info.mark_as_changed(1);
    info.mark_as_changed(100);
    assert!(info.changes_exist());
    let changes = info.get_changed_parameters(&vec![1, 2, 3]).unwrap();
    assert_eq!(changes.len(), 128);
    assert_eq!(changes[1], Some(2));
    assert_eq!(changes.iter().filter(|c| c.is_some()).count(), 1);
    assert!(!info.changes_exist());
    info.mark_as_changed(100);
    assert_eq!(info.get_changed_parameters(&vec![1, 2, 3]), Some(vec![None; 128]));
    info.mark_all_as_changed();
    let changes = info.get_changed_parameters(&vec![1, 2, 3]).unwrap();
    assert_eq!(&changes[..4], &[Some(1), Some(2), Some(3), None]);
}

#[test]
fn patch_byte_form() {
    let patch = Patch::new("Ab", vec![1, 0x0403_0201]);
    let bytes = patch.export_bytes();
    assert_eq!(
        bytes,
        vec![
            2, 0, 0, 0, 0, 0, 0, 0, b'A', b'b', 2, 0, 0, 0, 0, 0, 0, 0, 1, 0, 0, 0, 1, 2, 3, 4
        ]
    );
    let read = SerdePatch::from_bytes(&bytes).unwrap();
    assert_eq!(read.name, "Ab");
    assert_eq!(read.parameters, vec![1, 0x0403_0201]);
    let empty = Patch::new("", vec![]).export_bytes();
    assert_eq!(empty, vec![0; 16]);
}

#[test]
fn patch_round_trip() {
    for _ in 0..50 {
        let count = fastrand::usize(0..200);
        let values: Vec<u32> = (0..count).map(|_| fastrand::u32(..)).collect();
        let name: String =
            (0..fastrand::usize(0..40)).map(|_| fastrand::u8(0..128) as char).collect();
        let patch = Patch::new(&name, values.clone());
        let mut other = Patch::new("other", vec![0; count]);
        assert!(other.import_bytes(&patch.export_bytes()));
        assert_eq!(other.get_name(), name);
        for (i, value) in values.iter().enumerate() {
            assert_eq!(other.get_value(i), Some(*value));
        }
        assert_eq!(other.export_bytes(), patch.export_bytes());
    }
}

#[test]
fn import_takes_only_the_values_that_fit() {
    let mut patch = Patch::new("a", vec![1, 2, 3]);
    patch.import_serde_preset(&SerdePatch { name: "bé".to_string(), parameters: vec![9] });
    assert_eq!(patch.get_name(), "b");
    assert_eq!(patch.export_serde_preset().parameters, vec![9, 2, 3]);
    patch.import_serde_preset(&SerdePatch { name: "c".to_string(), parameters: vec![5, 6, 7, 8] });
    assert_eq!(patch.export_serde_preset().parameters, vec![5, 6, 7]);
    patch.set_from_patch_parameters(&vec![0, 0]);
    assert_eq!(patch.get_name(), "-");
    assert_eq!(patch.export_serde_preset().parameters, vec![0, 0, 7]);
    patch.set_value(2, 1);
    assert_eq!(patch.export_serde_preset().parameters, vec![0, 0, 1]);
}

#[test]
fn missing_values_take_their_defaults() {
    let mut patch = Patch::new("a", vec![1, 2, 3]);
    patch.set_value(1, 50);
    patch.set_value(2, 60);
    patch.import_serde_preset(&SerdePatch { name: "b".to_string(), parameters: vec![9] });
    assert_eq!(patch.export_serde_preset().parameters, vec![9, 2, 3]);
    patch.set_value(0, 70);
    patch.import_serde_preset(&SerdePatch { name: "c".to_string(), parameters: vec![] });
    assert_eq!(patch.export_serde_preset().parameters, vec![1, 2, 3]);
    let bytes = Patch::new("short", vec![8]).export_bytes();
    patch.set_value(2, 60);
    assert!(patch.import_bytes(&bytes));
    assert_eq!(patch.get_name(), "short");
    assert_eq!(patch.export_serde_preset().parameters, vec![8, 2, 3]);
}

#[test]
fn decode_errors() {
    let good = Patch::new("Ab", vec![1, 2]).export_bytes();
    assert!(SerdePatch::from_bytes(&good).is_ok());
    assert_eq!(SerdePatch::from_bytes(&[]).err(), Some(PatchDecodeError::UnexpectedEnd));
    assert_eq!(SerdePatch::from_bytes(&good[..7]).err(), Some(PatchDecodeError::UnexpectedEnd));
    assert_eq!(SerdePatch::from_bytes(&good[..17]).err(), Some(PatchDecodeError::UnexpectedEnd));
    assert_eq!(
        SerdePatch::from_bytes(&good[..good.len() - 1]).err(),
        Some(PatchDecodeError::UnexpectedEnd)
    );
    let mut long = good.clone();
    long.push(0);
    assert_eq!(SerdePatch::from_bytes(&long).err(), Some(PatchDecodeError::TrailingData));
    let mut bad_name = good.clone();
    bad_name[9] = 200;
    assert_eq!(SerdePatch::from_bytes(&bad_name).err(), Some(PatchDecodeError::InvalidName));
    let mut huge = good.clone();
    huge[7] = 0xff;
    assert_eq!(SerdePatch::from_bytes(&huge).err(), Some(PatchDecodeError::UnexpectedEnd));
    let mut many = good.clone();
    many[17] = 0xff;
    assert_eq!(SerdePatch::from_bytes(&many).err(), Some(PatchDecodeError::UnexpectedEnd));

    assert_eq!(SerdePatchBank::from_bytes(&[0; 7]).err(), Some(PatchDecodeError::UnexpectedEnd));
    assert_eq!(SerdePatchBank::from_bytes(&[0; 8]).unwrap().patches.len(), 0);
    assert_eq!(SerdePatchBank::from_bytes(&[0; 9]).err(), Some(PatchDecodeError::TrailingData));
    let mut one = vec![1, 0, 0, 0, 0, 0, 0, 0];
    assert_eq!(SerdePatchBank::from_bytes(&one).err(), Some(PatchDecodeError::UnexpectedEnd));
    one.extend_from_slice(&bad_name);
    assert_eq!(SerdePatchBank::from_bytes(&one).err(), Some(PatchDecodeError::InvalidName));
}

#[test]
fn encode_errors() {
    let patch = SerdePatch { name: "é".to_string(), parameters: vec![] };
    assert!(!patch.name_is_ascii());
    assert_eq!(patch.to_bytes(), Err(PatchEncodeError::InvalidName));
    let plain = SerdePatch { name: "e".to_string(), parameters: vec![] };
    assert!(plain.name_is_ascii());
    assert!(plain.to_bytes().is_ok());
    let bank = SerdePatchBank { patches: vec![plain, patch] };
    assert_eq!(bank.to_bytes(), Err(PatchEncodeError::InvalidName));
}

#[test]
fn bytes_that_are_no_bank_change_nothing() {
    let mut bank = default_bank();
    bank.set_patch_index(3);
    bank.set_patch_name("kept".to_string());
    assert!(bank.have_patches_changed());
    let _ = bank.get_changed_parameters_from_audio();
    let _ = bank.get_changed_parameters_from_gui();
    assert_eq!(bank.import_bank_from_bytes(&[1, 2, 3]), Err(PatchDecodeError::UnexpectedEnd));
    bank.import_bytes_into_current_patch(&[1, 2, 3]);
    assert_eq!(bank.get_patch_index(), 3);
    assert_eq!(bank.get_current_patch_name(), "kept");
    assert!(!bank.have_patches_changed());
    assert_eq!(bank.get_changed_parameters_from_audio(), None);
    assert_eq!(bank.get_changed_parameters_from_gui(), None);
}

#[test]
fn short_bank_fills_the_rest_with_numbered_defaults() {
    let mut bank = PatchBank::new(vec![7, 8]);
    bank.set_patch_index(5);
    bank.set_parameter_from_host(0, 1);
    bank.set_patch_index(1);
    bank.set_parameter_from_host(1, 99);
    let serde_bank = SerdePatchBank {
        patches: vec![
            SerdePatch { name: "one".to_string(), parameters: vec![1, 2, 3] },
            SerdePatch { name: "two".to_string(), parameters: vec![4] },
        ],
    };
    bank.import_bank_from_serde(serde_bank);
    assert_eq!(bank.get_patch_index(), 0);
    assert!(bank.have_patches_changed());
    assert_eq!(bank.get_patch(0).get_name(), "one");
    assert_eq!(bank.get_patch(0).export_serde_preset().parameters, vec![1, 2]);
    assert_eq!(bank.get_patch(1).get_name(), "two");
    assert_eq!(bank.get_patch(1).export_serde_preset().parameters, vec![4, 8]);
    assert_eq!(bank.get_patch(2).get_name(), "003");
    assert_eq!(bank.get_patch(5).get_name(), "006");
    assert_eq!(bank.get_patch(5).export_serde_preset().parameters, vec![7, 8]);
    assert_eq!(bank.get_patch(127).get_name(), "128");
    assert!(bank.get_changed_parameters_from_audio().is_some());
    assert!(bank.get_changed_parameters_from_gui().is_some());
}

#[test]
fn patches_are_read_into_the_current_and_following() {
    let mut bank = PatchBank::new(vec![7, 8]);
    bank.set_patch_index(126);
    let _ = bank.have_patches_changed();
    let patches: Vec<SerdePatch> = ["a", "b", "c"]
        .iter()
        .map(|name| SerdePatch { name: name.to_string(), parameters: vec![1, 2] })
        .collect();
    bank.import_patches_from_serde(patches);
    assert_eq!(bank.get_patch_index(), 126);
    assert_eq!(bank.get_patch(125).get_name(), "-");
    assert_eq!(bank.get_patch(126).get_name(), "a");
    assert_eq!(bank.get_patch(127).get_name(), "b");
    assert_eq!(bank.get_patch(127).export_serde_preset().parameters, vec![1, 2]);
    assert!(bank.have_patches_changed());
}

#[test]
fn current_patch_bytes_round_trip() {
    let mut bank = default_bank();
    bank.set_patch_index(2);
    bank.set_patch_name("Keys".to_string());
    bank.set_parameter_from_host(10, 0.125f32.to_bits());
    let bytes = bank.export_current_patch_bytes();
    bank.set_patch_index(3);
    bank.import_bytes_into_current_patch(&bytes);
    assert_eq!(bank.get_current_patch_name(), "Keys");
    assert_eq!(bank.get_parameter_value(10), Some(0.125f32.to_bits()));
    assert_eq!(bank.export_current_patch_bytes(), bytes);
}

#[test]
fn bank_from_bytes_equals_the_bank_written() {
    let mut bank = default_bank();
    for index in 0..128 {
        bank.set_patch_index(index);
        bank.set_patch_name(format!("patch {}", index));
        bank.set_parameter_from_host(index % 121, index as u32);
    }
    let bytes = bank.export_bank_as_bytes();
    let read = PatchBank::new_from_bytes(defaults(), &bytes);
    assert_eq!(read.get_patch_index(), 0);
    assert_eq!(read.export_bank_as_bytes(), bytes);
    for index in 0..128 {
        assert_eq!(read.get_patch(index).get_name(), format!("patch {}", index));
        assert_eq!(read.get_patch(index).get_value(index % 121), Some(index as u32));
    }
    let serde_bank = SerdePatchBank::new(&bank);
    assert_eq!(serde_bank.patches.len(), 128);
    assert_eq!(serde_bank.to_bytes().unwrap(), bytes);
}

#[test]
fn clearing() {
    let mut bank = PatchBank::new(vec![7, 8]);
    bank.set_patch_index(4);
    bank.set_patch_name("x".to_string());
    bank.set_parameter_from_host(1, 0);
    bank.set_patch_index(9);
    bank.set_patch_name("y".to_string());
    bank.set_parameter_from_host(0, 0);
    let _ = bank.have_patches_changed();
    bank.clear_current_patch();
    assert!(bank.have_patches_changed());
    assert_eq!(bank.get_patch_index(), 9);
    assert_eq!(bank.get_current_patch_name(), "-");
    assert_eq!(bank.get_parameter_value(0), Some(7));
    assert_eq!(bank.get_patch(4).get_name(), "x");
    bank.clear_bank();
    assert_eq!(bank.get_patch_index(), 0);
    assert_eq!(bank.get_patch(4).get_name(), "-");
    assert_eq!(bank.get_patch(4).get_value(1), Some(8));
    assert!(bank.have_patches_changed());
}
