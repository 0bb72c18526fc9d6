use octasine::parameters::{
    parameter_from_index, parameter_to_index, parameters, LfoParameter, MasterParameter,
    OperatorParameter, Parameter, NUM_PARAMETERS,
};

#[test]
fn parameter_order() {
    let list = parameters();
    assert_eq!(list.len(), 121);
    assert_eq!(NUM_PARAMETERS, 121);
    assert_eq!(list[0], Parameter::Master(MasterParameter::Volume));
    assert_eq!(list[1], Parameter::Master(MasterParameter::Frequency));
    assert_eq!(list[2], Parameter::Operator(0, OperatorParameter::Volume));
    assert_eq!(list[6], Parameter::Operator(0, OperatorParameter::WaveType));
    assert_eq!(list[7], Parameter::Operator(0, OperatorParameter::Feedback));
    assert_eq!(list[15], Parameter::Operator(0, OperatorParameter::EnvelopeLockGroup));
    assert_eq!(list[16], Parameter::Operator(1, OperatorParameter::Volume));
    assert_eq!(list[21], Parameter::Operator(1, OperatorParameter::ModTargets));
    assert_eq!(list[22], Parameter::Operator(1, OperatorParameter::ModOut));
    assert_eq!(list[31], Parameter::Operator(1, OperatorParameter::EnvelopeLockGroup));
    assert_eq!(list[32], Parameter::Operator(2, OperatorParameter::Volume));
    assert_eq!(list[63], Parameter::Operator(3, OperatorParameter::EnvelopeLockGroup));
    assert_eq!(list[64], Parameter::Lfo(0, LfoParameter::Target));
    assert_eq!(list[71], Parameter::Lfo(0, LfoParameter::Active));
    assert_eq!(list[95], Parameter::Lfo(3, LfoParameter::Active));
    assert_eq!(list[96], Parameter::Lfo(0, LfoParameter::KeySync));
    assert_eq!(list[99], Parameter::Lfo(3, LfoParameter::KeySync));
    assert_eq!(list[100], Parameter::Master(MasterParameter::PitchBendRangeUp));
    assert_eq!(list[102], Parameter::Master(MasterParameter::VelocitySensitivityVolume));
    assert_eq!(list[103], Parameter::Operator(0, OperatorParameter::VelocitySensitivityModOut));
    assert_eq!(list[105], Parameter::Operator(0, OperatorParameter::AftertouchSensitivityVolume));
    assert_eq!(list[114], Parameter::Operator(3, OperatorParameter::AftertouchSensitivityVolume));
    assert_eq!(list[115], Parameter::Master(MasterParameter::VoiceMode));
    assert_eq!(list[120], Parameter::Master(MasterParameter::GlideRetrigger));
}

#[test]
fn index_and_parameter_agree() {
    let list = parameters();
    for (index, parameter) in list.iter().enumerate() {
        assert_eq!(parameter_from_index(index), Some(*parameter));
        assert_eq!(parameter_to_index(*parameter), Some(index));
    }
    assert_eq!(parameter_from_index(121), None);
    assert_eq!(parameter_from_index(usize::MAX), None);
}

#[test]
fn unlisted_parameters_have_no_index() {
    assert_eq!(parameter_to_index(Parameter::Unset), None);
    assert_eq!(parameter_to_index(Parameter::Operator(0, OperatorParameter::ModOut)), None);
    assert_eq!(parameter_to_index(Parameter::Operator(0, OperatorParameter::ModTargets)), None);
    assert_eq!(parameter_to_index(Parameter::Operator(4, OperatorParameter::Volume)), None);
    assert_eq!(parameter_to_index(Parameter::Lfo(4, LfoParameter::Shape)), None);
    assert_eq!(parameter_to_index(Parameter::Lfo(255, LfoParameter::KeySync)), None);
}
