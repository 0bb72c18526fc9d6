//! The parameters of the synthesizer and the order in which the host
//! counts them.

use vstd::prelude::*;

verus! {

/// A parameter of the synthesizer.
#[derive(Debug, Copy, Clone, PartialEq, Eq, Hash, Structural)]
pub enum Parameter {
    /// No parameter: only a low-frequency oscillator without a target
    /// points here.
    Unset,
    Master(MasterParameter),
    Operator(u8, OperatorParameter),
    Lfo(u8, LfoParameter),
}

/// A parameter of the synthesizer as a whole.
#[derive(Debug, Copy, Clone, PartialEq, Eq, Hash, Structural)]
pub enum MasterParameter {
    Volume,
    Frequency,
    PitchBendRangeUp,
    PitchBendRangeDown,
    VelocitySensitivityVolume,
    VoiceMode,
    GlideActive,
    GlideTime,
    GlideBpmSync,
    GlideMode,
    GlideRetrigger,
}

/// A parameter of one operator.
#[derive(Debug, Copy, Clone, PartialEq, Eq, Hash, Structural)]
pub enum OperatorParameter {
    Volume,
    Active,
    MixOut,
    Panning,
    WaveType,
    ModTargets,
    ModOut,
    Feedback,
    FrequencyRatio,
    FrequencyFree,
    FrequencyFine,
    AttackDuration,
    DecayDuration,
    SustainVolume,
    ReleaseDuration,
    EnvelopeLockGroup,
    VelocitySensitivityModOut,
    VelocitySensitivityFeedback,
    AftertouchSensitivityVolume,
}

/// A parameter of one low-frequency oscillator.
#[derive(Debug, Copy, Clone, PartialEq, Eq, Hash, Structural)]
pub enum LfoParameter {
    Target,
    BpmSync,
    FrequencyRatio,
    FrequencyFree,
    Mode,
    Shape,
    Amount,
    Active,
    KeySync,
}

/// Number of parameters that the host can address.
pub const NUM_PARAMETERS: usize = 121;

/// Position of a master parameter in the order of its enumeration.
pub open spec fn master_position(parameter: MasterParameter) -> int {
    match parameter {
        MasterParameter::Volume => 0,
        MasterParameter::Frequency => 1,
        MasterParameter::PitchBendRangeUp => 2,
        MasterParameter::PitchBendRangeDown => 3,
        MasterParameter::VelocitySensitivityVolume => 4,
        MasterParameter::VoiceMode => 5,
        MasterParameter::GlideActive => 6,
        MasterParameter::GlideTime => 7,
        MasterParameter::GlideBpmSync => 8,
        MasterParameter::GlideMode => 9,
        MasterParameter::GlideRetrigger => 10,
    }
}

/// Position of an operator parameter in the order of its enumeration.
pub open spec fn operator_position(parameter: OperatorParameter) -> int {
    match parameter {
        OperatorParameter::Volume => 0,
        OperatorParameter::Active => 1,
        OperatorParameter::MixOut => 2,
        OperatorParameter::Panning => 3,
        OperatorParameter::WaveType => 4,
        OperatorParameter::ModTargets => 5,
        OperatorParameter::ModOut => 6,
        OperatorParameter::Feedback => 7,
        OperatorParameter::FrequencyRatio => 8,
        OperatorParameter::FrequencyFree => 9,
        OperatorParameter::FrequencyFine => 10,
        OperatorParameter::AttackDuration => 11,
        OperatorParameter::DecayDuration => 12,
        OperatorParameter::SustainVolume => 13,
        OperatorParameter::ReleaseDuration => 14,
        OperatorParameter::EnvelopeLockGroup => 15,
        OperatorParameter::VelocitySensitivityModOut => 16,
        OperatorParameter::VelocitySensitivityFeedback => 17,
        OperatorParameter::AftertouchSensitivityVolume => 18,
    }
}

/// Position of an oscillator parameter in the order of its enumeration.
pub open spec fn lfo_position(parameter: LfoParameter) -> int {
    match parameter {
        LfoParameter::Target => 0,
        LfoParameter::BpmSync => 1,
        LfoParameter::FrequencyRatio => 2,
        LfoParameter::FrequencyFree => 3,
        LfoParameter::Mode => 4,
        LfoParameter::Shape => 5,
        LfoParameter::Amount => 6,
        LfoParameter::Active => 7,
        LfoParameter::KeySync => 8,
    }
}

/// The master parameter at a position of its enumeration.
pub open spec fn master_parameter_at(i: int) -> MasterParameter {
    if i == 0 {
        MasterParameter::Volume
    } else if i == 1 {
        MasterParameter::Frequency
    } else if i == 2 {
        MasterParameter::PitchBendRangeUp
    } else if i == 3 {
        MasterParameter::PitchBendRangeDown
    } else if i == 4 {
        MasterParameter::VelocitySensitivityVolume
    } else if i == 5 {
        MasterParameter::VoiceMode
    } else if i == 6 {
        MasterParameter::GlideActive
    } else if i == 7 {
        MasterParameter::GlideTime
    } else if i == 8 {
        MasterParameter::GlideBpmSync
    } else if i == 9 {
        MasterParameter::GlideMode
    } else {
        MasterParameter::GlideRetrigger
    }
}

/// The operator parameter at a position of its enumeration.
pub open spec fn operator_parameter_at(i: int) -> OperatorParameter {
    if i == 0 {
        OperatorParameter::Volume
    } else if i == 1 {
        OperatorParameter::Active
    } else if i == 2 {
        OperatorParameter::MixOut
    } else if i == 3 {
        OperatorParameter::Panning
    } else if i == 4 {
        OperatorParameter::WaveType
    } else if i == 5 {
        OperatorParameter::ModTargets
    } else if i == 6 {
        OperatorParameter::ModOut
    } else if i == 7 {
        OperatorParameter::Feedback
    } else if i == 8 {
        OperatorParameter::FrequencyRatio
    } else if i == 9 {
        OperatorParameter::FrequencyFree
    } else if i == 10 {
        OperatorParameter::FrequencyFine
    } else if i == 11 {
        OperatorParameter::AttackDuration
    } else if i == 12 {
        OperatorParameter::DecayDuration
    } else if i == 13 {
        OperatorParameter::SustainVolume
    } else if i == 14 {
        OperatorParameter::ReleaseDuration
    } else if i == 15 {
        OperatorParameter::EnvelopeLockGroup
    } else if i == 16 {
        OperatorParameter::VelocitySensitivityModOut
    } else if i == 17 {
        OperatorParameter::VelocitySensitivityFeedback
    } else {
        OperatorParameter::AftertouchSensitivityVolume
    }
}

/// The oscillator parameter at a position of its enumeration.
pub open spec fn lfo_parameter_at(i: int) -> LfoParameter {
    if i == 0 {
        LfoParameter::Target
    } else if i == 1 {
        LfoParameter::BpmSync
    } else if i == 2 {
        LfoParameter::FrequencyRatio
    } else if i == 3 {
        LfoParameter::FrequencyFree
    } else if i == 4 {
        LfoParameter::Mode
    } else if i == 5 {
        LfoParameter::Shape
    } else if i == 6 {
        LfoParameter::Amount
    } else if i == 7 {
        LfoParameter::Active
    } else {
        LfoParameter::KeySync
    }
}

fn master_parameter(i: usize) -> (parameter: MasterParameter)
    requires
        i < 11,
    ensures
        parameter == master_parameter_at(i as int),
{
    if i == 0 {
        MasterParameter::Volume
    } else if i == 1 {
        MasterParameter::Frequency
    } else if i == 2 {
        MasterParameter::PitchBendRangeUp
    } else if i == 3 {
        MasterParameter::PitchBendRangeDown
    } else if i == 4 {
        MasterParameter::VelocitySensitivityVolume
    } else if i == 5 {
        MasterParameter::VoiceMode
    } else if i == 6 {
        MasterParameter::GlideActive
    } else if i == 7 {
        MasterParameter::GlideTime
    } else if i == 8 {
        MasterParameter::GlideBpmSync
    } else if i == 9 {
        MasterParameter::GlideMode
    } else {
        MasterParameter::GlideRetrigger
    }
}

fn operator_parameter(i: usize) -> (parameter: OperatorParameter)
    requires
        i < 19,
    ensures
        parameter == operator_parameter_at(i as int),
{
    if i == 0 {
        OperatorParameter::Volume
    } else if i == 1 {
        OperatorParameter::Active
    } else if i == 2 {
        OperatorParameter::MixOut
    } else if i == 3 {
        OperatorParameter::Panning
    } else if i == 4 {
        OperatorParameter::WaveType
    } else if i == 5 {
        OperatorParameter::ModTargets
    } else if i == 6 {
        OperatorParameter::ModOut
    } else if i == 7 {
        OperatorParameter::Feedback
    } else if i == 8 {
        OperatorParameter::FrequencyRatio
    } else if i == 9 {
        OperatorParameter::FrequencyFree
    } else if i == 10 {
        OperatorParameter::FrequencyFine
    } else if i == 11 {
        OperatorParameter::AttackDuration
    } else if i == 12 {
        OperatorParameter::DecayDuration
    } else if i == 13 {
        OperatorParameter::SustainVolume
    } else if i == 14 {
        OperatorParameter::ReleaseDuration
    } else if i == 15 {
        OperatorParameter::EnvelopeLockGroup
    } else if i == 16 {
        OperatorParameter::VelocitySensitivityModOut
    } else if i == 17 {
        OperatorParameter::VelocitySensitivityFeedback
    } else {
        OperatorParameter::AftertouchSensitivityVolume
    }
}

fn lfo_parameter(i: usize) -> (parameter: LfoParameter)
    requires
        i < 9,
    ensures
        parameter == lfo_parameter_at(i as int),
{
    if i == 0 {
        LfoParameter::Target
    } else if i == 1 {
        LfoParameter::BpmSync
    } else if i == 2 {
        LfoParameter::FrequencyRatio
    } else if i == 3 {
        LfoParameter::FrequencyFree
    } else if i == 4 {
        LfoParameter::Mode
    } else if i == 5 {
        LfoParameter::Shape
    } else if i == 6 {
        LfoParameter::Amount
    } else if i == 7 {
        LfoParameter::Active
    } else {
        LfoParameter::KeySync
    }
}

fn master_position_of(parameter: MasterParameter) -> (position: usize)
    ensures
        position == master_position(parameter),
{
    match parameter {
        MasterParameter::Volume => 0,
        MasterParameter::Frequency => 1,
        MasterParameter::PitchBendRangeUp => 2,
        MasterParameter::PitchBendRangeDown => 3,
        MasterParameter::VelocitySensitivityVolume => 4,
        MasterParameter::VoiceMode => 5,
        MasterParameter::GlideActive => 6,
        MasterParameter::GlideTime => 7,
        MasterParameter::GlideBpmSync => 8,
        MasterParameter::GlideMode => 9,
        MasterParameter::GlideRetrigger => 10,
    }
}

fn operator_position_of(parameter: OperatorParameter) -> (position: usize)
    ensures
        position == operator_position(parameter),
{
    match parameter {
        OperatorParameter::Volume => 0,
        OperatorParameter::Active => 1,
        OperatorParameter::MixOut => 2,
        OperatorParameter::Panning => 3,
        OperatorParameter::WaveType => 4,
        OperatorParameter::ModTargets => 5,
        OperatorParameter::ModOut => 6,
        OperatorParameter::Feedback => 7,
        OperatorParameter::FrequencyRatio => 8,
        OperatorParameter::FrequencyFree => 9,
        OperatorParameter::FrequencyFine => 10,
        OperatorParameter::AttackDuration => 11,
        OperatorParameter::DecayDuration => 12,
        OperatorParameter::SustainVolume => 13,
        OperatorParameter::ReleaseDuration => 14,
        OperatorParameter::EnvelopeLockGroup => 15,
        OperatorParameter::VelocitySensitivityModOut => 16,
        OperatorParameter::VelocitySensitivityFeedback => 17,
        OperatorParameter::AftertouchSensitivityVolume => 18,
    }
}

fn lfo_position_of(parameter: LfoParameter) -> (position: usize)
    ensures
        position == lfo_position(parameter),
{
    match parameter {
        LfoParameter::Target => 0,
        LfoParameter::BpmSync => 1,
        LfoParameter::FrequencyRatio => 2,
        LfoParameter::FrequencyFree => 3,
        LfoParameter::Mode => 4,
        LfoParameter::Shape => 5,
        LfoParameter::Amount => 6,
        LfoParameter::Active => 7,
        LfoParameter::KeySync => 8,
    }
}

/// The parameter that the host addresses by the index `i`: master volume
/// and frequency; the sound of each operator, where the first operator has
/// no modulation targets and no modulation output; the eight settings of
/// each oscillator; the key sync of each oscillator; pitch bend ranges and
/// velocity sensitivity of the whole; the three sensitivities of each
/// operator; voice mode and glide.
pub open spec fn parameter_at(i: int) -> Parameter {
    if i < 2 {
        Parameter::Master(master_parameter_at(i))
    } else if i < 7 {
        Parameter::Operator(0, operator_parameter_at(i - 2))
    } else if i < 16 {
        Parameter::Operator(0, operator_parameter_at(i))
    } else if i < 64 {
        Parameter::Operator((1 + (i - 16) / 16) as u8, operator_parameter_at((i - 16) % 16))
    } else if i < 96 {
        Parameter::Lfo(((i - 64) / 8) as u8, lfo_parameter_at((i - 64) % 8))
    } else if i < 100 {
        Parameter::Lfo((i - 96) as u8, LfoParameter::KeySync)
    } else if i < 103 {
        Parameter::Master(master_parameter_at(i - 98))
    } else if i < 115 {
        Parameter::Operator(((i - 103) / 3) as u8, operator_parameter_at(16 + (i - 103) % 3))
    } else {
        Parameter::Master(master_parameter_at(i - 110))
    }
}

/// Whether the host can address the parameter.
pub open spec fn listed(parameter: Parameter) -> bool {
    match parameter {
        Parameter::Unset => false,
        Parameter::Master(_) => true,
        Parameter::Operator(index, parameter) => index < 4 && !(index == 0 && (parameter
            == OperatorParameter::ModTargets || parameter == OperatorParameter::ModOut)),
        Parameter::Lfo(index, _) => index < 4,
    }
}

/// The index by which the host addresses a listed parameter.
pub open spec fn parameter_position(parameter: Parameter) -> int {
    match parameter {
        Parameter::Unset => 0,
        Parameter::Master(parameter) => {
            let within = master_position(parameter);
            if within < 2 {
                within
            } else if within < 5 {
                98 + within
            } else {
                110 + within
            }
        },
        Parameter::Operator(index, parameter) => {
            let within = operator_position(parameter);
            if within >= 16 {
                103 + 3 * index + (within - 16)
            } else if index == 0 {
                if within < 5 {
                    2 + within
                } else {
                    within
                }
            } else {
                16 + 16 * (index - 1) + within
            }
        },
        Parameter::Lfo(index, parameter) => {
            let within = lfo_position(parameter);
            if within == 8 {
                96 + index
            } else {
                64 + 8 * index + within
            }
        },
    }
}

/// Every index below the number of parameters addresses a listed
/// parameter, and no two indices address the same one.
pub proof fn lemma_parameter_at_listed(i: int)
    requires
        0 <= i < NUM_PARAMETERS,
    ensures
        listed(parameter_at(i)),
        parameter_position(parameter_at(i)) == i,
{
}

/// Every listed parameter has an index below the number of parameters, at
/// which it is found.
pub proof fn lemma_listed_has_index(parameter: Parameter)
    requires
        listed(parameter),
    ensures
        0 <= parameter_position(parameter) < NUM_PARAMETERS,
        parameter_at(parameter_position(parameter)) == parameter,
{
}

/// The parameter that the host addresses by an index, if there is one.
pub fn parameter_from_index(index: usize) -> (parameter: Option<Parameter>)
    ensures
        index < NUM_PARAMETERS ==> parameter == Some(parameter_at(index as int)),
        index >= NUM_PARAMETERS ==> parameter.is_none(),
{
    if index < 2 {
        Some(Parameter::Master(master_parameter(index)))
    } else if index < 7 {
        Some(Parameter::Operator(0, operator_parameter(index - 2)))
    } else if index < 16 {
        Some(Parameter::Operator(0, operator_parameter(index)))
    } else if index < 64 {
        Some(Parameter::Operator((1 + (index - 16) / 16) as u8, operator_parameter((index - 16) % 16)))
    } else if index < 96 {
        Some(Parameter::Lfo(((index - 64) / 8) as u8, lfo_parameter((index - 64) % 8)))
    } else if index < 100 {
        Some(Parameter::Lfo((index - 96) as u8, LfoParameter::KeySync))
    } else if index < 103 {
        Some(Parameter::Master(master_parameter(index - 98)))
    } else if index < 115 {
        Some(
            Parameter::Operator(
                ((index - 103) / 3) as u8,
                operator_parameter(16 + (index - 103) % 3),
            ),
        )
    } else if index < 121 {
        Some(Parameter::Master(master_parameter(index - 110)))
    } else {
        None
    }
}

/// The index by which the host addresses a parameter, if it is listed.
pub fn parameter_to_index(parameter: Parameter) -> (index: Option<usize>)
    ensures
        listed(parameter) ==> index == Some(parameter_position(parameter) as usize),
        !listed(parameter) ==> index.is_none(),
{
    match parameter {
        Parameter::Unset => None,
        Parameter::Master(parameter) => {
            let within = master_position_of(parameter);
            if within < 2 {
                Some(within)
            } else if within < 5 {
                Some(98 + within)
            } else {
                Some(110 + within)
            }
        },
        Parameter::Operator(index, parameter) => {
            let within = operator_position_of(parameter);
            if index >= 4 {
                None
            } else if within >= 16 {
                Some(103 + 3 * (index as usize) + (within - 16))
            } else if index == 0 {
                if within == 5 || within == 6 {
                    None
                } else if within < 5 {
                    Some(2 + within)
                } else {
                    Some(within)
                }
            } else {
                Some(16 + 16 * ((index as usize) - 1) + within)
            }
        },
        Parameter::Lfo(index, parameter) => {
            let within = lfo_position_of(parameter);
            if index >= 4 {
                None
            } else if within == 8 {
                Some(96 + (index as usize))
            } else {
                Some(64 + 8 * (index as usize) + within)
            }
        },
    }
}

/// All parameters in the order in which the host counts them.
pub fn parameters() -> (list: Vec<Parameter>)
    ensures
        list@.len() == NUM_PARAMETERS,
        forall|i: int| 0 <= i < NUM_PARAMETERS ==> #[trigger] list@[i] == parameter_at(i),
{
    let mut list: Vec<Parameter> = Vec::new();
    let mut index: usize = 0;
    while index < NUM_PARAMETERS
        invariant
            index <= NUM_PARAMETERS,
            list@.len() == index,
            forall|i: int| 0 <= i < index ==> list@[i] == parameter_at(i),
        decreases NUM_PARAMETERS - index,
    {
        match parameter_from_index(index) {
            Some(parameter) => list.push(parameter),
            None => {},
        }
        index += 1;
    }
    list
}

} // verus!
