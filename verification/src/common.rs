//! Shared enumerations and the modulation target storage.

use vstd::prelude::*;
use vstd::string::StringExecFns;
use crate::text::{decimal, push_decimal};

verus! {

/// Stage of a volume envelope.
#[derive(Debug, Copy, Clone, PartialEq, Eq, Structural)]
pub enum EnvelopeStage {
    Attack,
    Decay,
    Sustain,
    Release,
    Ended,
    Restart,
}

/// Wave form an operator produces.
#[derive(Debug, Copy, Clone, PartialEq, Eq, Structural)]
pub enum WaveType {
    Sine,
    WhiteNoise,
}

impl WaveType {
    /// The wave forms in the order in which a parameter steps through them.
    pub fn steps() -> (steps: Vec<Self>)
        ensures
            steps@ == seq![WaveType::Sine, WaveType::WhiteNoise],
    {
        let steps = vec![WaveType::Sine, WaveType::WhiteNoise];
        assert(steps@ =~= seq![WaveType::Sine, WaveType::WhiteNoise]);
        steps
    }
}

impl Default for WaveType {
    fn default() -> (wave_type: Self)
        ensures
            wave_type == WaveType::Sine,
    {
        WaveType::Sine
    }
}

/// Shape of a low-frequency oscillator.
#[derive(Debug, Copy, Clone, PartialEq, Eq, Structural)]
pub enum LfoShape {
    Saw,
    ReverseSaw,
    Triangle,
    ReverseTriangle,
    Square,
    ReverseSquare,
    Sine,
    ReverseSine,
}

/// Whether a low-frequency oscillator stops after one cycle.
#[derive(Debug, Copy, Clone, PartialEq, Eq, Structural)]
pub enum LfoMode {
    Once,
    Forever,
}

/// A set of modulation targets: flag `i` tells whether operator `i` is
/// modulated.
pub trait ModTarget: Copy {
    /// The flags, one per possible target.
    spec fn flags(&self) -> Seq<bool>;

    fn set_index(&mut self, index: usize, value: bool)
        requires
            index < old(self).flags().len(),
        ensures
            final(self).flags() == old(self).flags().update(index as int, value),
    ;

    fn index_active(&self, index: usize) -> (active: bool)
        requires
            index < self.flags().len(),
        ensures
            active == self.flags()[index as int],
    ;

    fn as_string(&self) -> (text: String)
        requires
            self.flags().len() < usize::MAX,
        ensures
            text@ == target_list_text(self.flags(), self.flags().len() as int),
    ;
}

/// The indices below `n` whose flag is set, in rising order.
pub open spec fn active_below(flags: Seq<bool>, n: int) -> Seq<usize>
    decreases n,
{
    if n <= 0 {
        Seq::empty()
    } else if flags[n - 1] {
        active_below(flags, n - 1).push((n - 1) as usize)
    } else {
        active_below(flags, n - 1)
    }
}

/// The operator numbers (index plus one) of the flags set below `n`,
/// separated by a comma and a space.
pub open spec fn target_list_text(flags: Seq<bool>, n: int) -> Seq<char>
    decreases n,
{
    if n <= 0 {
        Seq::empty()
    } else if !flags[n - 1] {
        target_list_text(flags, n - 1)
    } else if target_list_text(flags, n - 1).len() == 0 {
        decimal(n as nat)
    } else {
        target_list_text(flags, n - 1) + seq![',', ' '] + decimal(n as nat)
    }
}

/// Modulation targets of an operator that has `N` operators below it.
#[derive(Debug, Clone, Copy, PartialEq, Eq)]
pub struct ModTargetStorage<const N: usize>([bool; N]);

impl<const N: usize> View for ModTargetStorage<N> {
    type V = Seq<bool>;

    closed spec fn view(&self) -> Seq<bool> {
        self.0@
    }
}

impl<const N: usize> ModTargetStorage<N> {
    /// Storage holding exactly the given flags.
    pub fn new(flags: [bool; N]) -> (storage: Self)
        ensures
            storage@ == flags@,
    {
        ModTargetStorage(flags)
    }

    /// The indices of the targets that are set, in rising order.
    pub fn active_indices(&self) -> (indices: Vec<usize>)
        ensures
            indices@ == active_below(self@, N as int),
    {
        let mut indices: Vec<usize> = Vec::new();
        let mut index: usize = 0;
        while index < N
            invariant
                index <= N,
                self@.len() == N,
                indices@ == active_below(self@, index as int),
            decreases N - index,
        {
            if self.0[index] {
                indices.push(index);
            }
            index += 1;
        }
        indices
    }
}

impl<const N: usize> ModTarget for ModTargetStorage<N> {
    open spec fn flags(&self) -> Seq<bool> {
        self@
    }

    fn set_index(&mut self, index: usize, value: bool) {
        self.0[index] = value;
    }

    fn index_active(&self, index: usize) -> (active: bool) {
        self.0[index]
    }

    fn as_string(&self) -> (text: String) {
        let mut output = String::new();
        let mut index: usize = 0;
        while index < N
            invariant
                index <= N,
                N < usize::MAX,
                self@.len() == N,
                output@ == target_list_text(self@, index as int),
            decreases N - index,
        {
            if self.0[index] {
                let operator_number: usize = index + 1;
                if output.as_str().is_empty() {
                    push_decimal(&mut output, operator_number);
                    assert(output@ =~= decimal(operator_number as nat));
                } else {
                    output.append(", ");
                    proof {
                        reveal_strlit(", ");
                        assert(", "@ =~= seq![',', ' ']);
                    }
                    push_decimal(&mut output, operator_number);
                }
            }
            index += 1;
        }
        output
    }
}

impl<const N: usize> ModTargetStorage<N> {
    /// A storage always holds exactly `N` flags.
    pub proof fn lemma_len(self)
        ensures
            self@.len() == N,
    {
    }
}

/// An index is among the active indices below `n` exactly when it lies
/// below `n` and its flag is set, and the indices rise strictly.
pub proof fn lemma_active_below(flags: Seq<bool>, n: int)
    requires
        0 <= n <= flags.len(),
        n <= usize::MAX,
    ensures
        forall|i: int|
            0 <= i < n && flags[i] <==> #[trigger] active_below(flags, n).contains(i as usize) && 0
                <= i <= usize::MAX,
        forall|j: int, k: int|
            0 <= j < k < active_below(flags, n).len() ==> active_below(flags, n)[j]
                < active_below(flags, n)[k],
        forall|j: int|
            0 <= j < active_below(flags, n).len() ==> (#[trigger] active_below(flags, n)[j]) < n,
    decreases n,
{
    if n > 0 {
        lemma_active_below(flags, n - 1);
        let before = active_below(flags, n - 1);
        let now = active_below(flags, n);
        if flags[n - 1] {
            assert(now == before.push((n - 1) as usize));
            assert(now[before.len() as int] == (n - 1) as usize);
            assert forall|i: int| 0 <= i < n && flags[i] implies #[trigger] now.contains(
                i as usize,
            ) && 0 <= i <= usize::MAX by {
                if i < n - 1 {
                    assert(before.contains(i as usize));
                    let j = choose|j: int| 0 <= j < before.len() && before[j] == i as usize;
                    assert(now[j] == i as usize);
                }
            }
            assert forall|i: int| #[trigger]
                now.contains(i as usize) && 0 <= i <= usize::MAX implies 0 <= i < n
                && flags[i] by {
                let j = choose|j: int| 0 <= j < now.len() && now[j] == i as usize;
                if j < before.len() {
                    assert(before[j] == i as usize);
                    assert(before.contains(i as usize));
                }
            }
        } else {
            assert(now == before);
        }
    }
}

/// Whether one of the storages holds exactly the given flags.
pub open spec fn holds_flags<const N: usize>(
    all: Seq<ModTargetStorage<N>>,
    flags: Seq<bool>,
) -> bool {
    exists|i: int| 0 <= i < all.len() && (#[trigger] all[i])@ == flags
}

impl ModTargetStorage<1> {
    /// Every setting of one flag.
    pub fn permutations() -> (all: Vec<Self>)
        ensures
            all@.len() == 2,
            all@[0]@ == seq![true],
            all@[1]@ == seq![false],
    {
        vec![ModTargetStorage([true]), ModTargetStorage([false])]
    }
}

impl ModTargetStorage<2> {
    /// Every setting of two flags.
    pub fn permutations() -> (all: Vec<Self>)
        ensures
            all@.len() == 4,
            all@[0]@ == seq![false, false],
            all@[1]@ == seq![true, false],
            all@[2]@ == seq![false, true],
            all@[3]@ == seq![true, true],
    {
        vec![
            ModTargetStorage([false, false]),
            ModTargetStorage([true, false]),
            ModTargetStorage([false, true]),
            ModTargetStorage([true, true]),
        ]
    }
}

impl ModTargetStorage<3> {
    /// Every setting of three flags, each exactly once.
    pub fn permutations() -> (all: Vec<Self>)
        ensures
            all@.len() == 8,
            all@[0]@ == seq![true, false, false],
            all@[1]@ == seq![true, true, false],
            all@[2]@ == seq![true, false, true],
            all@[3]@ == seq![true, true, true],
            all@[4]@ == seq![false, true, false],
            all@[5]@ == seq![false, false, true],
            all@[6]@ == seq![false, true, true],
            all@[7]@ == seq![false, false, false],
            forall|flags: Seq<bool>| flags.len() == 3 ==> #[trigger] holds_flags(all@, flags),
    {
        let all = vec![
            ModTargetStorage([true, false, false]),
            ModTargetStorage([true, true, false]),
            ModTargetStorage([true, false, true]),
            ModTargetStorage([true, true, true]),
            ModTargetStorage([false, true, false]),
            ModTargetStorage([false, false, true]),
            ModTargetStorage([false, true, true]),
            ModTargetStorage([false, false, false]),
        ];
        proof {
            assert(all@[0]@ =~= seq![true, false, false]);
            assert(all@[1]@ =~= seq![true, true, false]);
            assert(all@[2]@ =~= seq![true, false, true]);
            assert(all@[3]@ =~= seq![true, true, true]);
            assert(all@[4]@ =~= seq![false, true, false]);
            assert(all@[5]@ =~= seq![false, false, true]);
            assert(all@[6]@ =~= seq![false, true, true]);
            assert(all@[7]@ =~= seq![false, false, false]);
            assert forall|flags: Seq<bool>| flags.len() == 3 implies #[trigger] holds_flags(
                all@,
                flags,
            ) by {
                let i: int = if flags[0] {
                    if flags[1] {
                        if flags[2] { 3 } else { 1 }
                    } else {
                        if flags[2] { 2 } else { 0 }
                    }
                } else {
                    if flags[1] {
                        if flags[2] { 6 } else { 4 }
                    } else {
                        if flags[2] { 5 } else { 7 }
                    }
                };
                assert(all@[i]@ =~= flags);
            }
        }
        all
    }
}

impl Default for ModTargetStorage<1> {
    fn default() -> (storage: Self)
        ensures
            storage@ == seq![true],
    {
        let storage = ModTargetStorage([true]);
        assert(storage@ =~= seq![true]);
        storage
    }
}

impl Default for ModTargetStorage<2> {
    fn default() -> (storage: Self)
        ensures
            storage@ == seq![false, true],
    {
        let storage = ModTargetStorage([false, true]);
        assert(storage@ =~= seq![false, true]);
        storage
    }
}

impl Default for ModTargetStorage<3> {
    fn default() -> (storage: Self)
        ensures
            storage@ == seq![false, false, true],
    {
        let storage = ModTargetStorage([false, false, true]);
        assert(storage@ =~= seq![false, false, true]);
        storage
    }
}

/// Master parameter that a low-frequency oscillator can modulate.
#[derive(Debug, Copy, Clone, PartialEq, Eq, Hash, Structural)]
pub enum LfoTargetMasterParameter {
    Volume,
    Frequency,
}

/// Operator parameter that a low-frequency oscillator can modulate.
#[derive(Debug, Copy, Clone, PartialEq, Eq, Hash, Structural)]
pub enum LfoTargetOperatorParameter {
    Volume,
    Panning,
    MixOut,
    ModOut,
    Feedback,
    FrequencyRatio,
    FrequencyFree,
    FrequencyFine,
}

/// Parameter of another low-frequency oscillator that one can modulate.
#[derive(Debug, Copy, Clone, PartialEq, Eq, Hash, Structural)]
pub enum LfoTargetLfoParameter {
    Shape,
    FrequencyRatio,
    FrequencyFree,
    Amount,
}

/// Destination of a low-frequency oscillator.
#[derive(Debug, Copy, Clone, PartialEq, Eq, Hash, Structural)]
pub enum LfoTargetParameter {
    Master(LfoTargetMasterParameter),
    Operator(usize, LfoTargetOperatorParameter),
    Lfo(usize, LfoTargetLfoParameter),
}

/// Number of destinations in all.
pub const LFO_TARGETS: usize = 45;

/// The operator parameter at position `i` in the order of the enumeration.
pub open spec fn operator_target_at(i: int) -> LfoTargetOperatorParameter {
    if i == 0 {
        LfoTargetOperatorParameter::Volume
    } else if i == 1 {
        LfoTargetOperatorParameter::Panning
    } else if i == 2 {
        LfoTargetOperatorParameter::MixOut
    } else if i == 3 {
        LfoTargetOperatorParameter::ModOut
    } else if i == 4 {
        LfoTargetOperatorParameter::Feedback
    } else if i == 5 {
        LfoTargetOperatorParameter::FrequencyRatio
    } else if i == 6 {
        LfoTargetOperatorParameter::FrequencyFree
    } else {
        LfoTargetOperatorParameter::FrequencyFine
    }
}

/// The oscillator parameter at position `i` in the order of the enumeration.
pub open spec fn lfo_target_lfo_at(i: int) -> LfoTargetLfoParameter {
    if i == 0 {
        LfoTargetLfoParameter::Shape
    } else if i == 1 {
        LfoTargetLfoParameter::FrequencyRatio
    } else if i == 2 {
        LfoTargetLfoParameter::FrequencyFree
    } else {
        LfoTargetLfoParameter::Amount
    }
}

/// The destination at position `i` of the list of all destinations: the two
/// master parameters, then the parameters of each operator (the first
/// operator modulates nothing and so has no modulation output), then four
/// parameters of each of the first three oscillators.
pub open spec fn lfo_target_at(i: int) -> LfoTargetParameter {
    if i == 0 {
        LfoTargetParameter::Master(LfoTargetMasterParameter::Volume)
    } else if i == 1 {
        LfoTargetParameter::Master(LfoTargetMasterParameter::Frequency)
    } else if i < 5 {
        LfoTargetParameter::Operator(0, operator_target_at(i - 2))
    } else if i < 9 {
        LfoTargetParameter::Operator(0, operator_target_at(i - 1))
    } else if i < 33 {
        LfoTargetParameter::Operator((1 + (i - 9) / 8) as usize, operator_target_at((i - 9) % 8))
    } else {
        LfoTargetParameter::Lfo(((i - 33) / 4) as usize, lfo_target_lfo_at((i - 33) % 4))
    }
}

/// Number of destinations open to the oscillator with the given index.
pub open spec fn lfo_target_count(lfo_index: int) -> int {
    33 + 4 * lfo_index
}

/// Whether the oscillator with the given index may modulate the target:
/// any master parameter, any parameter that an operator has, and the
/// parameters of oscillators with a lower index.
pub open spec fn lfo_target_legal(lfo_index: int, target: LfoTargetParameter) -> bool {
    match target {
        LfoTargetParameter::Master(_) => true,
        LfoTargetParameter::Operator(operator_index, parameter) => operator_index < 4 && !(
        operator_index == 0 && parameter == LfoTargetOperatorParameter::ModOut),
        LfoTargetParameter::Lfo(index, _) => index < lfo_index,
    }
}

fn operator_target(i: usize) -> (parameter: LfoTargetOperatorParameter)
    requires
        i < 8,
    ensures
        parameter == operator_target_at(i as int),
{
    if i == 0 {
        LfoTargetOperatorParameter::Volume
    } else if i == 1 {
        LfoTargetOperatorParameter::Panning
    } else if i == 2 {
        LfoTargetOperatorParameter::MixOut
    } else if i == 3 {
        LfoTargetOperatorParameter::ModOut
    } else if i == 4 {
        LfoTargetOperatorParameter::Feedback
    } else if i == 5 {
        LfoTargetOperatorParameter::FrequencyRatio
    } else if i == 6 {
        LfoTargetOperatorParameter::FrequencyFree
    } else {
        LfoTargetOperatorParameter::FrequencyFine
    }
}

fn lfo_target_lfo(i: usize) -> (parameter: LfoTargetLfoParameter)
    requires
        i < 4,
    ensures
        parameter == lfo_target_lfo_at(i as int),
{
    if i == 0 {
        LfoTargetLfoParameter::Shape
    } else if i == 1 {
        LfoTargetLfoParameter::FrequencyRatio
    } else if i == 2 {
        LfoTargetLfoParameter::FrequencyFree
    } else {
        LfoTargetLfoParameter::Amount
    }
}

/// The destination at position `i` of the list of all destinations.
pub fn lfo_target_step(i: usize) -> (target: LfoTargetParameter)
    requires
        i < LFO_TARGETS,
    ensures
        target == lfo_target_at(i as int),
{
    if i == 0 {
        LfoTargetParameter::Master(LfoTargetMasterParameter::Volume)
    } else if i == 1 {
        LfoTargetParameter::Master(LfoTargetMasterParameter::Frequency)
    } else if i < 5 {
        LfoTargetParameter::Operator(0, operator_target(i - 2))
    } else if i < 9 {
        LfoTargetParameter::Operator(0, operator_target(i - 1))
    } else if i < 33 {
        LfoTargetParameter::Operator(1 + (i - 9) / 8, operator_target((i - 9) % 8))
    } else {
        LfoTargetParameter::Lfo((i - 33) / 4, lfo_target_lfo((i - 33) % 4))
    }
}

/// The destinations open to the oscillator with the given index, in the
/// order of the list of all destinations.
pub fn get_lfo_target_parameters(lfo_index: usize) -> (targets: Vec<LfoTargetParameter>)
    requires
        lfo_index < 4,
    ensures
        targets@.len() == lfo_target_count(lfo_index as int),
        forall|i: int| 0 <= i < targets@.len() ==> #[trigger] targets@[i] == lfo_target_at(i),
{
    let end: usize = if lfo_index == 0 {
        33
    } else if lfo_index == 1 {
        37
    } else if lfo_index == 2 {
        41
    } else {
        45
    };
    let mut targets: Vec<LfoTargetParameter> = Vec::new();
    let mut i: usize = 0;
    while i < end
        invariant
            i <= end <= LFO_TARGETS,
            targets@.len() == i,
            forall|j: int| 0 <= j < i ==> targets@[j] == lfo_target_at(j),
        decreases end - i,
    {
        targets.push(lfo_target_step(i));
        i += 1;
    }
    targets
}

/// Position of a legal destination in the list of all destinations.
pub open spec fn lfo_target_position(target: LfoTargetParameter) -> int {
    match target {
        LfoTargetParameter::Master(LfoTargetMasterParameter::Volume) => 0,
        LfoTargetParameter::Master(LfoTargetMasterParameter::Frequency) => 1,
        LfoTargetParameter::Operator(operator_index, parameter) => {
            let within = operator_target_position(parameter);
            if operator_index == 0 {
                if within < 3 {
                    2 + within
                } else {
                    1 + within
                }
            } else {
                9 + 8 * (operator_index - 1) + within
            }
        },
        LfoTargetParameter::Lfo(index, parameter) => 33 + 4 * index + lfo_target_lfo_position(
            parameter,
        ),
    }
}

/// Position of an operator parameter in the order of the enumeration.
pub open spec fn operator_target_position(parameter: LfoTargetOperatorParameter) -> int {
    match parameter {
        LfoTargetOperatorParameter::Volume => 0,
        LfoTargetOperatorParameter::Panning => 1,
        LfoTargetOperatorParameter::MixOut => 2,
        LfoTargetOperatorParameter::ModOut => 3,
        LfoTargetOperatorParameter::Feedback => 4,
        LfoTargetOperatorParameter::FrequencyRatio => 5,
        LfoTargetOperatorParameter::FrequencyFree => 6,
        LfoTargetOperatorParameter::FrequencyFine => 7,
    }
}

/// Position of an oscillator parameter in the order of the enumeration.
pub open spec fn lfo_target_lfo_position(parameter: LfoTargetLfoParameter) -> int {
    match parameter {
        LfoTargetLfoParameter::Shape => 0,
        LfoTargetLfoParameter::FrequencyRatio => 1,
        LfoTargetLfoParameter::FrequencyFree => 2,
        LfoTargetLfoParameter::Amount => 3,
    }
}

/// Every destination listed for an oscillator is legal for it, and sits at
/// its own position: no destination is listed twice.
pub proof fn lemma_lfo_targets_sound(lfo_index: int, i: int)
    requires
        0 <= lfo_index < 4,
        0 <= i < lfo_target_count(lfo_index),
    ensures
        lfo_target_legal(lfo_index, lfo_target_at(i)),
        lfo_target_position(lfo_target_at(i)) == i,
{
}

/// Every destination that is legal for an oscillator is listed for it.
pub proof fn lemma_lfo_targets_complete(lfo_index: int, target: LfoTargetParameter)
    requires
        0 <= lfo_index < 4,
        lfo_target_legal(lfo_index, target),
    ensures
        0 <= lfo_target_position(target) < lfo_target_count(lfo_index),
        lfo_target_at(lfo_target_position(target)) == target,
{
}

/// Name of a master parameter as shown to the user.
pub open spec fn master_target_name(parameter: LfoTargetMasterParameter) -> Seq<char> {
    match parameter {
        LfoTargetMasterParameter::Volume => "volume"@,
        LfoTargetMasterParameter::Frequency => "frequency"@,
    }
}

/// Name of an operator parameter as shown to the user.
pub open spec fn operator_target_name(parameter: LfoTargetOperatorParameter) -> Seq<char> {
    match parameter {
        LfoTargetOperatorParameter::Volume => "volume"@,
        LfoTargetOperatorParameter::Panning => "pan"@,
        LfoTargetOperatorParameter::MixOut => "mix out"@,
        LfoTargetOperatorParameter::ModOut => "mod out"@,
        LfoTargetOperatorParameter::Feedback => "feedback"@,
        LfoTargetOperatorParameter::FrequencyRatio => "freq ratio"@,
        LfoTargetOperatorParameter::FrequencyFree => "freq free"@,
        LfoTargetOperatorParameter::FrequencyFine => "freq fine"@,
    }
}

/// Name of an oscillator parameter as shown to the user.
pub open spec fn lfo_target_lfo_name(parameter: LfoTargetLfoParameter) -> Seq<char> {
    match parameter {
        LfoTargetLfoParameter::Shape => "shape"@,
        LfoTargetLfoParameter::FrequencyRatio => "freq ratio"@,
        LfoTargetLfoParameter::FrequencyFree => "freq free"@,
        LfoTargetLfoParameter::Amount => "amount"@,
    }
}

/// The text shown for a destination: its owner, the owner's number counted
/// from one, and the parameter's name.
pub open spec fn lfo_target_text(target: LfoTargetParameter) -> Seq<char> {
    match target {
        LfoTargetParameter::Master(parameter) => "Master "@ + master_target_name(parameter),
        LfoTargetParameter::Operator(index, parameter) => "Op. "@ + decimal((index + 1) as nat)
            + " "@ + operator_target_name(parameter),
        LfoTargetParameter::Lfo(index, parameter) => "LFO "@ + decimal((index + 1) as nat) + " "@
            + lfo_target_lfo_name(parameter),
    }
}

impl LfoTargetParameter {
    /// The text shown for this destination.
    pub fn to_text(&self) -> (text: String)
        requires
            match *self {
                LfoTargetParameter::Master(_) => true,
                LfoTargetParameter::Operator(index, _) => index < usize::MAX,
                LfoTargetParameter::Lfo(index, _) => index < usize::MAX,
            },
        ensures
            text@ == lfo_target_text(*self),
    {
        match *self {
            LfoTargetParameter::Master(parameter) => {
                let mut text = String::from_str("Master ");
                let name = match parameter {
                    LfoTargetMasterParameter::Volume => "volume",
                    LfoTargetMasterParameter::Frequency => "frequency",
                };
                text.append(name);
                text
            },
            LfoTargetParameter::Operator(index, parameter) => {
                let mut text = String::from_str("Op. ");
                push_decimal(&mut text, index + 1);
                text.append(" ");
                let name = match parameter {
                    LfoTargetOperatorParameter::Volume => "volume",
                    LfoTargetOperatorParameter::Panning => "pan",
                    LfoTargetOperatorParameter::MixOut => "mix out",
                    LfoTargetOperatorParameter::ModOut => "mod out",
                    LfoTargetOperatorParameter::Feedback => "feedback",
                    LfoTargetOperatorParameter::FrequencyRatio => "freq ratio",
                    LfoTargetOperatorParameter::FrequencyFree => "freq free",
                    LfoTargetOperatorParameter::FrequencyFine => "freq fine",
                };
                text.append(name);
                text
            },
            LfoTargetParameter::Lfo(index, parameter) => {
                let mut text = String::from_str("LFO ");
                push_decimal(&mut text, index + 1);
                text.append(" ");
                let name = match parameter {
                    LfoTargetLfoParameter::Shape => "shape",
                    LfoTargetLfoParameter::FrequencyRatio => "freq ratio",
                    LfoTargetLfoParameter::FrequencyFree => "freq free",
                    LfoTargetLfoParameter::Amount => "amount",
                };
                text.append(name);
                text
            },
        }
    }
}

} // verus!
