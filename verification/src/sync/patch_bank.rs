//! Patches and the bank that holds them.
//!
//! A parameter value is kept as the bit pattern of its normalized value; the
//! bank stores and moves these words and never computes with them.

use vstd::prelude::*;
use vstd::string::StringExecFns;
use vstd::string::StrSliceExecFns;
use crate::arrays::array_from_fn;
use crate::parameters::{listed, parameter_position, parameter_to_index, Parameter};
use crate::sync::change_info::{any_set, reported, ParameterChangeInfo, MAX_NUM_PARAMETERS};
use crate::sync::patch_bytes::{
    bank_bytes, encodable, lemma_bank_bytes_parse, lemma_patch_bytes_parse, parsed_bank,
    parsed_patch, patch_bytes, PatchDecodeError,
};
use crate::sync::patch_name::{load_name, name_text, new_name, store_name, PatchName};
use crate::text::{decimal, decimal_padded, push_char, push_decimal_padded};

verus! {

/// Whether a character belongs to ASCII.
pub open spec fn is_ascii_char(c: char) -> bool {
    '\0' <= c <= '\u{7f}'
}

/// The ASCII characters of a text, in order.
pub open spec fn ascii_only(text: Seq<char>) -> Seq<char>
    decreases text.len(),
{
    if text.len() == 0 {
        Seq::empty()
    } else if is_ascii_char(text.last()) {
        ascii_only(text.drop_last()).push(text.last())
    } else {
        ascii_only(text.drop_last())
    }
}

/// What is left of an ASCII filter is ASCII, and filtering it again changes
/// nothing.
pub proof fn lemma_ascii_only(text: Seq<char>)
    ensures
        forall|i: int| 0 <= i < ascii_only(text).len() ==> is_ascii_char(#[trigger] ascii_only(text)[i]),
        ascii_only(ascii_only(text)) == ascii_only(text),
        ascii_only(text).len() <= text.len(),
    decreases text.len(),
{
    if text.len() > 0 {
        lemma_ascii_only(text.drop_last());
        let rest = ascii_only(text.drop_last());
        if is_ascii_char(text.last()) {
            let kept = rest.push(text.last());
            assert(kept.drop_last() =~= rest);
            assert(kept.last() == text.last());
        }
    }
}

/// A text that is ASCII throughout passes the filter unchanged.
pub proof fn lemma_ascii_only_keeps_ascii(text: Seq<char>)
    requires
        forall|i: int| 0 <= i < text.len() ==> is_ascii_char(#[trigger] text[i]),
    ensures
        ascii_only(text) == text,
    decreases text.len(),
{
    if text.len() > 0 {
        assert(is_ascii_char(text[text.len() - 1]));
        assert forall|i: int| 0 <= i < text.drop_last().len() implies is_ascii_char(
            #[trigger] text.drop_last()[i],
        ) by {
            assert(text.drop_last()[i] == text[i]);
        }
        lemma_ascii_only_keeps_ascii(text.drop_last());
        assert(text.drop_last().push(text.last()) =~= text);
    } else {
        assert(text =~= Seq::<char>::empty());
    }
}

/// A named set of parameter values.
pub struct Patch {
    name: PatchName,
    parameters: Vec<u32>,
    defaults: Vec<u32>,
}

/// A patch as it is written out and read in: a name and the values in the
/// order of the parameters.
pub struct SerdePatch {
    pub name: String,
    pub parameters: Vec<u32>,
}

/// Whether every character of a text belongs to ASCII.
pub open spec fn is_ascii_text(text: Seq<char>) -> bool {
    forall|i: int| 0 <= i < text.len() ==> is_ascii_char(#[trigger] text[i])
}

impl Patch {
    /// The name of the patch.
    pub closed spec fn name(&self) -> Seq<char> {
        name_text(self.name)
    }

    /// The value that each parameter takes where none is read for it: the
    /// value with which the patch was made.
    pub closed spec fn default_values(&self) -> Seq<u32> {
        self.defaults@
    }

    /// The name of a patch is ASCII, and each of its parameters has a
    /// default.
    pub open spec fn well_formed(&self) -> bool {
        &&& is_ascii_text(self.name())
        &&& self.default_values().len() == self.values().len()
    }

    /// The parameter values, in the order of the parameters.
    pub closed spec fn values(&self) -> Seq<u32> {
        self.parameters@
    }

    /// A patch with the given values, named by the ASCII characters of
    /// `name`.
    pub fn new(name: &str, parameters: Vec<u32>) -> (patch: Self)
        ensures
            patch.well_formed(),
            patch.name() == ascii_only(name@),
            patch.values() == parameters@,
            patch.default_values() == parameters@,
    {
        let defaults = copy_values(&parameters);
        Patch { name: new_name(Self::process_name(name)), parameters, defaults }
    }

    fn process_name(name: &str) -> (processed: String)
        ensures
            processed@ == ascii_only(name@),
            is_ascii_text(processed@),
    {
        proof {
            lemma_ascii_only(name@);
        }
        let mut processed = String::new();
        let length = name.unicode_len();
        let mut i: usize = 0;
        while i < length
            invariant
                i <= length,
                length == name@.len(),
                processed@ == ascii_only(name@.subrange(0, i as int)),
            decreases length - i,
        {
            let c = name.get_char(i);
            proof {
                let next = name@.subrange(0, i + 1);
                assert(next.drop_last() =~= name@.subrange(0, i as int));
                assert(next.last() == c);
            }
            if (c as u32) < 128 {
                push_char(&mut processed, c);
            }
            i += 1;
        }
        assert(name@.subrange(0, length as int) =~= name@);
        processed
    }

    pub fn get_name(&self) -> (name: String)
        ensures
            name@ == self.name(),
    {
        load_name(&self.name)
    }

    /// Names the patch by the ASCII characters of `name`.
    pub fn set_name(&mut self, name: String)
        ensures
            is_ascii_text(final(self).name()),
            final(self).name() == ascii_only(name@),
            final(self).values() == old(self).values(),
            final(self).default_values() == old(self).default_values(),
    {
        store_name(&mut self.name, Self::process_name(name.as_str()));
    }
}

/// The values of a patch after values were taken over: each value for
/// which one is given is replaced, the others stay. What is given beyond
/// the parameters of the patch is ignored.
pub open spec fn merged(current: Seq<u32>, imported: Seq<u32>) -> Seq<u32> {
    Seq::new(
        current.len(),
        |i: int|
            if i < imported.len() {
                imported[i]
            } else {
                current[i]
            },
    )
}

impl SerdePatch {
    /// What is written out of a patch: its name and all its values.
    pub fn new(patch: &Patch) -> (serde_patch: Self)
        ensures
            serde_patch.name@ == patch.name(),
            serde_patch.parameters@ == patch.values(),
    {
        SerdePatch { name: patch.get_name(), parameters: copy_values(&patch.parameters) }
    }
}

/// A copy of the values.
fn copy_values(values: &Vec<u32>) -> (copy: Vec<u32>)
    ensures
        copy@ == values@,
{
    let mut copy: Vec<u32> = Vec::new();
    let mut i: usize = 0;
    while i < values.len()
        invariant
            i <= values@.len(),
            copy@ == values@.subrange(0, i as int),
        decreases values@.len() - i,
    {
        copy.push(values[i]);
        assert(values@.subrange(0, i as int).push(values@[i as int]) =~= values@.subrange(
            0,
            i + 1,
        ));
        i += 1;
    }
    assert(values@.subrange(0, values@.len() as int) =~= values@);
    copy
}

impl Patch {
    /// Takes over the ASCII characters of the name that was read in, and
    /// each value for which one was read in; a parameter for which none was
    /// read in takes its default. Values read in beyond the parameters of
    /// the patch are ignored.
    pub fn import_serde_preset(&mut self, serde_preset: &SerdePatch)
        requires
            old(self).well_formed(),
        ensures
            final(self).well_formed(),
            final(self).default_values() == old(self).default_values(),
            final(self)@ == imported(old(self).default_values(), serde_preset@),
    {
        self.set_name(serde_preset.name.clone());
        let mut index: usize = 0;
        while index < self.parameters.len()
            invariant
                self.name() == ascii_only(serde_preset.name@),
                is_ascii_text(self.name()),
                self.defaults@ == old(self).defaults@,
                self.parameters@.len() == self.defaults@.len(),
                index <= self.parameters@.len(),
                forall|i: int|
                    0 <= i < index ==> self.parameters@[i] == merged(
                        self.defaults@,
                        serde_preset.parameters@,
                    )[i],
            decreases self.parameters@.len() - index,
        {
            let value = if index < serde_preset.parameters.len() {
                serde_preset.parameters[index]
            } else {
                self.defaults[index]
            };
            self.parameters.set(index, value);
            index += 1;
        }
        assert(self.parameters@ =~= merged(self.defaults@, serde_preset.parameters@));
    }

    fn set_from_values(&mut self, values: &Vec<u32>)
        ensures
            final(self).name() == old(self).name(),
            final(self).default_values() == old(self).default_values(),
            final(self).values() == merged(old(self).values(), values@),
    {
        let mut index: usize = 0;
        while index < self.parameters.len() && index < values.len()
            invariant
                self.name == old(self).name,
                self.defaults == old(self).defaults,
                self.parameters@.len() == old(self).parameters@.len(),
                index <= self.parameters@.len(),
                index <= values@.len(),
                forall|i: int| 0 <= i < index ==> self.parameters@[i] == values@[i],
                forall|i: int|
                    index <= i < self.parameters@.len() ==> self.parameters@[i] == old(
                        self,
                    ).parameters@[i],
            decreases self.parameters@.len() - index,
        {
            self.parameters.set(index, values[index]);
            index += 1;
        }
        assert(self.parameters@ =~= merged(old(self).parameters@, values@));
    }

    pub fn export_serde_preset(&self) -> (serde_patch: SerdePatch)
        ensures
            serde_patch.name@ == self.name(),
            serde_patch.parameters@ == self.values(),
    {
        SerdePatch::new(self)
    }

    /// Names the patch with a hyphen and takes over the given values.
    pub fn set_from_patch_parameters(&mut self, parameters: &Vec<u32>)
        ensures
            is_ascii_text(final(self).name()),
            final(self).name() == seq!['-'],
            final(self).values() == merged(old(self).values(), parameters@),
            final(self).default_values() == old(self).default_values(),
    {
        proof {
            reveal_strlit("-");
            assert("-"@ =~= seq!['-']);
        }
        store_name(&mut self.name, String::from_str("-"));
        self.set_from_values(parameters);
    }

    /// The value at a place, if the patch has one there.
    pub fn get_value(&self, index: usize) -> (value: Option<u32>)
        ensures
            index < self.values().len() ==> value == Some(self.values()[index as int]),
            index >= self.values().len() ==> value.is_none(),
    {
        if index < self.parameters.len() {
            Some(self.parameters[index])
        } else {
            None
        }
    }

    /// Stores a value at a place that the patch has.
    pub fn set_value(&mut self, index: usize, value: u32)
        requires
            index < old(self).values().len(),
        ensures
            final(self).name() == old(self).name(),
            final(self).values() == old(self).values().update(index as int, value),
            final(self).default_values() == old(self).default_values(),
    {
        self.parameters.set(index, value);
    }

    /// The number of values.
    pub fn num_parameters(&self) -> (n: usize)
        ensures
            n == self.values().len(),
    {
        self.parameters.len()
    }
}


/// Number of patches in a bank.
pub const NUM_PATCHES: usize = 128;

/// Bit pattern of the normalized value one.
pub const ONE_BITS: u32 = 0x3F80_0000;

/// The name and the values of a patch.
pub struct PatchData {
    pub name: Seq<char>,
    pub values: Seq<u32>,
}

impl View for SerdePatch {
    type V = PatchData;

    open spec fn view(&self) -> PatchData {
        PatchData { name: self.name@, values: self.parameters@ }
    }
}

impl View for Patch {
    type V = PatchData;

    open spec fn view(&self) -> PatchData {
        PatchData { name: self.name(), values: self.values() }
    }
}

/// A bank as it is written out and read in: its patches in order.
pub struct SerdePatchBank {
    pub patches: Vec<SerdePatch>,
}

/// The bit pattern of a normalized value brought into the range from zero
/// to one. The order of the values from zero upwards is the order of their
/// bit patterns; a pattern with the sign bit set stands for a value below
/// zero or for negative zero, and a pattern whose magnitude lies above that
/// of infinity stands for no number, which counts as one.
pub open spec fn clamped_bits(bits: u32) -> u32 {
    if bits % 0x8000_0000 > 0x7F80_0000 {
        ONE_BITS
    } else if bits >= 0x8000_0000 {
        0
    } else if bits > ONE_BITS {
        ONE_BITS
    } else {
        bits
    }
}

/// Brings the bit pattern of a normalized value into the range from zero to
/// one.
pub fn clamp_bits(bits: u32) -> (clamped: u32)
    ensures
        clamped == clamped_bits(bits),
        clamped <= ONE_BITS,
{
    if bits % 0x8000_0000 > 0x7F80_0000 {
        ONE_BITS
    } else if bits >= 0x8000_0000 {
        0
    } else if bits > ONE_BITS {
        ONE_BITS
    } else {
        bits
    }
}

/// A pattern in the range stays as it is when it is clamped again.
pub proof fn lemma_clamped_bits_idempotent(bits: u32)
    ensures
        clamped_bits(clamped_bits(bits)) == clamped_bits(bits),
        bits <= ONE_BITS ==> clamped_bits(bits) == bits,
{
}

/// The name shown for the patch at an index: its number, counted from one
/// and padded to three digits, a colon, and its name.
pub open spec fn numbered_name(index: int, name: Seq<char>) -> Seq<char> {
    decimal_padded((index + 1) as nat) + seq![':', ' '] + name
}

/// The file name under which a patch is written out.
pub open spec fn export_filename(name: Seq<char>) -> Seq<char> {
    if name.len() == 0 {
        seq!['-', '.', 'f', 'x', 'p']
    } else {
        name + seq!['.', 'f', 'x', 'p']
    }
}

/// The digits of a number are ASCII.
pub proof fn lemma_decimal_is_ascii(n: nat)
    ensures
        forall|i: int| 0 <= i < decimal(n).len() ==> is_ascii_char(#[trigger] decimal(n)[i]),
        forall|i: int|
            0 <= i < decimal_padded(n).len() ==> is_ascii_char(#[trigger] decimal_padded(n)[i]),
        ascii_only(decimal_padded(n)) == decimal_padded(n),
    decreases n,
{
    if n >= 10 {
        lemma_decimal_is_ascii(n / 10);
    }
    assert forall|i: int| 0 <= i < decimal(n).len() implies is_ascii_char(
        #[trigger] decimal(n)[i],
    ) by {
        if n >= 10 && i < decimal(n / 10).len() {
            assert(decimal(n)[i] == decimal(n / 10)[i]);
        }
    }
    lemma_ascii_only_keeps_ascii(decimal_padded(n));
}

/// The 128 patches of the synthesizer, one of them current, with a record
/// of what has changed for the audio thread and for the editor.
pub struct PatchBank {
    patches: [Patch; 128],
    patch_index: usize,
    parameter_change_info_audio: ParameterChangeInfo,
    parameter_change_info_gui: ParameterChangeInfo,
    patches_changed: bool,
    defaults: Vec<u32>,
}

impl PatchBank {
    /// The patches in order.
    pub closed spec fn patches(&self) -> Seq<Patch> {
        self.patches@
    }

    /// The index of the current patch.
    pub closed spec fn index(&self) -> int {
        self.patch_index as int
    }

    /// Whether patches have changed since the editor last asked.
    pub closed spec fn changed(&self) -> bool {
        self.patches_changed
    }

    /// The changes that wait for the audio thread.
    pub closed spec fn audio_flags(&self) -> Seq<bool> {
        self.parameter_change_info_audio.flags()
    }

    /// The changes that wait for the editor.
    pub closed spec fn gui_flags(&self) -> Seq<bool> {
        self.parameter_change_info_gui.flags()
    }

    /// The value that each parameter has in a cleared patch.
    pub closed spec fn defaults(&self) -> Seq<u32> {
        self.defaults@
    }

    /// The values of the current patch.
    pub open spec fn current_values(&self) -> Seq<u32> {
        self.patches()[self.index()].values()
    }

    /// The bank holds 128 patches, one of which is current; every patch has
    /// a value for each parameter, and changes can be recorded for each.
    pub open spec fn well_formed(&self) -> bool {
        &&& self.patches().len() == NUM_PATCHES
        &&& 0 <= self.index() < NUM_PATCHES
        &&& self.defaults().len() <= MAX_NUM_PARAMETERS
        &&& self.audio_flags().len() == MAX_NUM_PARAMETERS
        &&& self.gui_flags().len() == MAX_NUM_PARAMETERS
        &&& forall|i: int|
            0 <= i < NUM_PATCHES ==> (#[trigger] self.patches()[i]).values().len()
                == self.defaults().len()
        &&& forall|i: int| 0 <= i < NUM_PATCHES ==> (#[trigger] self.patches()[i]).well_formed()
        &&& forall|i: int|
            0 <= i < NUM_PATCHES ==> (#[trigger] self.patches()[i]).default_values()
                == self.defaults()
    }

    /// All flags of both records are set.
    pub open spec fn all_marked(&self) -> bool {
        &&& forall|i: int| 0 <= i < MAX_NUM_PARAMETERS ==> self.audio_flags()[i]
        &&& forall|i: int| 0 <= i < MAX_NUM_PARAMETERS ==> self.gui_flags()[i]
    }

    /// A bank of patches that are named with a hyphen and hold the given
    /// values; the first is current and nothing counts as changed.
    pub fn new(defaults: Vec<u32>) -> (bank: Self)
        requires
            defaults@.len() <= MAX_NUM_PARAMETERS,
        ensures
            bank.well_formed(),
            bank.index() == 0,
            !bank.changed(),
            bank.defaults() == defaults@,
            forall|i: int| 0 <= i < MAX_NUM_PARAMETERS ==> !bank.audio_flags()[i],
            forall|i: int| 0 <= i < MAX_NUM_PARAMETERS ==> !bank.gui_flags()[i],
            forall|i: int|
                0 <= i < NUM_PATCHES ==> (#[trigger] bank.patches()[i])@ == (PatchData {
                    name: seq!['-'],
                    values: defaults@,
                }),
    {
        let fresh = |i: usize| -> (patch: Patch)
            ensures
                patch.well_formed(),
                patch.default_values() == defaults@,
                patch@ == (PatchData { name: seq!['-'], values: defaults@ }),
            {
                proof {
                    reveal_strlit("-");
                    assert("-"@ =~= seq!['-']);
                    lemma_ascii_only_keeps_ascii(seq!['-']);
                }
                Patch::new("-", copy_values(&defaults))
            };
        let patches: [Patch; 128] = array_from_fn(fresh);
        assert forall|i: int| 0 <= i < NUM_PATCHES implies (#[trigger] patches@[i])@ == (PatchData {
            name: seq!['-'],
            values: defaults@,
        }) && patches@[i].well_formed() && patches@[i].default_values() == defaults@ by {
            let index = i as usize;
            assert(patches@[index as int]@ == (PatchData { name: seq!['-'], values: defaults@ }));
        }
        PatchBank {
            patches,
            patch_index: 0,
            parameter_change_info_audio: ParameterChangeInfo::new(),
            parameter_change_info_gui: ParameterChangeInfo::new(),
            patches_changed: false,
            defaults,
        }
    }

    fn mark_parameters_as_changed(&mut self)
        requires
            old(self).well_formed(),
        ensures
            final(self).well_formed(),
            final(self).all_marked(),
            final(self).patches() == old(self).patches(),
            final(self).index() == old(self).index(),
            final(self).changed() == old(self).changed(),
            final(self).defaults() == old(self).defaults(),
    {
        self.parameter_change_info_audio.mark_all_as_changed();
        self.parameter_change_info_gui.mark_all_as_changed();
    }

    // Number of patches / parameters

    pub fn num_patches(&self) -> (n: usize)
        ensures
            n == NUM_PATCHES,
    {
        128
    }

    pub fn num_parameters(&self) -> (n: usize)
        requires
            self.well_formed(),
        ensures
            n == self.current_values().len(),
            n == self.defaults().len(),
    {
        self.patches[self.patch_index].num_parameters()
    }

    /// The patch at an index.
    pub fn get_patch(&self, index: usize) -> (patch: &Patch)
        requires
            index < NUM_PATCHES,
        ensures
            *patch == self.patches()[index as int],
    {
        &self.patches[index]
    }

    // Manage patches

    pub fn get_patch_index(&self) -> (index: usize)
        ensures
            index == self.index(),
    {
        self.patch_index
    }

    /// Makes the patch at `index` current and records that everything has
    /// changed. An index that the bank does not have is ignored.
    pub fn set_patch_index(&mut self, index: usize)
        requires
            old(self).well_formed(),
        ensures
            final(self).well_formed(),
            final(self).patches() == old(self).patches(),
            final(self).defaults() == old(self).defaults(),
            index >= NUM_PATCHES ==> *final(self) == *old(self),
            index < NUM_PATCHES ==> final(self).index() == index && final(self).changed()
                && final(self).all_marked(),
    {
        if index >= 128 {
            return ;
        }
        self.patch_index = index;
        self.patches_changed = true;
        self.mark_parameters_as_changed();
    }

    /// The numbered name of the patch at `index`, if the bank has one there.
    pub fn get_patch_name(&self, index: usize) -> (name: Option<String>)
        ensures
            index < NUM_PATCHES ==> name.is_some() && name.unwrap()@ == numbered_name(
                index as int,
                self.patches()[index as int].name(),
            ),
            index >= NUM_PATCHES ==> name.is_none(),
    {
        if index < 128 {
            let mut text = String::new();
            push_decimal_padded(&mut text, index + 1);
            text.append(": ");
            let name = self.patches[index].get_name();
            text.append(name.as_str());
            proof {
                reveal_strlit(": ");
                assert(": "@ =~= seq![':', ' ']);
                assert(text@ =~= numbered_name(index as int, self.patches()[index as int].name()));
            }
            Some(text)
        } else {
            None
        }
    }

    pub fn get_current_patch_name(&self) -> (name: String)
        requires
            self.well_formed(),
        ensures
            name@ == self.patches()[self.index()].name(),
    {
        self.patches[self.patch_index].get_name()
    }

    /// The numbered names of all patches, in order.
    pub fn get_patch_names(&self) -> (names: Vec<String>)
        ensures
            names@.len() == NUM_PATCHES,
            forall|i: int|
                0 <= i < NUM_PATCHES ==> (#[trigger] names@[i])@ == numbered_name(
                    i,
                    self.patches()[i].name(),
                ),
    {
        let mut names: Vec<String> = Vec::new();
        let mut index: usize = 0;
        while index < 128
            invariant
                index <= 128,
                names@.len() == index,
                forall|i: int|
                    0 <= i < index ==> (#[trigger] names@[i])@ == numbered_name(
                        i,
                        self.patches()[i].name(),
                    ),
            decreases 128 - index,
        {
            match self.get_patch_name(index) {
                Some(name) => names.push(name),
                None => {},
            }
            index += 1;
        }
        names
    }

    /// Names the current patch and records that patches have changed.
    pub fn set_patch_name(&mut self, name: String)
        requires
            old(self).well_formed(),
        ensures
            final(self).well_formed(),
            final(self).changed(),
            final(self).index() == old(self).index(),
            final(self).defaults() == old(self).defaults(),
            final(self).audio_flags() == old(self).audio_flags(),
            final(self).gui_flags() == old(self).gui_flags(),
            final(self).patches().len() == NUM_PATCHES,
            final(self).patches()[old(self).index()]@ == (PatchData {
                name: ascii_only(name@),
                values: old(self).current_values(),
            }),
            forall|i: int|
                0 <= i < NUM_PATCHES && i != old(self).index() ==> #[trigger] final(self).patches()[i] == old(
                    self,
                ).patches()[i],
    {
        self.patches[self.patch_index].set_name(name);
        self.patches_changed = true;
    }

    /// Whether patches have changed since this was last asked.
    pub fn have_patches_changed(&mut self) -> (changed: bool)
        ensures
            changed == old(self).changed(),
            !final(self).changed(),
            final(self).patches() == old(self).patches(),
            final(self).index() == old(self).index(),
            final(self).defaults() == old(self).defaults(),
            final(self).audio_flags() == old(self).audio_flags(),
            final(self).gui_flags() == old(self).gui_flags(),
    {
        let changed = self.patches_changed;
        self.patches_changed = false;
        changed
    }

    /// The file name under which the current patch is written out.
    pub fn get_current_patch_filename_for_export(&self) -> (filename: String)
        requires
            self.well_formed(),
        ensures
            filename@ == export_filename(self.patches()[self.index()].name()),
    {
        let name = self.patches[self.patch_index].get_name();
        let name = name.as_str();
        proof {
            reveal_strlit("-.fxp");
            reveal_strlit(".fxp");
            assert("-.fxp"@ =~= seq!['-', '.', 'f', 'x', 'p']);
            assert(".fxp"@ =~= seq!['.', 'f', 'x', 'p']);
        }
        if name.unicode_len() == 0 {
            String::from_str("-.fxp")
        } else {
            let mut filename = String::from_str(name);
            filename.append(".fxp");
            filename
        }
    }
}


impl PatchBank {
    // Get parameter values

    /// The value of the parameter at `index` in the current patch, if there
    /// is such a parameter.
    pub fn get_parameter_value(&self, index: usize) -> (value: Option<u32>)
        requires
            self.well_formed(),
        ensures
            index < self.current_values().len() ==> value == Some(
                self.current_values()[index as int],
            ),
            index >= self.current_values().len() ==> value.is_none(),
    {
        self.patches[self.patch_index].get_value(index)
    }

    /// The value of a parameter in the current patch, if the parameter is
    /// listed and the patch has a value for it.
    pub fn get_parameter_by_key(&self, key: Parameter) -> (value: Option<u32>)
        requires
            self.well_formed(),
        ensures
            value == match self.key_index(key) {
                Some(index) => Some(self.current_values()[index]),
                None => None,
            },
    {
        match parameter_to_index(key) {
            Some(index) => self.get_parameter_value(index),
            None => None,
        }
    }

    /// The index of a parameter and its value in the current patch, if the
    /// parameter is listed and the patch has a value for it.
    pub fn get_index_and_parameter_by_key(&self, key: Parameter) -> (found: Option<(usize, u32)>)
        requires
            self.well_formed(),
        ensures
            found == match self.key_index(key) {
                Some(index) => Some((index as usize, self.current_values()[index])),
                None => None,
            },
    {
        match parameter_to_index(key) {
            Some(index) => match self.get_parameter_value(index) {
                Some(value) => Some((index, value)),
                None => None,
            },
            None => None,
        }
    }

    /// The index under which the current patch holds a value for a
    /// parameter.
    pub open spec fn key_index(&self, key: Parameter) -> Option<int> {
        if listed(key) && parameter_position(key) < self.current_values().len() {
            Some(parameter_position(key))
        } else {
            None
        }
    }

    /// The bank after the current patch got a new value at `index`.
    pub open spec fn value_set(&self, before: &Self, index: int, value: u32) -> bool {
        &&& self.well_formed()
        &&& self.index() == before.index()
        &&& self.changed() == before.changed()
        &&& self.defaults() == before.defaults()
        &&& self.patches()[self.index()]@ == (PatchData {
            name: before.patches()[before.index()].name(),
            values: before.current_values().update(index, value),
        })
        &&& forall|i: int|
            0 <= i < NUM_PATCHES && i != before.index() ==> self.patches()[i]
                == before.patches()[i]
    }

    // Set parameters

    /// Takes a value from the editor: brought into the range from zero to
    /// one, it becomes the value of the parameter in the current patch, and
    /// the change is recorded for the audio thread. An index without a
    /// parameter changes nothing.
    pub fn set_parameter_from_gui(&mut self, index: usize, value: u32)
        requires
            old(self).well_formed(),
        ensures
            index >= old(self).current_values().len() ==> *final(self) == *old(self),
            index < old(self).current_values().len() ==> {
                &&& final(self).value_set(old(self), index as int, clamped_bits(value))
                &&& final(self).audio_flags() == old(self).audio_flags().update(index as int, true)
                &&& final(self).gui_flags() == old(self).gui_flags()
            },
    {
        if index < self.patches[self.patch_index].num_parameters() {
            self.patches[self.patch_index].set_value(index, clamp_bits(value));
            self.parameter_change_info_audio.mark_as_changed(index);
        }
    }

    /// Takes a value from the host: brought into the range from zero to
    /// one, it becomes the value of the parameter in the current patch, and
    /// the change is recorded for the audio thread and for the editor. An
    /// index without a parameter changes nothing.
    pub fn set_parameter_from_host(&mut self, index: usize, value: u32)
        requires
            old(self).well_formed(),
        ensures
            index >= old(self).current_values().len() ==> *final(self) == *old(self),
            index < old(self).current_values().len() ==> {
                &&& final(self).value_set(old(self), index as int, clamped_bits(value))
                &&& final(self).audio_flags() == old(self).audio_flags().update(index as int, true)
                &&& final(self).gui_flags() == old(self).gui_flags().update(index as int, true)
            },
    {
        if index < self.patches[self.patch_index].num_parameters() {
            self.patches[self.patch_index].set_value(index, clamp_bits(value));
            self.parameter_change_info_audio.mark_as_changed(index);
            self.parameter_change_info_gui.mark_as_changed(index);
        }
    }

    /// Takes what the host entered as text. `parsed` is the value that the
    /// text stands for, or nothing where the text was not understood. The
    /// text is accepted if there is a parameter at `index` and the text was
    /// understood; else nothing changes. The value is brought into the range
    /// from zero to one before it is stored.
    pub fn set_parameter_text_from_host(&mut self, index: usize, parsed: Option<u32>) -> (accepted:
        bool)
        requires
            old(self).well_formed(),
        ensures
            accepted == (index < old(self).current_values().len() && parsed.is_some()),
            !accepted ==> *final(self) == *old(self),
            accepted ==> {
                &&& final(self).value_set(old(self), index as int, clamped_bits(parsed.unwrap()))
                &&& final(self).audio_flags() == old(self).audio_flags().update(index as int, true)
                &&& final(self).gui_flags() == old(self).gui_flags().update(index as int, true)
            },
    {
        if index < self.patches[self.patch_index].num_parameters() {
            if let Some(value) = parsed {
                self.patches[self.patch_index].set_value(index, clamp_bits(value));
                self.parameter_change_info_audio.mark_as_changed(index);
                self.parameter_change_info_gui.mark_as_changed(index);
                return true;
            }
        }
        false
    }

    /// Takes what was entered as text in the editor; as for the host, but
    /// the change is recorded for the audio thread alone.
    pub fn set_parameter_text_from_gui(&mut self, index: usize, parsed: Option<u32>) -> (accepted:
        bool)
        requires
            old(self).well_formed(),
        ensures
            accepted == (index < old(self).current_values().len() && parsed.is_some()),
            !accepted ==> *final(self) == *old(self),
            accepted ==> {
                &&& final(self).value_set(old(self), index as int, clamped_bits(parsed.unwrap()))
                &&& final(self).audio_flags() == old(self).audio_flags().update(index as int, true)
                &&& final(self).gui_flags() == old(self).gui_flags()
            },
    {
        if index < self.patches[self.patch_index].num_parameters() {
            if let Some(value) = parsed {
                self.patches[self.patch_index].set_value(index, clamp_bits(value));
                self.parameter_change_info_audio.mark_as_changed(index);
                return true;
            }
        }
        false
    }

    // Get parameter changes

    /// Fetches for the audio thread what has changed: nothing where no
    /// change is recorded for it, else the value in the current patch of
    /// each parameter with a recorded change. The record is cleared.
    pub fn get_changed_parameters_from_audio(&mut self) -> (changes: Option<Vec<Option<u32>>>)
        requires
            old(self).well_formed(),
        ensures
            final(self).well_formed(),
            final(self).patches() == old(self).patches(),
            final(self).index() == old(self).index(),
            final(self).changed() == old(self).changed(),
            final(self).defaults() == old(self).defaults(),
            final(self).gui_flags() == old(self).gui_flags(),
            forall|i: int| 0 <= i < MAX_NUM_PARAMETERS ==> !final(self).audio_flags()[i],
            changes.is_some() == any_set(old(self).audio_flags()),
            changes.is_some() ==> {
                &&& changes.unwrap()@.len() == MAX_NUM_PARAMETERS
                &&& forall|i: int|
                    0 <= i < MAX_NUM_PARAMETERS ==> #[trigger] changes.unwrap()@[i] == reported(
                        old(self).audio_flags(),
                        old(self).current_values(),
                        i,
                    )
            },
    {
        self.parameter_change_info_audio.get_changed_parameters(
            &self.patches[self.patch_index].parameters,
        )
    }

    /// Fetches for the editor what has changed, as for the audio thread.
    pub fn get_changed_parameters_from_gui(&mut self) -> (changes: Option<Vec<Option<u32>>>)
        requires
            old(self).well_formed(),
        ensures
            final(self).well_formed(),
            final(self).patches() == old(self).patches(),
            final(self).index() == old(self).index(),
            final(self).changed() == old(self).changed(),
            final(self).defaults() == old(self).defaults(),
            final(self).audio_flags() == old(self).audio_flags(),
            forall|i: int| 0 <= i < MAX_NUM_PARAMETERS ==> !final(self).gui_flags()[i],
            changes.is_some() == any_set(old(self).gui_flags()),
            changes.is_some() ==> {
                &&& changes.unwrap()@.len() == MAX_NUM_PARAMETERS
                &&& forall|i: int|
                    0 <= i < MAX_NUM_PARAMETERS ==> #[trigger] changes.unwrap()@[i] == reported(
                        old(self).gui_flags(),
                        old(self).current_values(),
                        i,
                    )
            },
    {
        self.parameter_change_info_gui.get_changed_parameters(
            &self.patches[self.patch_index].parameters,
        )
    }
}


/// What a patch holds after a patch was read into it: the ASCII characters
/// of the name read, and for each parameter the value read, or its default
/// where none was read.
pub open spec fn imported(defaults: Seq<u32>, read: PatchData) -> PatchData {
    PatchData { name: ascii_only(read.name), values: merged(defaults, read.values) }
}

/// What the patch at an index holds after a bank was read in: the patch
/// read for that index, or, where the bank read is too short, the default
/// values under the number of the patch.
pub open spec fn imported_at(defaults: Seq<u32>, read: Seq<PatchData>, i: int) -> PatchData {
    if i < read.len() {
        imported(defaults, read[i])
    } else {
        PatchData { name: decimal_padded((i + 1) as nat), values: defaults }
    }
}

/// The patches that were read, as data.
pub open spec fn patch_data(patches: Seq<SerdePatch>) -> Seq<PatchData> {
    Seq::new(patches.len(), |i: int| patches[i]@)
}

/// The patches of a bank, as data.
pub open spec fn bank_data(patches: Seq<Patch>) -> Seq<PatchData> {
    Seq::new(patches.len(), |i: int| patches[i]@)
}

impl SerdePatchBank {
    /// What is written out of a bank: each of its patches, in order.
    pub fn new(bank: &PatchBank) -> (serde_bank: Self)
        requires
            bank.well_formed(),
        ensures
            patch_data(serde_bank.patches@) == bank_data(bank.patches()),
    {
        let mut patches: Vec<SerdePatch> = Vec::new();
        let mut index: usize = 0;
        while index < 128
            invariant
                index <= 128,
                bank.well_formed(),
                patches@.len() == index,
                forall|i: int| 0 <= i < index ==> (#[trigger] patches@[i])@ == bank.patches()[i]@,
            decreases 128 - index,
        {
            patches.push(bank.patches[index].export_serde_preset());
            index += 1;
        }
        assert(patch_data(patches@) =~= bank_data(bank.patches()));
        SerdePatchBank { patches }
    }
}

impl PatchBank {
    // Import / export

    /// Reads a bank in: each patch takes over the patch read for its index,
    /// or the default values and its number for a name where none was read.
    /// The first patch becomes current and everything counts as changed.
    pub fn import_bank_from_serde(&mut self, serde_bank: SerdePatchBank)
        requires
            old(self).well_formed(),
        ensures
            final(self).well_formed(),
            final(self).index() == 0,
            final(self).changed(),
            final(self).all_marked(),
            final(self).defaults() == old(self).defaults(),
            forall|i: int|
                0 <= i < NUM_PATCHES ==> (#[trigger] final(self).patches()[i])@ == imported_at(
                    old(self).defaults(),
                    patch_data(serde_bank.patches@),
                    i,
                ),
    {
        let mut index: usize = 0;
        while index < 128
            invariant
                index <= 128,
                self.well_formed(),
                self.index() == old(self).index(),
                self.defaults() == old(self).defaults(),
                forall|i: int|
                    0 <= i < index ==> (#[trigger] self.patches()[i])@ == imported_at(
                        old(self).defaults(),
                        patch_data(serde_bank.patches@),
                        i,
                    ),
                forall|i: int|
                    index <= i < NUM_PATCHES ==> self.patches()[i] == old(self).patches()[i],
            decreases 128 - index,
        {
            if index < serde_bank.patches.len() {
                self.patches[index].import_serde_preset(&serde_bank.patches[index]);
            } else {
                let ghost before = self.patches()[index as int].values();
                self.patches[index].set_from_patch_parameters(&self.defaults);
                assert(merged(before, self.defaults()) =~= self.defaults());
                let mut number = String::new();
                push_decimal_padded(&mut number, index + 1);
                proof {
                    lemma_decimal_is_ascii((index + 1) as nat);
                    assert(number@ =~= decimal_padded((index + 1) as nat));
                }
                self.patches[index].set_name(number);
            }
            index += 1;
        }
        self.set_patch_index(0);
        self.mark_parameters_as_changed();
        self.patches_changed = true;
    }

    /// Reads patches into the current patch and those that follow it, as far
    /// as the bank reaches. Everything counts as changed.
    pub fn import_patches_from_serde(&mut self, serde_patches: Vec<SerdePatch>)
        requires
            old(self).well_formed(),
        ensures
            final(self).well_formed(),
            final(self).index() == old(self).index(),
            final(self).changed(),
            final(self).all_marked(),
            final(self).defaults() == old(self).defaults(),
            forall|i: int|
                0 <= i < NUM_PATCHES ==> (#[trigger] final(self).patches()[i])@ == if old(
                    self,
                ).index() <= i < old(self).index() + serde_patches@.len() {
                    imported(old(self).defaults(), serde_patches@[i - old(self).index()]@)
                } else {
                    old(self).patches()[i]@
                },
    {
        let first = self.patch_index;
        let mut read: usize = 0;
        while read < serde_patches.len() && read < 128 - first
            invariant
                first == old(self).index(),
                first < 128,
                read <= serde_patches@.len(),
                read <= 128 - first,
                self.well_formed(),
                self.index() == old(self).index(),
                self.changed() == old(self).changed(),
                self.defaults() == old(self).defaults(),
                forall|i: int|
                    first <= i < first + read ==> (#[trigger] self.patches()[i])@ == imported(
                        old(self).defaults(),
                        serde_patches@[i - first]@,
                    ),
                forall|i: int|
                    0 <= i < NUM_PATCHES && !(first <= i < first + read) ==> self.patches()[i]
                        == old(self).patches()[i],
            decreases serde_patches@.len() - read,
        {
            self.patches[first + read].import_serde_preset(&serde_patches[read]);
            read += 1;
        }
        self.mark_parameters_as_changed();
        self.patches_changed = true;
    }

    // Clear data

    /// Gives the current patch the default values and a hyphen for a name.
    /// Everything counts as changed.
    pub fn clear_current_patch(&mut self)
        requires
            old(self).well_formed(),
        ensures
            final(self).well_formed(),
            final(self).index() == old(self).index(),
            final(self).changed(),
            final(self).all_marked(),
            final(self).defaults() == old(self).defaults(),
            final(self).patches()[old(self).index()]@ == (PatchData {
                name: seq!['-'],
                values: old(self).defaults(),
            }),
            forall|i: int|
                0 <= i < NUM_PATCHES && i != old(self).index() ==> #[trigger] final(self).patches()[i] == old(
                    self,
                ).patches()[i],
    {
        self.patches[self.patch_index].set_from_patch_parameters(&self.defaults);
        assert(merged(old(self).current_values(), self.defaults()) =~= self.defaults());
        self.mark_parameters_as_changed();
        self.patches_changed = true;
    }

    /// Gives every patch the default values and a hyphen for a name, and
    /// makes the first patch current. Everything counts as changed.
    pub fn clear_bank(&mut self)
        requires
            old(self).well_formed(),
        ensures
            final(self).well_formed(),
            final(self).index() == 0,
            final(self).changed(),
            final(self).all_marked(),
            final(self).defaults() == old(self).defaults(),
            forall|i: int|
                0 <= i < NUM_PATCHES ==> (#[trigger] final(self).patches()[i])@ == (PatchData {
                    name: seq!['-'],
                    values: old(self).defaults(),
                }),
    {
        let mut index: usize = 0;
        while index < 128
            invariant
                index <= 128,
                self.well_formed(),
                self.defaults() == old(self).defaults(),
                forall|i: int|
                    0 <= i < index ==> (#[trigger] self.patches()[i])@ == (PatchData {
                        name: seq!['-'],
                        values: old(self).defaults(),
                    }),
            decreases 128 - index,
        {
            let ghost before = self.patches()[index as int].values();
            self.patches[index].set_from_patch_parameters(&self.defaults);
            assert(merged(before, self.defaults()) =~= self.defaults());
            index += 1;
        }
        self.set_patch_index(0);
        self.mark_parameters_as_changed();
        self.patches_changed = true;
    }
}

impl Patch {
    /// Reads the patch from its byte form. Bytes that are no patch change
    /// nothing.
    pub fn import_bytes(&mut self, bytes: &[u8]) -> (read: bool)
        requires
            old(self).well_formed(),
        ensures
            read == parsed_patch(bytes@).is_ok(),
            read ==> final(self).well_formed() && final(self).default_values() == old(
                self,
            ).default_values() && final(self)@ == imported(
                old(self).default_values(),
                parsed_patch(bytes@).unwrap(),
            ),
            !read ==> *final(self) == *old(self),
    {
        match SerdePatch::from_bytes(bytes) {
            Ok(serde_preset) => {
                self.import_serde_preset(&serde_preset);
                true
            },
            Err(_) => false,
        }
    }

    /// The byte form of the patch.
    pub fn export_bytes(&self) -> (bytes: Vec<u8>)
        requires
            self.well_formed(),
        ensures
            bytes@ == patch_bytes(self@),
    {
        let serde_patch = self.export_serde_preset();
        let mut bytes: Vec<u8> = Vec::new();
        match serde_patch.to_bytes() {
            Ok(written) => {
                bytes = written;
            },
            Err(_) => {},
        }
        bytes
    }
}

impl PatchBank {
    /// Reads the bank from its byte form, as `import_bank_from_serde` does
    /// with what the bytes hold. Bytes that are no bank change nothing.
    pub fn import_bank_from_bytes(&mut self, bytes: &[u8]) -> (result: Result<(), PatchDecodeError>)
        requires
            old(self).well_formed(),
        ensures
            match parsed_bank(bytes@) {
                Ok(patches) => {
                    &&& result.is_ok()
                    &&& final(self).well_formed()
                    &&& final(self).index() == 0
                    &&& final(self).changed()
                    &&& final(self).all_marked()
                    &&& final(self).defaults() == old(self).defaults()
                    &&& forall|i: int|
                        0 <= i < NUM_PATCHES ==> (#[trigger] final(self).patches()[i])@
                            == imported_at(old(self).defaults(), patches, i)
                },
                Err(error) => result == Err::<(), PatchDecodeError>(error) && *final(self) == *old(
                    self,
                ),
            },
    {
        match SerdePatchBank::from_bytes(bytes) {
            Ok(serde_bank) => {
                self.import_bank_from_serde(serde_bank);
                Ok(())
            },
            Err(error) => Err(error),
        }
    }

    /// Reads the current patch from its byte form and records that
    /// everything has changed. Bytes that are no patch change nothing.
    pub fn import_bytes_into_current_patch(&mut self, bytes: &[u8])
        requires
            old(self).well_formed(),
        ensures
            match parsed_patch(bytes@) {
                Ok(patch) => {
                    &&& final(self).well_formed()
                    &&& final(self).index() == old(self).index()
                    &&& final(self).changed()
                    &&& final(self).all_marked()
                    &&& final(self).defaults() == old(self).defaults()
                    &&& final(self).patches()[old(self).index()]@ == imported(
                        old(self).defaults(),
                        patch,
                    )
                    &&& forall|i: int|
                        0 <= i < NUM_PATCHES && i != old(self).index() ==> (#[trigger] final(self).patches()[i])
                            == old(self).patches()[i]
                },
                Err(_) => *final(self) == *old(self),
            },
    {
        if self.patches[self.patch_index].import_bytes(bytes) {
            self.mark_parameters_as_changed();
            self.patches_changed = true;
        } else {
            assert(self.patches =~= old(self).patches);
        }
    }

    /// The byte form of the bank.
    pub fn export_bank_as_bytes(&self) -> (bytes: Vec<u8>)
        requires
            self.well_formed(),
        ensures
            bytes@ == bank_bytes(bank_data(self.patches())),
    {
        let serde_bank = SerdePatchBank::new(self);
        proof {
            assert(patch_data(serde_bank.patches@).len() == bank_data(self.patches()).len());
            assert forall|i: int| 0 <= i < serde_bank.patches@.len() implies is_ascii_text(
                (#[trigger] serde_bank.patches@[i]).name@,
            ) by {
                assert(patch_data(serde_bank.patches@)[i] == bank_data(self.patches())[i]);
                assert(self.patches()[i].well_formed());
            }
        }
        let mut bytes: Vec<u8> = Vec::new();
        match serde_bank.to_bytes() {
            Ok(written) => {
                bytes = written;
            },
            Err(_) => {},
        }
        bytes
    }

    /// The byte form of the current patch.
    pub fn export_current_patch_bytes(&self) -> (bytes: Vec<u8>)
        requires
            self.well_formed(),
        ensures
            bytes@ == patch_bytes(self.patches()[self.index()]@),
    {
        self.patches[self.patch_index].export_bytes()
    }

    /// A bank read from its byte form, with the given values for cleared
    /// patches.
    pub fn new_from_bytes(defaults: Vec<u32>, bytes: &[u8]) -> (bank: Self)
        requires
            defaults@.len() <= MAX_NUM_PARAMETERS,
            parsed_bank(bytes@).is_ok(),
        ensures
            bank.well_formed(),
            bank.index() == 0,
            bank.changed(),
            bank.all_marked(),
            bank.defaults() == defaults@,
            forall|i: int|
                0 <= i < NUM_PATCHES ==> (#[trigger] bank.patches()[i])@ == imported_at(
                    defaults@,
                    parsed_bank(bytes@).unwrap(),
                    i,
                ),
    {
        let mut bank = Self::new(defaults);
        let _ = bank.import_bank_from_bytes(bytes);
        bank
    }
}

/// A bank that is written out and read into a bank with as many parameters
/// holds the same names and values as the bank written: what is read from
/// the byte form are the patches written, and each patch takes over its
/// name and all its values.
pub proof fn lemma_bank_round_trip(written: Seq<PatchData>, defaults: Seq<u32>)
    requires
        written.len() == NUM_PATCHES,
        forall|i: int| 0 <= i < NUM_PATCHES ==> encodable(#[trigger] written[i]),
        forall|i: int| 0 <= i < NUM_PATCHES ==> (#[trigger] written[i]).values.len() == defaults.len(),
    ensures
        parsed_bank(bank_bytes(written)) == Ok::<Seq<PatchData>, PatchDecodeError>(written),
        forall|i: int|
            0 <= i < NUM_PATCHES ==> #[trigger] imported_at(defaults, written, i) == written[i],
{
    lemma_bank_bytes_parse(written);
    assert forall|i: int| 0 <= i < NUM_PATCHES implies #[trigger] imported_at(
        defaults,
        written,
        i,
    ) == written[i] by {
        assert(encodable(written[i]));
        lemma_ascii_only_keeps_ascii(written[i].name);
        assert(merged(defaults, written[i].values) =~= written[i].values);
    }
}

/// A patch that is written out and read into a patch with as many
/// parameters holds the same name and values as the patch written.
pub proof fn lemma_patch_round_trip_import(written: PatchData, defaults: Seq<u32>)
    requires
        encodable(written),
        written.values.len() == defaults.len(),
    ensures
        parsed_patch(patch_bytes(written)) == Ok::<PatchData, PatchDecodeError>(written),
        imported(defaults, written) == written,
{
    lemma_patch_bytes_parse(written);
    lemma_ascii_only_keeps_ascii(written.name);
    assert(merged(defaults, written.values) =~= written.values);
}

/// A patch that is read in where the file lacks values takes the defaults
/// for them, and ignores what the file holds beyond its parameters.
pub proof fn lemma_import_fills_and_ignores(defaults: Seq<u32>, read: PatchData, i: int)
    requires
        0 <= i < defaults.len(),
    ensures
        imported(defaults, read).values.len() == defaults.len(),
        i < read.values.len() ==> imported(defaults, read).values[i] == read.values[i],
        i >= read.values.len() ==> imported(defaults, read).values[i] == defaults[i],
{
}

} // verus!
