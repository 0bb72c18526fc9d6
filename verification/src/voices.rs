//! The life cycle of a voice: which keys sound, and which stage the volume
//! envelope of each of its operators is in.

use vstd::prelude::*;
use crate::common::EnvelopeStage;

verus! {

/// The stage that follows `stage` after one step. `stage_complete` tells
/// whether the time that the stage lasts has passed since it began.
///
/// An ended envelope stays ended. A released key sends every running stage
/// to the release, which ends once complete. While the key is held, the
/// attack is followed by the decay, the decay by the sustain, which lasts,
/// and a restart by a new attack.
pub open spec fn next_stage(
    stage: EnvelopeStage,
    key_pressed: bool,
    stage_complete: bool,
) -> EnvelopeStage {
    match stage {
        EnvelopeStage::Ended => EnvelopeStage::Ended,
        EnvelopeStage::Release => if stage_complete {
            EnvelopeStage::Ended
        } else {
            EnvelopeStage::Release
        },
        EnvelopeStage::Attack => if !key_pressed {
            EnvelopeStage::Release
        } else if stage_complete {
            EnvelopeStage::Decay
        } else {
            EnvelopeStage::Attack
        },
        EnvelopeStage::Decay => if !key_pressed {
            EnvelopeStage::Release
        } else if stage_complete {
            EnvelopeStage::Sustain
        } else {
            EnvelopeStage::Decay
        },
        EnvelopeStage::Sustain => if !key_pressed {
            EnvelopeStage::Release
        } else {
            EnvelopeStage::Sustain
        },
        EnvelopeStage::Restart => if !key_pressed {
            EnvelopeStage::Release
        } else if stage_complete {
            EnvelopeStage::Attack
        } else {
            EnvelopeStage::Restart
        },
    }
}

/// Advances an envelope stage by one step.
pub fn advance_stage(stage: EnvelopeStage, key_pressed: bool, stage_complete: bool) -> (next:
    EnvelopeStage)
    ensures
        next == next_stage(stage, key_pressed, stage_complete),
{
    match stage {
        EnvelopeStage::Ended => EnvelopeStage::Ended,
        EnvelopeStage::Release => if stage_complete {
            EnvelopeStage::Ended
        } else {
            EnvelopeStage::Release
        },
        EnvelopeStage::Attack => if !key_pressed {
            EnvelopeStage::Release
        } else if stage_complete {
            EnvelopeStage::Decay
        } else {
            EnvelopeStage::Attack
        },
        EnvelopeStage::Decay => if !key_pressed {
            EnvelopeStage::Release
        } else if stage_complete {
            EnvelopeStage::Sustain
        } else {
            EnvelopeStage::Decay
        },
        EnvelopeStage::Sustain => if !key_pressed {
            EnvelopeStage::Release
        } else {
            EnvelopeStage::Sustain
        },
        EnvelopeStage::Restart => if !key_pressed {
            EnvelopeStage::Release
        } else if stage_complete {
            EnvelopeStage::Attack
        } else {
            EnvelopeStage::Restart
        },
    }
}

/// How far an envelope has come on its way to the end, as long as the key
/// is not pressed anew: the release counts one, the end two.
pub open spec fn stage_rank(stage: EnvelopeStage) -> int {
    match stage {
        EnvelopeStage::Ended => 2,
        EnvelopeStage::Release => 1,
        _ => 0,
    }
}

/// An envelope never leaves the end, and never goes back from the release
/// to an earlier stage: until the key is pressed anew its way to the end is
/// monotonic.
pub proof fn lemma_stage_progress(stage: EnvelopeStage, key_pressed: bool, stage_complete: bool)
    ensures
        stage_rank(next_stage(stage, key_pressed, stage_complete)) >= stage_rank(stage),
        stage == EnvelopeStage::Ended ==> next_stage(stage, key_pressed, stage_complete)
            == EnvelopeStage::Ended,
{
}

/// Once the key is released, an envelope is in its release or has ended
/// after one step, and has ended one step after its release is complete.
pub proof fn lemma_release_ends(stage: EnvelopeStage, stage_complete: bool)
    ensures
        stage_rank(next_stage(stage, false, stage_complete)) >= 1,
        next_stage(next_stage(stage, false, stage_complete), false, true) == EnvelopeStage::Ended,
{
}

/// What is counted, not measured, of one voice.
#[derive(Debug, Copy, Clone, PartialEq, Eq)]
pub struct Voice {
    /// The pitch that this voice sounds.
    pub midi_pitch: u8,
    /// Whether the voice contributes to the output.
    pub active: bool,
    /// Whether its key is held down.
    pub key_pressed: bool,
    /// The velocity of the last key press, as received.
    pub key_velocity: u8,
    /// The envelope stage of each operator.
    pub stages: [EnvelopeStage; 4],
}

impl Voice {
    /// The voice as it is before any key was pressed.
    pub open spec fn fresh(midi_pitch: u8) -> Voice {
        Voice {
            midi_pitch,
            active: false,
            key_pressed: false,
            key_velocity: 0,
            stages: [
                EnvelopeStage::Ended,
                EnvelopeStage::Ended,
                EnvelopeStage::Ended,
                EnvelopeStage::Ended,
            ],
        }
    }

    /// Whether every envelope of the voice has ended.
    pub open spec fn envelopes_ended(self) -> bool {
        forall|i: int| 0 <= i < 4 ==> self.stages@[i] == EnvelopeStage::Ended
    }

    /// The stage in which an envelope starts when the key is pressed: the
    /// attack for a voice at rest, a restart for one that still sounds.
    pub open spec fn entry_stage(self) -> EnvelopeStage {
        if self.active {
            EnvelopeStage::Restart
        } else {
            EnvelopeStage::Attack
        }
    }

    /// The voice after its key was pressed.
    pub open spec fn pressed(self, velocity: u8) -> Voice {
        Voice {
            midi_pitch: self.midi_pitch,
            active: true,
            key_pressed: true,
            key_velocity: velocity,
            stages: [
                self.entry_stage(),
                self.entry_stage(),
                self.entry_stage(),
                self.entry_stage(),
            ],
        }
    }

    /// The stage of an envelope after the key was released.
    pub open spec fn released_stage(stage: EnvelopeStage) -> EnvelopeStage {
        match stage {
            EnvelopeStage::Ended => EnvelopeStage::Ended,
            _ => EnvelopeStage::Release,
        }
    }

    /// The voice after its key was released.
    pub open spec fn released(self) -> Voice {
        Voice {
            midi_pitch: self.midi_pitch,
            active: self.active,
            key_pressed: false,
            key_velocity: self.key_velocity,
            stages: [
                Self::released_stage(self.stages@[0]),
                Self::released_stage(self.stages@[1]),
                Self::released_stage(self.stages@[2]),
                Self::released_stage(self.stages@[3]),
            ],
        }
    }

    /// The stage of operator `i` after the envelope of one operator was
    /// advanced by one step.
    pub open spec fn advanced_stage(self, i: int, operator_index: int, stage_complete: bool)
        -> EnvelopeStage {
        if i == operator_index {
            next_stage(self.stages@[i], self.key_pressed, stage_complete)
        } else {
            self.stages@[i]
        }
    }

    /// The voice after the envelope of one operator was advanced by one
    /// step.
    pub open spec fn advanced(self, operator_index: int, stage_complete: bool) -> Voice {
        Voice {
            midi_pitch: self.midi_pitch,
            active: self.active,
            key_pressed: self.key_pressed,
            key_velocity: self.key_velocity,
            stages: [
                self.advanced_stage(0, operator_index, stage_complete),
                self.advanced_stage(1, operator_index, stage_complete),
                self.advanced_stage(2, operator_index, stage_complete),
                self.advanced_stage(3, operator_index, stage_complete),
            ],
        }
    }

    /// The voice after it was put to rest if every envelope has ended.
    pub open spec fn settled(self) -> Voice {
        Voice {
            midi_pitch: self.midi_pitch,
            active: self.active && !self.envelopes_ended(),
            key_pressed: self.key_pressed,
            key_velocity: self.key_velocity,
            stages: self.stages,
        }
    }

    pub fn new(midi_pitch: u8) -> (voice: Self)
        ensures
            voice == Self::fresh(midi_pitch),
    {
        Voice {
            midi_pitch,
            active: false,
            key_pressed: false,
            key_velocity: 0,
            stages: [
                EnvelopeStage::Ended,
                EnvelopeStage::Ended,
                EnvelopeStage::Ended,
                EnvelopeStage::Ended,
            ],
        }
    }

    /// Starts the voice: every envelope enters its attack, or a restart if
    /// the voice still sounds.
    pub fn press_key(&mut self, velocity: u8)
        ensures
            *final(self) == old(self).pressed(velocity),
    {
        let stage = if self.active {
            EnvelopeStage::Restart
        } else {
            EnvelopeStage::Attack
        };
        self.stages = [stage, stage, stage, stage];
        self.active = true;
        self.key_pressed = true;
        self.key_velocity = velocity;
    }

    /// Lets the key go: every envelope that has not ended enters its
    /// release.
    pub fn release_key(&mut self)
        ensures
            *final(self) == old(self).released(),
    {
        self.key_pressed = false;
        let mut i: usize = 0;
        while i < 4
            invariant
                i <= 4,
                self.midi_pitch == old(self).midi_pitch,
                self.active == old(self).active,
                self.key_velocity == old(self).key_velocity,
                !self.key_pressed,
                forall|j: int|
                    0 <= j < i ==> self.stages@[j] == Self::released_stage(old(self).stages@[j]),
                forall|j: int| i <= j < 4 ==> self.stages@[j] == old(self).stages@[j],
            decreases 4 - i,
        {
            let stage = match self.stages[i] {
                EnvelopeStage::Ended => EnvelopeStage::Ended,
                _ => EnvelopeStage::Release,
            };
            self.stages[i] = stage;
            i += 1;
        }
        assert(self.stages =~= old(self).released().stages);
    }

    /// Puts the voice to rest once every envelope has ended.
    pub fn deactivate_if_envelopes_ended(&mut self)
        ensures
            *final(self) == old(self).settled(),
            final(self).active == (old(self).active && !old(self).envelopes_ended()),
            final(self).midi_pitch == old(self).midi_pitch,
            final(self).key_pressed == old(self).key_pressed,
            final(self).key_velocity == old(self).key_velocity,
            final(self).stages == old(self).stages,
    {
        let mut all_ended = true;
        let mut i: usize = 0;
        while i < 4
            invariant
                i <= 4,
                *self == *old(self),
                all_ended == (forall|j: int|
                    0 <= j < i ==> self.stages@[j] == EnvelopeStage::Ended),
            decreases 4 - i,
        {
            match self.stages[i] {
                EnvelopeStage::Ended => {},
                _ => {
                    all_ended = false;
                },
            }
            i += 1;
        }
        if all_ended {
            self.active = false;
        }
    }

    /// Advances the envelope of one operator by one step.
    pub fn advance_operator(&mut self, operator_index: usize, stage_complete: bool)
        requires
            operator_index < 4,
        ensures
            *final(self) == old(self).advanced(operator_index as int, stage_complete),
            final(self).stages@ == old(self).stages@.update(
                operator_index as int,
                next_stage(
                    old(self).stages@[operator_index as int],
                    old(self).key_pressed,
                    stage_complete,
                ),
            ),
            final(self).active == old(self).active,
            final(self).midi_pitch == old(self).midi_pitch,
            final(self).key_pressed == old(self).key_pressed,
            final(self).key_velocity == old(self).key_velocity,
    {
        let next = advance_stage(self.stages[operator_index], self.key_pressed, stage_complete);
        self.stages[operator_index] = next;
        assert(self.stages =~= old(self).advanced(operator_index as int, stage_complete).stages);
    }
}

/// A note comes to rest. A voice whose key is pressed sounds. Once the key
/// is released, the voice still sounds while the release of one of its
/// envelopes is not complete; when the release of each envelope is complete,
/// every envelope has ended, and the voice is put to rest with its key up.
pub proof fn lemma_note_comes_to_rest(voice: Voice, velocity: u8)
    ensures
        ({
            let sounding = voice.pressed(velocity);
            let released = sounding.released();
            let ended = released.advanced(0, true).advanced(1, true).advanced(2, true).advanced(
                3,
                true,
            );
            &&& sounding.settled().active && sounding.key_pressed
            &&& released.active && !released.key_pressed
            &&& forall|operator_index: int|
                0 <= operator_index < 4 ==> (#[trigger] released.advanced(
                    operator_index,
                    false,
                )).settled().active
            &&& ended.envelopes_ended()
            &&& !ended.settled().active
            &&& !ended.settled().key_pressed
            &&& ended.settled().envelopes_ended()
            &&& ended.settled().midi_pitch == voice.midi_pitch
        }),
{
    let sounding = voice.pressed(velocity);
    let released = sounding.released();
    let first = released.advanced(0, true);
    let second = first.advanced(1, true);
    let third = second.advanced(2, true);
    let ended = third.advanced(3, true);
    assert(sounding.stages@[0] != EnvelopeStage::Ended);
    assert(released.stages@[0] == EnvelopeStage::Release);
    assert(released.stages@[1] == EnvelopeStage::Release);
    assert(released.stages@[2] == EnvelopeStage::Release);
    assert(released.stages@[3] == EnvelopeStage::Release);
    assert(first.stages@[0] == EnvelopeStage::Ended);
    assert(second.stages@[1] == EnvelopeStage::Ended && second.stages@[0] == EnvelopeStage::Ended);
    assert(third.stages@[2] == EnvelopeStage::Ended && third.stages@[1] == EnvelopeStage::Ended
        && third.stages@[0] == EnvelopeStage::Ended);
    assert(ended.stages@[3] == EnvelopeStage::Ended && ended.stages@[2] == EnvelopeStage::Ended
        && ended.stages@[1] == EnvelopeStage::Ended && ended.stages@[0] == EnvelopeStage::Ended);
    assert forall|operator_index: int| 0 <= operator_index < 4 implies (#[trigger] released.advanced(
        operator_index,
        false,
    )).settled().active by {
        let held = released.advanced(operator_index, false);
        assert(held.stages@[operator_index] == EnvelopeStage::Release);
    }
}

} // verus!
