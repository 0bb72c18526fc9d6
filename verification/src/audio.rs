//! MIDI events on their way to the voices: decoding, ordering by the frame
//! at which each is due, and delivery frame by frame.

use vstd::prelude::*;
use std::collections::VecDeque;
use crate::arrays::array_from_fn;
use crate::voices::Voice;

verus! {

/// A three-byte channel voice message and the frame of the current buffer
/// at which it is due.
#[derive(Debug, Copy, Clone, PartialEq, Eq)]
pub struct MidiEvent {
    pub data: [u8; 3],
    pub delta_frames: i32,
}

/// What a MIDI message asks of the voices.
#[derive(Debug, Copy, Clone, PartialEq, Eq, Structural)]
pub enum NoteAction {
    KeyOn { pitch: u8, velocity: u8 },
    KeyOff { pitch: u8 },
    Ignored,
}

/// The action that a message stands for. The upper four bits of the first
/// byte select it and the channel in the lower four is ignored: eight
/// releases the key of the second byte, nine presses it with the velocity of
/// the third byte, or releases it where that velocity is zero.
pub open spec fn decoded(data: Seq<u8>) -> NoteAction {
    let status = data[0] / 16;
    if status == 8 {
        NoteAction::KeyOff { pitch: data[1] }
    } else if status == 9 {
        if data[2] == 0 {
            NoteAction::KeyOff { pitch: data[1] }
        } else {
            NoteAction::KeyOn { pitch: data[1], velocity: data[2] }
        }
    } else {
        NoteAction::Ignored
    }
}

/// Decodes a MIDI message.
pub fn decode_midi_event(event: MidiEvent) -> (action: NoteAction)
    ensures
        action == decoded(event.data@),
{
    let first: u8 = event.data[0];
    let status: u8 = first >> 4;
    assert(first >> 4 == first / 16) by (bit_vector);
    if status == 0b_1000 {
        NoteAction::KeyOff { pitch: event.data[1] }
    } else if status == 0b_1001 {
        if event.data[2] == 0 {
            NoteAction::KeyOff { pitch: event.data[1] }
        } else {
            NoteAction::KeyOn { pitch: event.data[1], velocity: event.data[2] }
        }
    } else {
        NoteAction::Ignored
    }
}

/// Whether the events stand in the order of their frames.
pub open spec fn sorted_by_frame(events: Seq<MidiEvent>) -> bool {
    forall|i: int, j: int|
        0 <= i < j < events.len() ==> events[i].delta_frames <= events[j].delta_frames
}

/// The place at which an event due at `delta_frames` enters the queue:
/// behind every event that is due no later.
pub open spec fn insert_position(events: Seq<MidiEvent>, delta_frames: i32) -> int
    decreases events.len(),
{
    if events.len() == 0 {
        0
    } else if events.last().delta_frames <= delta_frames {
        events.len() as int
    } else {
        insert_position(events.drop_last(), delta_frames)
    }
}

/// The queue after one event has entered it.
pub open spec fn with_event(events: Seq<MidiEvent>, event: MidiEvent) -> Seq<MidiEvent> {
    events.insert(insert_position(events, event.delta_frames), event)
}

/// The queue after the first `n` of the new events have entered it, one
/// after the other.
pub open spec fn with_events(events: Seq<MidiEvent>, new: Seq<MidiEvent>, n: int) -> Seq<
    MidiEvent,
>
    decreases n,
{
    if n <= 0 {
        events
    } else {
        with_event(with_events(events, new, n - 1), new[n - 1])
    }
}

/// The events that are due at the given frame, in the order in which they
/// stand.
pub open spec fn due_at(events: Seq<MidiEvent>, frame: int) -> Seq<MidiEvent>
    decreases events.len(),
{
    if events.len() == 0 {
        Seq::empty()
    } else if events.last().delta_frames == frame {
        due_at(events.drop_last(), frame).push(events.last())
    } else {
        due_at(events.drop_last(), frame)
    }
}

/// In a sorted queue the events before the place of insertion are due no
/// later than the given frame, and those behind it are due later.
pub proof fn lemma_insert_position(events: Seq<MidiEvent>, delta_frames: i32)
    requires
        sorted_by_frame(events),
    ensures
        0 <= insert_position(events, delta_frames) <= events.len(),
        forall|i: int|
            0 <= i < insert_position(events, delta_frames) ==> (#[trigger] events[i]).delta_frames
                <= delta_frames,
        forall|i: int|
            insert_position(events, delta_frames) <= i < events.len() ==> (
            #[trigger] events[i]).delta_frames > delta_frames,
    decreases events.len(),
{
    if events.len() > 0 && events.last().delta_frames > delta_frames {
        lemma_insert_position(events.drop_last(), delta_frames);
        let position = insert_position(events, delta_frames);
        assert forall|i: int| 0 <= i < position implies (#[trigger] events[i]).delta_frames
            <= delta_frames by {
            assert(events[i] == events.drop_last()[i]);
        }
        assert forall|i: int| position <= i < events.len() implies (
        #[trigger] events[i]).delta_frames > delta_frames by {
            if i < events.len() - 1 {
                assert(events[i] == events.drop_last()[i]);
            }
        }
    }
}

/// The events due at a frame, taken from two stretches joined, are those of
/// the first followed by those of the second.
pub proof fn lemma_due_at_joined(first: Seq<MidiEvent>, second: Seq<MidiEvent>, frame: int)
    ensures
        due_at(first + second, frame) == due_at(first, frame) + due_at(second, frame),
    decreases second.len(),
{
    if second.len() == 0 {
        assert(first + second =~= first);
        assert(due_at(first, frame) + due_at(second, frame) =~= due_at(first, frame));
    } else {
        lemma_due_at_joined(first, second.drop_last(), frame);
        assert((first + second).drop_last() =~= first + second.drop_last());
        assert((first + second).last() == second.last());
        if second.last().delta_frames == frame {
            assert((due_at(first, frame) + due_at(second.drop_last(), frame)).push(second.last())
                =~= due_at(first, frame) + due_at(second.drop_last(), frame).push(second.last()));
        }
    }
}

/// Where no event is due at a frame, none is found.
pub proof fn lemma_due_at_none(events: Seq<MidiEvent>, frame: int)
    requires
        forall|i: int| 0 <= i < events.len() ==> (#[trigger] events[i]).delta_frames != frame,
    ensures
        due_at(events, frame) == Seq::<MidiEvent>::empty(),
    decreases events.len(),
{
    if events.len() > 0 {
        assert(events.last() == events[events.len() - 1]);
        assert forall|i: int| 0 <= i < events.drop_last().len() implies (
        #[trigger] events.drop_last()[i]).delta_frames != frame by {
            assert(events.drop_last()[i] == events[i]);
        }
        lemma_due_at_none(events.drop_last(), frame);
    }
}

/// Where every event is due at the frame, all are found.
pub proof fn lemma_due_at_all(events: Seq<MidiEvent>, frame: int)
    requires
        forall|i: int| 0 <= i < events.len() ==> (#[trigger] events[i]).delta_frames == frame,
    ensures
        due_at(events, frame) == events,
    decreases events.len(),
{
    if events.len() > 0 {
        assert(events.last() == events[events.len() - 1]);
        assert forall|i: int| 0 <= i < events.drop_last().len() implies (
        #[trigger] events.drop_last()[i]).delta_frames == frame by {
            assert(events.drop_last()[i] == events[i]);
        }
        lemma_due_at_all(events.drop_last(), frame);
        assert(events.drop_last().push(events.last()) =~= events);
    } else {
        assert(events =~= Seq::<MidiEvent>::empty());
    }
}

/// An event that enters a sorted queue leaves it sorted and one longer, and
/// comes last among the events due at its frame; the events due at any
/// other frame stay as they were.
pub proof fn lemma_with_event(events: Seq<MidiEvent>, event: MidiEvent, frame: int)
    requires
        sorted_by_frame(events),
    ensures
        sorted_by_frame(with_event(events, event)),
        with_event(events, event).len() == events.len() + 1,
        due_at(with_event(events, event), frame) == if event.delta_frames == frame {
            due_at(events, frame).push(event)
        } else {
            due_at(events, frame)
        },
{
    lemma_insert_position(events, event.delta_frames);
    let position = insert_position(events, event.delta_frames);
    let before = events.subrange(0, position);
    let behind = events.subrange(position, events.len() as int);
    let joined = with_event(events, event);
    assert(joined =~= before + seq![event] + behind);
    assert(events =~= before + behind);
    lemma_due_at_joined(before, behind, frame);
    lemma_due_at_joined(before + seq![event], behind, frame);
    lemma_due_at_joined(before, seq![event], frame);
    if event.delta_frames == frame {
        lemma_due_at_all(seq![event], frame);
        assert forall|i: int| 0 <= i < behind.len() implies (
        #[trigger] behind[i]).delta_frames != frame by {
            assert(behind[i] == events[position + i]);
        }
        lemma_due_at_none(behind, frame);
        assert(due_at(joined, frame) =~= due_at(events, frame).push(event));
    } else {
        lemma_due_at_none(seq![event], frame);
        assert(due_at(joined, frame) =~= due_at(events, frame));
    }
    assert forall|i: int, j: int| 0 <= i < j < joined.len() implies joined[i].delta_frames
        <= joined[j].delta_frames by {
        if i < position {
            assert(joined[i] == events[i]);
        } else if i > position {
            assert(joined[i] == events[i - 1]);
        }
        if j < position {
            assert(joined[j] == events[j]);
        } else if j > position {
            assert(joined[j] == events[j - 1]);
        }
    }
}

/// New events that enter a sorted queue leave it sorted; the events due at
/// any frame are those that were waiting, followed by the new ones due at
/// that frame, each group in the order in which it came.
pub proof fn lemma_with_events(events: Seq<MidiEvent>, new: Seq<MidiEvent>, n: int, frame: int)
    requires
        sorted_by_frame(events),
        0 <= n <= new.len(),
    ensures
        sorted_by_frame(with_events(events, new, n)),
        with_events(events, new, n).len() == events.len() + n,
        due_at(with_events(events, new, n), frame) == due_at(events, frame) + due_at(
            new.subrange(0, n),
            frame,
        ),
    decreases n,
{
    if n == 0 {
        assert(new.subrange(0, 0) =~= Seq::<MidiEvent>::empty());
        assert(due_at(events, frame) + due_at(new.subrange(0, 0), frame) =~= due_at(
            events,
            frame,
        ));
    } else {
        lemma_with_events(events, new, n - 1, frame);
        lemma_with_event(with_events(events, new, n - 1), new[n - 1], frame);
        let taken = new.subrange(0, n);
        assert(taken.drop_last() =~= new.subrange(0, n - 1));
        assert(taken.last() == new[n - 1]);
        if new[n - 1].delta_frames == frame {
            assert((due_at(events, frame) + due_at(new.subrange(0, n - 1), frame)).push(new[n - 1])
                =~= due_at(events, frame) + due_at(new.subrange(0, n - 1), frame).push(
                new[n - 1],
            ));
        }
    }
}

/// The voices after an action was carried out. There is a voice for each
/// of the 128 MIDI pitches: a key with another pitch moves none of them.
pub open spec fn after_action(voices: Seq<Voice>, action: NoteAction) -> Seq<Voice> {
    match action {
        NoteAction::KeyOn { pitch, velocity } => if pitch < 128 {
            voices.update(pitch as int, voices[pitch as int].pressed(velocity))
        } else {
            voices
        },
        NoteAction::KeyOff { pitch } => if pitch < 128 {
            voices.update(pitch as int, voices[pitch as int].released())
        } else {
            voices
        },
        NoteAction::Ignored => voices,
    }
}

/// An action moves the voice of its pitch and no other.
pub proof fn lemma_action_moves_one_voice(voices: Seq<Voice>, action: NoteAction, other: int)
    requires
        voices.len() == 128,
        0 <= other < 128,
        match action {
            NoteAction::KeyOn { pitch, .. } => pitch != other,
            NoteAction::KeyOff { pitch } => pitch != other,
            NoteAction::Ignored => true,
        },
    ensures
        after_action(voices, action).len() == 128,
        after_action(voices, action)[other] == voices[other],
{
}

/// The voices after the first `n` events were delivered in order.
pub open spec fn after_events(voices: Seq<Voice>, events: Seq<MidiEvent>, n: int) -> Seq<Voice>
    decreases n,
{
    if n <= 0 {
        voices
    } else {
        after_action(after_events(voices, events, n - 1), decoded(events[n - 1].data@))
    }
}

/// The number of events at the head of the queue that are due at the given
/// frame.
pub open spec fn due_count(events: Seq<MidiEvent>, frame: int) -> int
    decreases events.len(),
{
    if events.len() == 0 || events[0].delta_frames != frame {
        0
    } else {
        1 + due_count(events.drop_first(), frame)
    }
}

/// The events that are delivered at a frame are at the head of the queue
/// and all due at that frame, and the event behind them is not.
pub proof fn lemma_due_count(events: Seq<MidiEvent>, frame: int)
    ensures
        0 <= due_count(events, frame) <= events.len(),
        forall|i: int|
            0 <= i < due_count(events, frame) ==> (#[trigger] events[i]).delta_frames == frame,
        due_count(events, frame) < events.len() ==> events[due_count(
            events,
            frame,
        )].delta_frames != frame,
    decreases events.len(),
{
    if events.len() > 0 && events[0].delta_frames == frame {
        lemma_due_count(events.drop_first(), frame);
        assert forall|i: int| 0 <= i < due_count(events, frame) implies (
        #[trigger] events[i]).delta_frames == frame by {
            if i > 0 {
                assert(events[i] == events.drop_first()[i - 1]);
            }
        }
        let n = due_count(events.drop_first(), frame);
        if n + 1 < events.len() {
            assert(events[n + 1] == events.drop_first()[n]);
        }
    }
}

/// Where the queue is sorted and none of its events is overdue, delivery at
/// a frame takes out every event that is due at it, and no other.
pub proof fn lemma_delivery_is_complete(events: Seq<MidiEvent>, frame: int)
    requires
        sorted_by_frame(events),
        forall|i: int| 0 <= i < events.len() ==> (#[trigger] events[i]).delta_frames >= frame,
    ensures
        0 <= due_count(events, frame) <= events.len(),
        events.subrange(0, due_count(events, frame)) == due_at(events, frame),
        due_at(events.subrange(due_count(events, frame), events.len() as int), frame)
            == Seq::<MidiEvent>::empty(),
{
    lemma_due_count(events, frame);
    let n = due_count(events, frame);
    let head = events.subrange(0, n);
    let rest = events.subrange(n, events.len() as int);
    assert(events =~= head + rest);
    lemma_due_at_joined(head, rest, frame);
    assert forall|i: int| 0 <= i < rest.len() implies (#[trigger] rest[i]).delta_frames
        != frame by {
        assert(rest[i] == events[n + i]);
        assert(events[n].delta_frames > frame);
    }
    lemma_due_at_none(rest, frame);
    assert forall|i: int| 0 <= i < head.len() implies (#[trigger] head[i]).delta_frames
        == frame by {
        assert(head[i] == events[i]);
    }
    lemma_due_at_all(head, frame);
    assert(due_at(head, frame) + due_at(rest, frame) =~= head);
}

/// The voices at rest, one per pitch.
fn init_voices() -> (voices: [Voice; 128])
    ensures
        forall|i: int| 0 <= i < 128 ==> #[trigger] voices@[i] == Voice::fresh(i as u8),
{
    let at_rest = |i: usize| -> (voice: Voice)
        requires
            128 > i,
        ensures
            voice == Voice::fresh(i as u8),
        { Voice::new(i as u8) };
    let voices: [Voice; 128] = array_from_fn(at_rest);
    assert forall|i: int| 0 <= i < 128 implies #[trigger] voices@[i] == Voice::fresh(i as u8) by {
        let index = i as usize;
        assert(voices@[index as int] == Voice::fresh(index as u8));
    }
    voices
}

/// The voices and the MIDI events that wait for them.
pub struct AudioState {
    voices: [Voice; 128],
    pending_midi_events: VecDeque<MidiEvent>,
}

impl AudioState {
    /// The voices, by pitch.
    pub closed spec fn voices(&self) -> Seq<Voice> {
        self.voices@
    }

    /// The events that wait, first to be delivered first.
    pub closed spec fn pending(&self) -> Seq<MidiEvent> {
        self.pending_midi_events@
    }

    /// There is a voice for each pitch, and the events wait in the order of
    /// their frames.
    pub open spec fn well_formed(&self) -> bool {
        &&& self.voices().len() == 128
        &&& forall|i: int| 0 <= i < 128 ==> (#[trigger] self.voices()[i]).midi_pitch == i
        &&& sorted_by_frame(self.pending())
    }

    /// Every voice at rest and no event waiting.
    pub fn new() -> (state: Self)
        ensures
            state.well_formed(),
            state.pending().len() == 0,
            forall|i: int| 0 <= i < 128 ==> #[trigger] state.voices()[i] == Voice::fresh(i as u8),
    {
        AudioState { voices: init_voices(), pending_midi_events: VecDeque::with_capacity(128) }
    }

    /// The voice of a pitch.
    pub fn voice(&self, pitch: u8) -> (voice: Voice)
        requires
            pitch < 128,
            self.well_formed(),
        ensures
            voice == self.voices()[pitch as int],
    {
        self.voices[pitch as usize]
    }

    /// The number of events that wait.
    pub fn num_pending_events(&self) -> (n: usize)
        ensures
            n == self.pending().len(),
    {
        self.pending_midi_events.len()
    }

    /// The event at a place in the queue.
    pub fn pending_event(&self, index: usize) -> (event: MidiEvent)
        requires
            index < self.pending().len(),
        ensures
            event == self.pending()[index as int],
    {
        self.pending_midi_events[index]
    }

    /// Takes in new events. Each enters the queue behind the events that are
    /// due no later than it is: the queue stays in the order of the frames,
    /// and the events due at one frame stay in the order in which they came.
    pub fn enqueue_midi_events(&mut self, events: Vec<MidiEvent>)
        requires
            old(self).well_formed(),
            old(self).pending().len() + events@.len() <= usize::MAX,
        ensures
            final(self).well_formed(),
            final(self).voices() == old(self).voices(),
            final(self).pending() == with_events(
                old(self).pending(),
                events@,
                events@.len() as int,
            ),
            final(self).pending().len() == old(self).pending().len() + events@.len(),
            forall|frame: int| #[trigger]
                due_at(final(self).pending(), frame) == due_at(old(self).pending(), frame) + due_at(
                    events@,
                    frame,
                ),
    {
        proof {
            assert(events@.subrange(0, events@.len() as int) =~= events@);
            assert forall|frame: int| #[trigger]
                due_at(with_events(old(self).pending(), events@, events@.len() as int), frame)
                    == due_at(old(self).pending(), frame) + due_at(events@, frame) by {
                lemma_with_events(old(self).pending(), events@, events@.len() as int, frame);
            }
        }
        let mut taken: usize = 0;
        while taken < events.len()
            invariant
                taken <= events@.len(),
                self.well_formed(),
                self.voices() == old(self).voices(),
                self.pending() == with_events(old(self).pending(), events@, taken as int),
                self.pending().len() == old(self).pending().len() + taken,
                old(self).pending().len() + events@.len() <= usize::MAX,
            decreases events@.len() - taken,
        {
            let event = events[taken];
            let ghost before = self.pending();
            let mut position: usize = self.pending_midi_events.len();
            assert(before.subrange(0, position as int) =~= before);
            while position > 0 && self.pending_midi_events[position - 1].delta_frames
                > event.delta_frames
                invariant
                    position <= before.len(),
                    before == self.pending_midi_events@,
                    insert_position(before, event.delta_frames) == insert_position(
                        before.subrange(0, position as int),
                        event.delta_frames,
                    ),
                decreases position,
            {
                proof {
                    let head = before.subrange(0, position as int);
                    assert(head.last() == before[position - 1]);
                    assert(head.drop_last() =~= before.subrange(0, position - 1));
                }
                position -= 1;
            }
            proof {
                let head = before.subrange(0, position as int);
                if position > 0 {
                    assert(head.last() == before[position - 1]);
                }
                assert(insert_position(head, event.delta_frames) == position);
                lemma_with_event(before, event, 0);
            }
            self.pending_midi_events.insert(position, event);
            taken += 1;
        }
    }
}

impl AudioState {
    /// Presses the key of a pitch. A pitch without a voice moves nothing.
    pub fn key_on(&mut self, pitch: u8, velocity: u8)
        requires
            old(self).well_formed(),
        ensures
            final(self).well_formed(),
            final(self).pending() == old(self).pending(),
            final(self).voices() == after_action(
                old(self).voices(),
                NoteAction::KeyOn { pitch, velocity },
            ),
    {
        if pitch < 128 {
            let mut voice = self.voices[pitch as usize];
            voice.press_key(velocity);
            self.voices[pitch as usize] = voice;
        }
    }

    /// Releases the key of a pitch. A pitch without a voice moves nothing.
    pub fn key_off(&mut self, pitch: u8)
        requires
            old(self).well_formed(),
        ensures
            final(self).well_formed(),
            final(self).pending() == old(self).pending(),
            final(self).voices() == after_action(old(self).voices(), NoteAction::KeyOff { pitch }),
    {
        if pitch < 128 {
            let mut voice = self.voices[pitch as usize];
            voice.release_key();
            self.voices[pitch as usize] = voice;
        }
    }

    /// Carries out what one event asks. Any three bytes are taken: what is
    /// no note message, or names a pitch without a voice, moves nothing.
    pub fn process_midi_event(&mut self, event: MidiEvent)
        requires
            old(self).well_formed(),
        ensures
            final(self).well_formed(),
            final(self).pending() == old(self).pending(),
            final(self).voices() == after_action(old(self).voices(), decoded(event.data@)),
    {
        match decode_midi_event(event) {
            NoteAction::KeyOff { pitch } => self.key_off(pitch),
            NoteAction::KeyOn { pitch, velocity } => self.key_on(pitch, velocity),
            NoteAction::Ignored => (),
        }
    }

    /// Delivers the events at the head of the queue that are due at the
    /// given frame of the buffer, in order, and takes them out of the queue.
    pub fn process_events_for_sample(&mut self, buffer_offset: usize)
        requires
            old(self).well_formed(),
        ensures
            final(self).well_formed(),
            final(self).pending() == old(self).pending().subrange(
                due_count(old(self).pending(), buffer_offset as int),
                old(self).pending().len() as int,
            ),
            final(self).voices() == after_events(
                old(self).voices(),
                old(self).pending(),
                due_count(old(self).pending(), buffer_offset as int),
            ),
    {
        let ghost all = self.pending();
        let ghost frame = buffer_offset as int;
        let ghost mut delivered: int = 0;
        proof {
            lemma_due_count(all, frame);
            assert(all.subrange(0, all.len() as int) =~= all);
        }
        loop
            invariant
                self.well_formed(),
                all == old(self).pending(),
                frame == buffer_offset as int,
                0 <= delivered <= all.len(),
                self.pending() == all.subrange(delivered, all.len() as int),
                self.voices() == after_events(old(self).voices(), all, delivered),
                due_count(all, frame) == delivered + due_count(self.pending(), frame),
            ensures
                self.well_formed(),
                self.pending() == all.subrange(delivered, all.len() as int),
                self.voices() == after_events(old(self).voices(), all, delivered),
                due_count(all, frame) == delivered,
            decreases all.len() - delivered,
        {
            if self.pending_midi_events.len() == 0 {
                break ;
            }
            let head = self.pending_midi_events[0];
            let due = head.delta_frames >= 0 && head.delta_frames as usize == buffer_offset;
            if !due {
                break ;
            }
            let ghost waiting = self.pending();
            let event = self.pending_midi_events.pop_front().unwrap();
            proof {
                assert(event == all[delivered]);
                assert(waiting.drop_first() =~= self.pending());
                assert(self.pending() =~= all.subrange(delivered + 1, all.len() as int));
                assert forall|i: int, j: int| 0 <= i < j < self.pending().len() implies self.pending()[i].delta_frames
                    <= self.pending()[j].delta_frames by {
                    assert(self.pending()[i] == waiting[i + 1]);
                    assert(self.pending()[j] == waiting[j + 1]);
                }
            }
            self.process_midi_event(event);
            proof {
                delivered = delivered + 1;
            }
        }
    }
}

/// The pitches below `n` whose voice is active, in rising order.
pub open spec fn active_pitches_below(voices: Seq<Voice>, n: int) -> Seq<u8>
    decreases n,
{
    if n <= 0 {
        Seq::empty()
    } else if voices[n - 1].active {
        active_pitches_below(voices, n - 1).push((n - 1) as u8)
    } else {
        active_pitches_below(voices, n - 1)
    }
}

impl AudioState {
    /// The pitches whose voice contributes to the output, in rising order.
    /// A voice at rest is skipped entirely.
    pub fn active_pitches(&self) -> (pitches: Vec<u8>)
        requires
            self.well_formed(),
        ensures
            pitches@ == active_pitches_below(self.voices(), 128),
    {
        let mut pitches: Vec<u8> = Vec::new();
        let mut pitch: u8 = 0;
        while pitch < 128
            invariant
                pitch <= 128,
                self.well_formed(),
                pitches@ == active_pitches_below(self.voices(), pitch as int),
            decreases 128 - pitch,
        {
            if self.voices[pitch as usize].active {
                pitches.push(pitch);
            }
            pitch += 1;
        }
        pitches
    }

    /// Advances the envelope of one operator of a voice by one step.
    pub fn advance_envelope(&mut self, pitch: u8, operator_index: usize, stage_complete: bool)
        requires
            old(self).well_formed(),
            pitch < 128,
            operator_index < 4,
        ensures
            final(self).well_formed(),
            final(self).pending() == old(self).pending(),
            final(self).voices().len() == 128,
            forall|i: int|
                0 <= i < 128 && i != pitch ==> #[trigger] final(self).voices()[i] == old(
                    self,
                ).voices()[i],
            final(self).voices()[pitch as int].stages@ == old(self).voices()[pitch as int].stages@.update(
                operator_index as int,
                crate::voices::next_stage(
                    old(self).voices()[pitch as int].stages@[operator_index as int],
                    old(self).voices()[pitch as int].key_pressed,
                    stage_complete,
                ),
            ),
            final(self).voices()[pitch as int].active == old(self).voices()[pitch as int].active,
            final(self).voices()[pitch as int].key_pressed == old(
                self,
            ).voices()[pitch as int].key_pressed,
            final(self).voices()[pitch as int].key_velocity == old(
                self,
            ).voices()[pitch as int].key_velocity,
    {
        let mut voice = self.voices[pitch as usize];
        voice.advance_operator(operator_index, stage_complete);
        self.voices[pitch as usize] = voice;
    }

    /// Puts the voice of a pitch to rest once all its envelopes have ended.
    pub fn deactivate_if_envelopes_ended(&mut self, pitch: u8)
        requires
            old(self).well_formed(),
            pitch < 128,
        ensures
            final(self).well_formed(),
            final(self).pending() == old(self).pending(),
            final(self).voices().len() == 128,
            forall|i: int|
                0 <= i < 128 && i != pitch ==> #[trigger] final(self).voices()[i] == old(
                    self,
                ).voices()[i],
            final(self).voices()[pitch as int].active == (old(self).voices()[pitch as int].active
                && !old(self).voices()[pitch as int].envelopes_ended()),
            final(self).voices()[pitch as int].stages == old(self).voices()[pitch as int].stages,
            final(self).voices()[pitch as int].key_pressed == old(
                self,
            ).voices()[pitch as int].key_pressed,
            final(self).voices()[pitch as int].key_velocity == old(
                self,
            ).voices()[pitch as int].key_velocity,
    {
        let mut voice = self.voices[pitch as usize];
        voice.deactivate_if_envelopes_ended();
        self.voices[pitch as usize] = voice;
    }
}

} // verus!
