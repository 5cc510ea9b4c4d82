//! Events as CLAP has them, and how they become the host's and back.
//!
//! CLAP states velocities as fractions of 1. Here a velocity is the number of
//! 127ths, which is what MIDI has.

use crate::events::{Event, EventBody, EventList, MidiData};
use crate::lv2::midi;
use vstd::prelude::*;

verus! {

/// The event space of CLAP itself.
pub const CLAP_CORE_EVENT_SPACE_ID: u16 = 0;

/// Note on.
pub const CLAP_EVENT_NOTE_ON: u16 = 0;

/// Note off.
pub const CLAP_EVENT_NOTE_OFF: u16 = 1;

/// Parameter value.
pub const CLAP_EVENT_PARAM_VALUE: u16 = 5;

/// MIDI message.
pub const CLAP_EVENT_MIDI: u16 = 10;

/// An event for a CLAP plugin.
#[derive(Clone, Copy, Debug, PartialEq, Eq)]
pub enum ClapEvent {
    /// A parameter changes.
    Param {
        /// Sample offset.
        time: u32,
        /// Parameter id.
        param_id: u32,
        /// Bit pattern of the double-precision value.
        value_bits: u64,
    },
    /// A note begins or ends.
    Note {
        /// Sample offset.
        time: u32,
        /// Event type.
        event_type: u16,
        /// Channel.
        channel: i16,
        /// Key.
        key: i16,
        /// Velocity in 127ths.
        velocity: u8,
    },
    /// A MIDI message.
    Midi {
        /// Sample offset.
        time: u32,
        /// The message.
        data: [u8; 3],
    },
}

/// The MIDI message with this status and these data bytes, at `time`.
pub open spec fn midi_event(time: u32, kind: int, channel: u8, d1: int, d2: int) -> ClapEvent {
    ClapEvent::Midi {
        time,
        data: [(kind + channel % 16) as u8, (d1 % 128) as u8, (d2 % 128) as u8],
    }
}

/// The CLAP event that a MIDI message becomes. Notes have events of their own;
/// raw bytes travel as MIDI where there are at least three of them.
pub open spec fn midi_to_clap(time: u32, midi: MidiData) -> Option<ClapEvent> {
    match midi {
        MidiData::NoteOn { channel, note, velocity } => Some(
            ClapEvent::Note {
                time,
                event_type: CLAP_EVENT_NOTE_ON,
                channel: channel as i16,
                key: note as i16,
                velocity,
            },
        ),
        MidiData::NoteOff { channel, note, velocity } => Some(
            ClapEvent::Note {
                time,
                event_type: CLAP_EVENT_NOTE_OFF,
                channel: channel as i16,
                key: note as i16,
                velocity,
            },
        ),
        MidiData::ControlChange { channel, controller, value } => Some(
            midi_event(time, 0xB0, channel, controller as int, value as int),
        ),
        MidiData::ProgramChange { channel, program } => Some(
            midi_event(time, 0xC0, channel, program as int, 0),
        ),
        MidiData::PolyAftertouch { channel, note, pressure } => Some(
            midi_event(time, 0xA0, channel, note as int, pressure as int),
        ),
        MidiData::ChannelAftertouch { channel, pressure } => Some(
            midi_event(time, 0xD0, channel, pressure as int, 0),
        ),
        MidiData::PitchBend { channel, value } => Some(
            midi_event(time, 0xE0, channel, value as int, value as int / 128),
        ),
        MidiData::Raw { len, data } => if len >= 3 {
            Some(ClapEvent::Midi { time, data: [data[0], data[1], data[2]] })
        } else {
            None
        },
    }
}

/// The CLAP event that an event becomes. Gestures and transport flags become
/// none.
pub open spec fn to_clap(event: Event) -> Option<ClapEvent> {
    match event.body {
        EventBody::Midi(midi) => midi_to_clap(event.sample_offset, midi),
        EventBody::ParamValue { param_id, value_bits } => Some(
            ClapEvent::Param { time: event.sample_offset, param_id, value_bits },
        ),
        EventBody::ParamGesture { .. } => None,
        EventBody::TransportFlag(_) => None,
    }
}

/// The CLAP events that a list of events becomes, in order.
pub open spec fn all_to_clap(events: Seq<Event>) -> Seq<ClapEvent>
    decreases events.len(),
{
    if events.len() == 0 {
        Seq::empty()
    } else {
        match to_clap(events.last()) {
            Some(e) => all_to_clap(events.drop_last()).push(e),
            None => all_to_clap(events.drop_last()),
        }
    }
}

fn make_midi_event(time: u32, kind: u8, channel: u8, d1: u8, d2: u8) -> (event: ClapEvent)
    requires
        kind <= 0xF0,
    ensures
        event == midi_event(time, kind as int, channel, d1 as int, d2 as int),
{
    let data: [u8; 3] = [kind + channel % 16, d1 % 128, d2 % 128];
    proof {
        let want: [u8; 3] = [
            (kind as int + channel % 16) as u8,
            (d1 as int % 128) as u8,
            (d2 as int % 128) as u8,
        ];
        assert(data@ =~= want@);
        assert(data == want);
    }
    ClapEvent::Midi { time, data }
}

/// The events of one block in CLAP's form.
pub struct ConvertedInputEvents {
    /// The events in order.
    pub events: Vec<ClapEvent>,
}

impl ConvertedInputEvents {
    /// The CLAP events that `list` becomes.
    #[must_use]
    pub fn from_rack_events(list: &EventList) -> (out: Self)
        ensures
            out.events@ == all_to_clap(list@),
    {
        let mut out = ConvertedInputEvents { events: Vec::new() };
        let events = list.as_slice();
        let mut i: usize = 0;
        while i < events.len()
            invariant
                i <= events.len(),
                events@ == list@,
                out.events@ == all_to_clap(events@.take(i as int)),
            decreases events.len() - i,
        {
            proof {
                assert(events@.take(i + 1).drop_last() =~= events@.take(i as int));
                assert(events@.take(i + 1).last() == events@[i as int]);
            }
            out.push_rack(&events[i]);
            i += 1;
        }
        assert(events@.take(i as int) =~= events@);
        out
    }

    /// Appends a parameter change.
    pub fn push_param_value(&mut self, time: u32, param_id: u32, value_bits: u64)
        ensures
            final(self).events@ == old(self).events@.push(
                (ClapEvent::Param { time, param_id, value_bits }),
            ),
    {
        self.events.push(ClapEvent::Param { time, param_id, value_bits });
    }

    /// Appends the CLAP event that `event` becomes, where it becomes one.
    pub fn push_rack(&mut self, event: &Event)
        ensures
            final(self).events@ == (match to_clap(*event) {
                Some(e) => old(self).events@.push(e),
                None => old(self).events@,
            }),
    {
        match event.body {
            EventBody::Midi(midi) => self.push_midi(event.sample_offset, midi),
            EventBody::ParamValue { param_id, value_bits } => {
                self.push_param_value(event.sample_offset, param_id, value_bits);
            },
            EventBody::ParamGesture { .. } => {},
            EventBody::TransportFlag(_) => {},
        }
    }

    /// Appends the CLAP event that a MIDI message becomes, where it becomes one.
    pub fn push_midi(&mut self, time: u32, midi: MidiData)
        ensures
            final(self).events@ == (match midi_to_clap(time, midi) {
                Some(e) => old(self).events@.push(e),
                None => old(self).events@,
            }),
    {
        match midi {
            MidiData::NoteOn { channel, note, velocity } => {
                self.events.push(
                    ClapEvent::Note {
                        time,
                        event_type: CLAP_EVENT_NOTE_ON,
                        channel: channel as i16,
                        key: note as i16,
                        velocity,
                    },
                );
            },
            MidiData::NoteOff { channel, note, velocity } => {
                self.events.push(
                    ClapEvent::Note {
                        time,
                        event_type: CLAP_EVENT_NOTE_OFF,
                        channel: channel as i16,
                        key: note as i16,
                        velocity,
                    },
                );
            },
            MidiData::ControlChange { channel, controller, value } => {
                self.events.push(make_midi_event(time, 0xB0, channel, controller, value));
            },
            MidiData::ProgramChange { channel, program } => {
                self.events.push(make_midi_event(time, 0xC0, channel, program, 0));
            },
            MidiData::PolyAftertouch { channel, note, pressure } => {
                self.events.push(make_midi_event(time, 0xA0, channel, note, pressure));
            },
            MidiData::ChannelAftertouch { channel, pressure } => {
                self.events.push(make_midi_event(time, 0xD0, channel, pressure, 0));
            },
            MidiData::PitchBend { channel, value } => {
                let lsb: u8 = (value % 128) as u8;
                let msb: u8 = ((value / 128) % 128) as u8;
                self.events.push(make_midi_event(time, 0xE0, channel, lsb, msb));
                assert(lsb as int % 128 == value as int % 128);
                assert(msb as int % 128 == (value as int / 128) % 128);
            },
            MidiData::Raw { len, data } => {
                if len >= 3 {
                    let bytes: [u8; 3] = [data[0], data[1], data[2]];
                    self.events.push(ClapEvent::Midi { time, data: bytes });
                }
            },
        }
    }

    /// The number of events, as CLAP counts them.
    #[must_use]
    pub fn size(&self) -> (n: u32)
        ensures
            n == (if self.events@.len() <= u32::MAX {
                self.events@.len() as int
            } else {
                u32::MAX as int
            }),
    {
        if self.events.len() as u64 <= u32::MAX as u64 {
            self.events.len() as u32
        } else {
            u32::MAX
        }
    }

    /// The event with this index, where there is one.
    #[must_use]
    pub fn get(&self, index: u32) -> (event: Option<ClapEvent>)
        ensures
            event == (if index < self.events@.len() {
                Some(self.events@[index as int])
            } else {
                None
            }),
    {
        if (index as u64) < self.events.len() as u64 {
            Some(self.events[index as usize])
        } else {
            None
        }
    }
}

// ---------------------------------------------------------------------------
// Events from a plugin
// ---------------------------------------------------------------------------

/// What kind of event a plugin sent.
#[derive(Clone, Copy, Debug, PartialEq, Eq, Structural)]
pub enum OutputKind {
    /// A parameter value.
    Param,
    /// A note that begins or ends.
    Note,
    /// A MIDI message.
    Midi,
}

/// Tells what kind of event has this space and type, where the host takes it.
#[must_use]
pub fn output_kind(space_id: u16, event_type: u16) -> (kind: Option<OutputKind>)
    ensures
        kind == (if space_id != CLAP_CORE_EVENT_SPACE_ID {
            None
        } else if event_type == CLAP_EVENT_PARAM_VALUE {
            Some(OutputKind::Param)
        } else if event_type == CLAP_EVENT_NOTE_ON || event_type == CLAP_EVENT_NOTE_OFF {
            Some(OutputKind::Note)
        } else if event_type == CLAP_EVENT_MIDI {
            Some(OutputKind::Midi)
        } else {
            None
        }),
{
    if space_id != CLAP_CORE_EVENT_SPACE_ID {
        None
    } else if event_type == CLAP_EVENT_PARAM_VALUE {
        Some(OutputKind::Param)
    } else if event_type == CLAP_EVENT_NOTE_ON || event_type == CLAP_EVENT_NOTE_OFF {
        Some(OutputKind::Note)
    } else if event_type == CLAP_EVENT_MIDI {
        Some(OutputKind::Midi)
    } else {
        None
    }
}

/// A channel or key as a byte: negative ones and ones past 255 count as 0.
pub open spec fn byte_of(n: i16) -> u8 {
    if 0 <= n <= 255 {
        n as u8
    } else {
        0
    }
}

fn to_byte(n: i16) -> (b: u8)
    ensures
        b == byte_of(n),
{
    if 0 <= n && n <= 255 {
        n as u8
    } else {
        0
    }
}

/// The event that a plugin's event becomes.
pub open spec fn from_clap(event: ClapEvent) -> Option<Event> {
    match event {
        ClapEvent::Param { time, param_id, value_bits } => Some(
            Event { sample_offset: time, body: EventBody::ParamValue { param_id, value_bits } },
        ),
        ClapEvent::Note { time, event_type, channel, key, velocity } => if event_type
            == CLAP_EVENT_NOTE_ON {
            Some(
                Event {
                    sample_offset: time,
                    body: EventBody::Midi(
                        MidiData::NoteOn {
                            channel: byte_of(channel),
                            note: byte_of(key),
                            velocity,
                        },
                    ),
                },
            )
        } else if event_type == CLAP_EVENT_NOTE_OFF {
            Some(
                Event {
                    sample_offset: time,
                    body: EventBody::Midi(
                        MidiData::NoteOff {
                            channel: byte_of(channel),
                            note: byte_of(key),
                            velocity,
                        },
                    ),
                },
            )
        } else {
            None
        },
        ClapEvent::Midi { time, data } => Some(
            Event {
                sample_offset: time,
                body: EventBody::Midi(
                    MidiData::Raw {
                        len: 3,
                        data: [data[0], data[1], data[2], 0, 0, 0, 0, 0],
                    },
                ),
            },
        ),
    }
}

/// The event that a plugin's event becomes, where it becomes one.
#[must_use]
pub fn clap_event_to_rack(event: &ClapEvent) -> (out: Option<Event>)
    ensures
        out == from_clap(*event),
{
    match *event {
        ClapEvent::Param { time, param_id, value_bits } => Some(
            Event { sample_offset: time, body: EventBody::ParamValue { param_id, value_bits } },
        ),
        ClapEvent::Note { time, event_type, channel, key, velocity } => {
            let channel: u8 = to_byte(channel);
            let note: u8 = to_byte(key);
            if event_type == CLAP_EVENT_NOTE_ON {
                Some(
                    Event {
                        sample_offset: time,
                        body: EventBody::Midi(MidiData::NoteOn { channel, note, velocity }),
                    },
                )
            } else if event_type == CLAP_EVENT_NOTE_OFF {
                Some(
                    Event {
                        sample_offset: time,
                        body: EventBody::Midi(MidiData::NoteOff { channel, note, velocity }),
                    },
                )
            } else {
                None
            }
        },
        ClapEvent::Midi { time, data } => {
            let bytes: [u8; 8] = [data[0], data[1], data[2], 0, 0, 0, 0, 0];
            Some(
                Event {
                    sample_offset: time,
                    body: EventBody::Midi(MidiData::Raw { len: 3, data: bytes }),
                },
            )
        },
    }
}

/// Takes an event that a plugin sent into `target`, and tells the plugin that it
/// was accepted, whether or not the host takes events of its kind.
pub fn try_push(target: &mut EventList, event: &ClapEvent) -> (accepted: bool)
    ensures
        accepted,
        final(target)@ == (match from_clap(*event) {
            Some(e) => old(target)@.push(e),
            None => old(target)@,
        }),
{
    if let Some(e) = clap_event_to_rack(event) {
        target.push(e);
    }
    true
}

/// Notes and parameter changes come back from CLAP as they went.
pub proof fn notes_and_parameters_round_trip(event: Event)
    requires
        event.body is ParamValue || (event.body matches EventBody::Midi(m) && (m is NoteOn
            || m is NoteOff)),
    ensures
        to_clap(event) is Some,
        from_clap(to_clap(event)->0) == Some(event),
{
}

/// A three-byte message that is no note comes back from CLAP as the raw bytes
/// that were sent, at its sample offset.
pub proof fn other_messages_come_back_raw(event: Event)
    requires
        event.body matches EventBody::Midi(m) && !(m is NoteOn) && !(m is NoteOff),
        to_clap(event) is Some,
    ensures
        to_clap(event)->0 matches ClapEvent::Midi { time, data } && time == event.sample_offset
            && from_clap(to_clap(event)->0) == Some(
            Event {
                sample_offset: time,
                body: EventBody::Midi(
                    MidiData::Raw {
                        len: 3,
                        data: [data[0], data[1], data[2], 0, 0, 0, 0, 0],
                    },
                ),
            },
        ),
{
}

/// Every channel-voice message that travels as MIDI bytes reads back as itself,
/// where its fields are in range, at the time it was sent for. Program changes and
/// channel pressure have two bytes; the third is 0.
pub proof fn sent_bytes_are_the_message(time: u32, data: MidiData)
    requires
        midi::channel_voice_in_range(data),
        !(data is NoteOn),
        !(data is NoteOff),
    ensures
        midi_to_clap(time, data) matches Some(ClapEvent::Midi { time: at, data: bytes }) && at
            == time && (if data is ProgramChange || data is ChannelAftertouch {
            bytes[2] == 0 && midi::midi_message(seq![bytes[0], bytes[1]]) == Some(data)
        } else {
            midi::midi_message(seq![bytes[0], bytes[1], bytes[2]]) == Some(data)
        }),
{
    clap_bytes_are_those_of_midi(time, data);
    midi::decoding_undoes_encoding(data);
    if let Some(ClapEvent::Midi { time: at, data: bytes }) = midi_to_clap(time, data) {
        assert(bytes@.take(2) =~= seq![bytes[0], bytes[1]]);
        assert(bytes@.take(3) =~= seq![bytes[0], bytes[1], bytes[2]]);
    }
}

/// The bytes that a plugin is sent for a message are those that MIDI 1.0 has for
/// it, also where its fields are out of range.
pub proof fn clap_bytes_are_those_of_midi(time: u32, data: MidiData)
    requires
        !(data is NoteOn),
        !(data is NoteOff),
        !(data is Raw),
    ensures
        midi_to_clap(time, data) matches Some(ClapEvent::Midi { time: at, data: bytes }) && at
            == time && midi::midi_payload(EventBody::Midi(data)) == Some(
            bytes@.take(
                if data is ProgramChange || data is ChannelAftertouch {
                    2
                } else {
                    3
                },
            ),
        ),
{
    if let Some(ClapEvent::Midi { time: at, data: bytes }) = midi_to_clap(time, data) {
        let (status, d1, d2, len) = midi::midi_triple(EventBody::Midi(data))->0;
        assert(seq![status, d1, d2].take(len as int) =~= bytes@.take(len as int));
    }
}

/// A note that is sent begins where it begins and ends where it ends, with the
/// same channel, key and velocity; raw bytes are sent as they are, where there are
/// three at least.
pub proof fn notes_and_bytes_are_sent_as_they_are(time: u32, data: MidiData)
    ensures
        data matches MidiData::NoteOn { channel, note, velocity } ==> (midi_to_clap(
            time,
            data,
        ) matches Some(ClapEvent::Note { time: at, event_type, channel: c, key, velocity: v })
            && at == time && event_type == 0 && c == channel && key == note && v == velocity),
        data matches MidiData::NoteOff { channel, note, velocity } ==> (midi_to_clap(
            time,
            data,
        ) matches Some(ClapEvent::Note { time: at, event_type, channel: c, key, velocity: v })
            && at == time && event_type == 1 && c == channel && key == note && v == velocity),
        data matches MidiData::Raw { len, data: sent } ==> (match midi_to_clap(time, data) {
            Some(ClapEvent::Midi { time: at, data: bytes }) => len >= 3 && at == time && bytes@
                == sent@.take(3),
            Some(_) => false,
            None => len < 3,
        }),
{
    if let MidiData::Raw { len, data: sent } = data {
        assert([sent[0], sent[1], sent[2]]@ =~= sent@.take(3));
    }
}

/// What a plugin sends means what CLAP says: an event of type 0 begins a note and
/// one of type 1 ends it, with its channel, key and velocity; MIDI bytes stay as
/// they are; and all keep their time.
pub proof fn received_events_keep_their_meaning(event: ClapEvent)
    ensures
        event matches ClapEvent::Note { time, event_type, channel, key, velocity } ==> (0 <= channel
            <= 255 && 0 <= key <= 255 ==> (match from_clap(event) {
            Some(e) => e.sample_offset == time && match e.body {
                EventBody::Midi(MidiData::NoteOn { channel: c, note, velocity: v }) => event_type
                    == 0 && c == channel && note == key && v == velocity,
                EventBody::Midi(MidiData::NoteOff { channel: c, note, velocity: v }) => event_type
                    == 1 && c == channel && note == key && v == velocity,
                _ => false,
            },
            None => event_type > 1,
        })),
        event matches ClapEvent::Midi { time, data } ==> (from_clap(event) matches Some(e)
            && e.sample_offset == time && (e.body matches EventBody::Midi(
            MidiData::Raw { len, data: kept },
        ) && len == 3 && kept@.take(3) == data@)),
        event matches ClapEvent::Param { time, param_id, value_bits } ==> (from_clap(
            event,
        ) matches Some(e) && e.sample_offset == time && (e.body matches EventBody::ParamValue {
            param_id: id,
            value_bits: bits,
        } && id == param_id && bits == value_bits)),
{
    if let ClapEvent::Midi { time, data } = event {
        assert([data[0], data[1], data[2], 0, 0, 0, 0, 0]@.take(3) =~= data@);
    }
}

/// Events are sent in the order in which they come, each as it would be alone.
pub proof fn events_are_sent_in_order(a: Seq<Event>, event: Event, b: Seq<Event>)
    ensures
        all_to_clap(a + seq![event] + b) == all_to_clap(a) + (match to_clap(event) {
            Some(e) => seq![e],
            None => Seq::empty(),
        }) + all_to_clap(b),
        all_to_clap(Seq::empty()) == Seq::<ClapEvent>::empty(),
    decreases b.len(),
{
    let whole = a + seq![event] + b;
    let one = match to_clap(event) {
        Some(e) => seq![e],
        None => Seq::empty(),
    };
    if b.len() == 0 {
        assert(whole.drop_last() =~= a);
        assert(all_to_clap(whole) =~= all_to_clap(a) + one + all_to_clap(b));
    } else {
        events_are_sent_in_order(a, event, b.drop_last());
        assert(whole.drop_last() =~= a + seq![event] + b.drop_last());
        assert(whole.last() == b.last());
        assert(all_to_clap(whole) =~= all_to_clap(a) + one + all_to_clap(b));
    }
}

/// A channel or a key is kept where it fits in a byte, and counts as 0 where it does
/// not.
pub proof fn channels_and_keys_are_kept(n: i16)
    ensures
        0 <= n < 0x100 ==> byte_of(n) == n,
        n < 0 || n >= 0x100 ==> byte_of(n) == 0,
{
}

} // verus!
