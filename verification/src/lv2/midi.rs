//! MIDI 1.0 messages as the payload of LV2 MIDI atoms.

use crate::events::{EventBody, MidiData};
use vstd::prelude::*;

verus! {

/// The status byte, the two data bytes and the number of bytes that count of
/// the message `body`; nothing for events that are no short MIDI message.
/// Channels keep their low four bits and data bytes their low seven.
pub open spec fn midi_triple(body: EventBody) -> Option<(u8, u8, u8, usize)> {
    match body {
        EventBody::Midi(MidiData::NoteOn { channel, note, velocity }) => Some(
            ((0x90 + channel % 16) as u8, (note % 128) as u8, (velocity % 128) as u8, 3usize),
        ),
        EventBody::Midi(MidiData::NoteOff { channel, note, velocity }) => Some(
            ((0x80 + channel % 16) as u8, (note % 128) as u8, (velocity % 128) as u8, 3usize),
        ),
        EventBody::Midi(MidiData::PolyAftertouch { channel, note, pressure }) => Some(
            ((0xA0 + channel % 16) as u8, (note % 128) as u8, (pressure % 128) as u8, 3usize),
        ),
        EventBody::Midi(MidiData::ControlChange { channel, controller, value }) => Some(
            ((0xB0 + channel % 16) as u8, (controller % 128) as u8, (value % 128) as u8, 3usize),
        ),
        EventBody::Midi(MidiData::ProgramChange { channel, program }) => Some(
            ((0xC0 + channel % 16) as u8, (program % 128) as u8, 0u8, 2usize),
        ),
        EventBody::Midi(MidiData::ChannelAftertouch { channel, pressure }) => Some(
            ((0xD0 + channel % 16) as u8, (pressure % 128) as u8, 0u8, 2usize),
        ),
        EventBody::Midi(MidiData::PitchBend { channel, value }) => Some(
            (
                (0xE0 + channel % 16) as u8,
                (value % 128) as u8,
                ((value / 128) % 128) as u8,
                3usize,
            ),
        ),
        EventBody::Midi(MidiData::Raw { len, data }) => if 1 <= len <= 3 {
            Some((data[0], data[1], data[2], len as usize))
        } else {
            None
        },
        _ => None,
    }
}

/// The bytes of the MIDI message `body`, one to three of them; nothing for
/// events that are no short MIDI message.
pub open spec fn midi_payload(body: EventBody) -> Option<Seq<u8>> {
    match midi_triple(body) {
        Some((status, d1, d2, len)) => Some(seq![status, d1, d2].take(len as int)),
        None => None,
    }
}

/// Encodes one event into the `(status, d1, d2, len)` form of LV2 MIDI atoms.
pub fn midi_bytes(body: &EventBody) -> (bytes: Option<(u8, u8, u8, usize)>)
    ensures
        bytes == midi_triple(*body),
        bytes is Some ==> 1 <= (bytes->0).3 <= 3,
{
    match body {
        EventBody::Midi(MidiData::NoteOn { channel, note, velocity }) => Some(
            (0x90 + *channel % 16, *note % 128, *velocity % 128, 3),
        ),
        EventBody::Midi(MidiData::NoteOff { channel, note, velocity }) => Some(
            (0x80 + *channel % 16, *note % 128, *velocity % 128, 3),
        ),
        EventBody::Midi(MidiData::PolyAftertouch { channel, note, pressure }) => Some(
            (0xA0 + *channel % 16, *note % 128, *pressure % 128, 3),
        ),
        EventBody::Midi(MidiData::ControlChange { channel, controller, value }) => Some(
            (0xB0 + *channel % 16, *controller % 128, *value % 128, 3),
        ),
        EventBody::Midi(MidiData::ProgramChange { channel, program }) => Some(
            (0xC0 + *channel % 16, *program % 128, 0, 2),
        ),
        EventBody::Midi(MidiData::ChannelAftertouch { channel, pressure }) => Some(
            (0xD0 + *channel % 16, *pressure % 128, 0, 2),
        ),
        EventBody::Midi(MidiData::PitchBend { channel, value }) => Some(
            (0xE0 + *channel % 16, (*value % 128) as u8, ((*value / 128) % 128) as u8, 3),
        ),
        EventBody::Midi(MidiData::Raw { len, data }) => {
            if 1 <= *len && *len <= 3 {
                Some((data[0], data[1], data[2], *len as usize))
            } else {
                None
            }
        },
        _ => None,
    }
}

/// `bytes[i]`, or 0 past the end.
pub open spec fn byte_or_zero(bytes: Seq<u8>, i: int) -> u8 {
    if 0 <= i < bytes.len() {
        bytes[i]
    } else {
        0
    }
}

/// The first eight of `bytes`, filled up with zeros.
#[verifier::opaque]
pub open spec fn eight_bytes(bytes: Seq<u8>) -> [u8; 8] {
    [
        byte_or_zero(bytes, 0),
        byte_or_zero(bytes, 1),
        byte_or_zero(bytes, 2),
        byte_or_zero(bytes, 3),
        byte_or_zero(bytes, 4),
        byte_or_zero(bytes, 5),
        byte_or_zero(bytes, 6),
        byte_or_zero(bytes, 7),
    ]
}

/// The message that a MIDI atom's payload means. A Note On with velocity 0 is a
/// Note Off; what is no channel-voice message of the right length is kept as
/// raw bytes, up to eight.
pub open spec fn midi_message(bytes: Seq<u8>) -> Option<MidiData> {
    let channel = (bytes[0] % 16) as u8;
    let kind = bytes[0] / 16;
    if bytes.len() == 0 {
        None
    } else if kind == 0x8 && bytes.len() == 3 {
        Some(MidiData::NoteOff { channel, note: bytes[1], velocity: bytes[2] })
    } else if kind == 0x9 && bytes.len() == 3 && bytes[2] == 0 {
        Some(MidiData::NoteOff { channel, note: bytes[1], velocity: 0 })
    } else if kind == 0x9 && bytes.len() == 3 {
        Some(MidiData::NoteOn { channel, note: bytes[1], velocity: bytes[2] })
    } else if kind == 0xA && bytes.len() == 3 {
        Some(MidiData::PolyAftertouch { channel, note: bytes[1], pressure: bytes[2] })
    } else if kind == 0xB && bytes.len() == 3 {
        Some(MidiData::ControlChange { channel, controller: bytes[1], value: bytes[2] })
    } else if kind == 0xC && bytes.len() == 2 {
        Some(MidiData::ProgramChange { channel, program: bytes[1] })
    } else if kind == 0xD && bytes.len() == 2 {
        Some(MidiData::ChannelAftertouch { channel, pressure: bytes[1] })
    } else if kind == 0xE && bytes.len() == 3 {
        Some(MidiData::PitchBend { channel, value: ((bytes[2] as u16) << 7u16) | (bytes[1] as u16) })
    } else if bytes.len() <= 8 {
        Some(MidiData::Raw { len: bytes.len() as u8, data: eight_bytes(bytes) })
    } else {
        None
    }
}

/// Decodes the payload of a MIDI atom.
pub fn decode_midi_atom(bytes: &[u8]) -> (body: Option<EventBody>)
    ensures
        match body {
            Some(b) => midi_message(bytes@) is Some && b == EventBody::Midi(
                midi_message(bytes@)->0,
            ),
            None => midi_message(bytes@) is None,
        },
{
    if bytes.len() == 0 {
        return None;
    }
    let status: u8 = bytes[0];
    let channel: u8 = status % 16;
    let kind: u8 = status / 16;
    let n: usize = bytes.len();
    let data = if kind == 0x8 && n == 3 {
        MidiData::NoteOff { channel, note: bytes[1], velocity: bytes[2] }
    } else if kind == 0x9 && n == 3 {
        if bytes[2] == 0 {
            MidiData::NoteOff { channel, note: bytes[1], velocity: 0 }
        } else {
            MidiData::NoteOn { channel, note: bytes[1], velocity: bytes[2] }
        }
    } else if kind == 0xA && n == 3 {
        MidiData::PolyAftertouch { channel, note: bytes[1], pressure: bytes[2] }
    } else if kind == 0xB && n == 3 {
        MidiData::ControlChange { channel, controller: bytes[1], value: bytes[2] }
    } else if kind == 0xC && n == 2 {
        MidiData::ProgramChange { channel, program: bytes[1] }
    } else if kind == 0xD && n == 2 {
        MidiData::ChannelAftertouch { channel, pressure: bytes[1] }
    } else if kind == 0xE && n == 3 {
        MidiData::PitchBend { channel, value: ((bytes[2] as u16) << 7u16) | (bytes[1] as u16) }
    } else if n <= 8 {
        let mut data: [u8; 8] = [0u8; 8];
        let mut i: usize = 0;
        while i < n
            invariant
                i <= n <= 8,
                n == bytes.len(),
                forall|j: int|
                    0 <= j < 8 ==> #[trigger] data[j] == (if j < i {
                        bytes@[j]
                    } else {
                        0
                    }),
            decreases n - i,
        {
            data[i] = bytes[i];
            i += 1;
        }
        proof {
            reveal(eight_bytes);
            assert(data@ =~= eight_bytes(bytes@)@);
            assert(data == eight_bytes(bytes@));
        }
        MidiData::Raw { len: n as u8, data }
    } else {
        return None;
    };
    Some(EventBody::Midi(data))
}

/// Whether every field of a channel-voice message is in its documented range.
pub open spec fn channel_voice_in_range(data: MidiData) -> bool {
    match data {
        MidiData::NoteOn { channel, note, velocity } => channel < 16 && note < 128 && velocity
            < 128,
        MidiData::NoteOff { channel, note, velocity } => channel < 16 && note < 128 && velocity
            < 128,
        MidiData::PolyAftertouch { channel, note, pressure } => channel < 16 && note < 128
            && pressure < 128,
        MidiData::ControlChange { channel, controller, value } => channel < 16 && controller < 128
            && value < 128,
        MidiData::ProgramChange { channel, program } => channel < 16 && program < 128,
        MidiData::ChannelAftertouch { channel, pressure } => channel < 16 && pressure < 128,
        MidiData::PitchBend { channel, value } => channel < 16 && value < 16384,
        MidiData::Raw { .. } => false,
    }
}

/// Decoding gives back every channel-voice message whose fields are in range,
/// but for a Note On with velocity 0, which comes back as the Note Off it means.
pub proof fn decoding_undoes_encoding(data: MidiData)
    requires
        channel_voice_in_range(data),
    ensures
        midi_payload(EventBody::Midi(data)) is Some,
        midi_message(midi_payload(EventBody::Midi(data))->0) == Some(
            match data {
                MidiData::NoteOn { channel, note, velocity: 0 } => MidiData::NoteOff {
                    channel,
                    note,
                    velocity: 0,
                },
                _ => data,
            },
        ),
{
    match data {
        MidiData::NoteOn { channel, note, velocity } => note_on_comes_back(channel, note, velocity),
        MidiData::NoteOff { channel, note, velocity } => note_off_comes_back(
            channel,
            note,
            velocity,
        ),
        MidiData::PolyAftertouch { channel, note, pressure } => key_pressure_comes_back(
            channel,
            note,
            pressure,
        ),
        MidiData::ControlChange { channel, controller, value } => control_comes_back(
            channel,
            controller,
            value,
        ),
        MidiData::ProgramChange { channel, program } => program_comes_back(channel, program),
        MidiData::ChannelAftertouch { channel, pressure } => pressure_comes_back(channel, pressure),
        MidiData::PitchBend { channel, value } => bend_comes_back(channel, value),
        MidiData::Raw { .. } => {},
    }
}

/// A Note On comes back; one with velocity 0 as a Note Off.
proof fn note_on_comes_back(channel: u8, note: u8, velocity: u8)
    requires
        channel < 16,
        note < 128,
        velocity < 128,
    ensures
        ({
            let sent = midi_payload(EventBody::Midi(MidiData::NoteOn { channel, note, velocity }));
            sent is Some && midi_message(sent->0) == Some(
            if velocity == 0 {
                MidiData::NoteOff { channel, note, velocity }
            } else {
                MidiData::NoteOn { channel, note, velocity }
            },
        )
        }),
{
    let status = (0x90 + channel) as u8;
    let bytes = seq![status, note, velocity];
    assert(bytes.take(3) =~= bytes);
    let data = MidiData::NoteOn { channel, note, velocity };
    assert(midi_payload(EventBody::Midi(data)) == Some(bytes));
    bytes_mean_what_midi_says(bytes);
}

/// A Note Off comes back.
proof fn note_off_comes_back(channel: u8, note: u8, velocity: u8)
    requires
        channel < 16,
        note < 128,
        velocity < 128,
    ensures
        ({
            let data = MidiData::NoteOff { channel, note, velocity };
            let sent = midi_payload(EventBody::Midi(data));
            sent is Some && midi_message(sent->0) == Some(data)
        }),
{
    let status = (0x80 + channel) as u8;
    let bytes = seq![status, note, velocity];
    assert(bytes.take(3) =~= bytes);
    let data = MidiData::NoteOff { channel, note, velocity };
    assert(midi_payload(EventBody::Midi(data)) == Some(bytes));
    bytes_mean_what_midi_says(bytes);
}

/// Key pressure comes back.
proof fn key_pressure_comes_back(channel: u8, note: u8, pressure: u8)
    requires
        channel < 16,
        note < 128,
        pressure < 128,
    ensures
        ({
            let data = MidiData::PolyAftertouch { channel, note, pressure };
            let sent = midi_payload(EventBody::Midi(data));
            sent is Some && midi_message(sent->0) == Some(data)
        }),
{
    let status = (0xA0 + channel) as u8;
    let bytes = seq![status, note, pressure];
    assert(bytes.take(3) =~= bytes);
    let data = MidiData::PolyAftertouch { channel, note, pressure };
    assert(midi_payload(EventBody::Midi(data)) == Some(bytes));
    bytes_mean_what_midi_says(bytes);
}

/// A control change comes back.
proof fn control_comes_back(channel: u8, controller: u8, value: u8)
    requires
        channel < 16,
        controller < 128,
        value < 128,
    ensures
        ({
            let data = MidiData::ControlChange { channel, controller, value };
            let sent = midi_payload(EventBody::Midi(data));
            sent is Some && midi_message(sent->0) == Some(data)
        }),
{
    let status = (0xB0 + channel) as u8;
    let bytes = seq![status, controller, value];
    assert(bytes.take(3) =~= bytes);
    let data = MidiData::ControlChange { channel, controller, value };
    assert(midi_payload(EventBody::Midi(data)) == Some(bytes));
    bytes_mean_what_midi_says(bytes);
}

/// A program change comes back.
proof fn program_comes_back(channel: u8, program: u8)
    requires
        channel < 16,
        program < 128,
    ensures
        ({
            let data = MidiData::ProgramChange { channel, program };
            let sent = midi_payload(EventBody::Midi(data));
            sent is Some && midi_message(sent->0) == Some(data)
        }),
{
    let status = (0xC0 + channel) as u8;
    let bytes = seq![status, program];
    assert(seq![status, program, 0u8].take(2) =~= bytes);
    let data = MidiData::ProgramChange { channel, program };
    assert(midi_payload(EventBody::Midi(data)) == Some(bytes));
    bytes_mean_what_midi_says(bytes);
}

/// Channel pressure comes back.
proof fn pressure_comes_back(channel: u8, pressure: u8)
    requires
        channel < 16,
        pressure < 128,
    ensures
        ({
            let data = MidiData::ChannelAftertouch { channel, pressure };
            let sent = midi_payload(EventBody::Midi(data));
            sent is Some && midi_message(sent->0) == Some(data)
        }),
{
    let status = (0xD0 + channel) as u8;
    let bytes = seq![status, pressure];
    assert(seq![status, pressure, 0u8].take(2) =~= bytes);
    let data = MidiData::ChannelAftertouch { channel, pressure };
    assert(midi_payload(EventBody::Midi(data)) == Some(bytes));
    bytes_mean_what_midi_says(bytes);
}

/// The two halves of a pitch bend make up its value.
proof fn bend_splits(value: u16)
    ensures
        value % 128 + 128 * ((value / 128) % 128) == value % 16384,
{
    assert(value % 128 + 128 * ((value / 128) % 128) == value % 16384) by (bit_vector);
}

/// A pitch bend comes back.
proof fn bend_comes_back(channel: u8, value: u16)
    requires
        channel < 16,
        value < 16384,
    ensures
        ({
            let data = MidiData::PitchBend { channel, value };
            let sent = midi_payload(EventBody::Midi(data));
            sent is Some && midi_message(sent->0) == Some(data)
        }),
{
    let status = (0xE0 + channel) as u8;
    let low = (value % 128) as u8;
    let high = ((value / 128) % 128) as u8;
    let bytes = seq![status, low, high];
    assert(bytes.take(3) =~= bytes);
    let data = MidiData::PitchBend { channel, value };
    assert(midi_payload(EventBody::Midi(data)) == Some(bytes));
    bend_splits(value);
    bytes_mean_what_midi_says(bytes);
}

/// A system message of one to three bytes comes back as those raw bytes.
pub proof fn decoding_keeps_system_messages(len: u8, data: [u8; 8])
    requires
        1 <= len <= 3,
        data[0] >= 0xF0,
    ensures
        midi_payload(EventBody::Midi(MidiData::Raw { len, data })) == Some(data@.take(len as int)),
        midi_message(data@.take(len as int)) == Some(
            MidiData::Raw { len, data: eight_bytes(data@.take(len as int)) },
        ),
{
    assert(seq![data[0], data[1], data[2]].take(len as int) =~= data@.take(len as int));
}

/// The bytes of a payload mean what MIDI 1.0 says: the high half of the first byte
/// is the kind of message, its low half the channel, and the bytes behind it are
/// the message's data in order.
pub proof fn bytes_mean_what_midi_says(bytes: Seq<u8>)
    ensures
        bytes.len() == 0 ==> midi_message(bytes) is None,
        bytes.len() == 3 && 0x80 <= bytes[0] <= 0x8F ==> midi_message(bytes) == Some(
            MidiData::NoteOff {
                channel: (bytes[0] - 0x80) as u8,
                note: bytes[1],
                velocity: bytes[2],
            },
        ),
        bytes.len() == 3 && 0x90 <= bytes[0] <= 0x9F && bytes[2] > 0 ==> midi_message(bytes)
            == Some(
            MidiData::NoteOn {
                channel: (bytes[0] - 0x90) as u8,
                note: bytes[1],
                velocity: bytes[2],
            },
        ),
        bytes.len() == 3 && 0x90 <= bytes[0] <= 0x9F && bytes[2] == 0 ==> midi_message(bytes)
            == Some(
            MidiData::NoteOff { channel: (bytes[0] - 0x90) as u8, note: bytes[1], velocity: 0 },
        ),
        bytes.len() == 3 && 0xA0 <= bytes[0] <= 0xAF ==> midi_message(bytes) == Some(
            MidiData::PolyAftertouch {
                channel: (bytes[0] - 0xA0) as u8,
                note: bytes[1],
                pressure: bytes[2],
            },
        ),
        bytes.len() == 3 && 0xB0 <= bytes[0] <= 0xBF ==> midi_message(bytes) == Some(
            MidiData::ControlChange {
                channel: (bytes[0] - 0xB0) as u8,
                controller: bytes[1],
                value: bytes[2],
            },
        ),
        bytes.len() == 2 && 0xC0 <= bytes[0] <= 0xCF ==> midi_message(bytes) == Some(
            MidiData::ProgramChange { channel: (bytes[0] - 0xC0) as u8, program: bytes[1] },
        ),
        bytes.len() == 2 && 0xD0 <= bytes[0] <= 0xDF ==> midi_message(bytes) == Some(
            MidiData::ChannelAftertouch { channel: (bytes[0] - 0xD0) as u8, pressure: bytes[1] },
        ),
        bytes.len() == 3 && 0xE0 <= bytes[0] <= 0xEF && bytes[1] < 128 && bytes[2] < 128
            ==> midi_message(bytes) == Some(
            MidiData::PitchBend {
                channel: (bytes[0] - 0xE0) as u8,
                value: (bytes[1] + 128 * bytes[2]) as u16,
            },
        ),
        1 <= bytes.len() <= 8 && (bytes[0] < 0x80 || bytes[0] >= 0xF0) ==> (midi_message(
            bytes,
        ) matches Some(MidiData::Raw { len, data }) && len == bytes.len() && forall|i: int|
            0 <= i < 8 ==> #[trigger] data@[i] == (if i < bytes.len() {
                bytes[i]
            } else {
                0
            })),
        bytes.len() > 8 ==> midi_message(bytes) is None,
{
    reveal(eight_bytes);
    if bytes.len() == 3 {
        let a = bytes[1] as u16;
        let b = bytes[2] as u16;
        assert(a < 128u16 && b < 128u16 ==> (b << 7u16) | a == a + 128 * b) by (bit_vector);
    }
}

/// The bytes of a message are those of MIDI 1.0: its kind in the high half of the
/// first byte, its channel in the low half, and its data behind it in order, with
/// the low seven bits of a pitch bend before the high seven. What is no MIDI
/// message has none.
pub proof fn messages_have_the_bytes_of_midi(body: EventBody)
    ensures
        match (body, midi_triple(body)) {
            (EventBody::Midi(MidiData::NoteOff { channel, note, velocity }), Some((s, a, b, n))) => s
                == 0x80 + channel % 16 && a == note % 128 && b == velocity % 128 && n == 3,
            (EventBody::Midi(MidiData::NoteOn { channel, note, velocity }), Some((s, a, b, n))) => s
                == 0x90 + channel % 16 && a == note % 128 && b == velocity % 128 && n == 3,
            (
                EventBody::Midi(MidiData::PolyAftertouch { channel, note, pressure }),
                Some((s, a, b, n)),
            ) => s == 0xA0 + channel % 16 && a == note % 128 && b == pressure % 128 && n == 3,
            (
                EventBody::Midi(MidiData::ControlChange { channel, controller, value }),
                Some((s, a, b, n)),
            ) => s == 0xB0 + channel % 16 && a == controller % 128 && b == value % 128 && n == 3,
            (EventBody::Midi(MidiData::ProgramChange { channel, program }), Some((s, a, _, n))) => s
                == 0xC0 + channel % 16 && a == program % 128 && n == 2,
            (
                EventBody::Midi(MidiData::ChannelAftertouch { channel, pressure }),
                Some((s, a, _, n)),
            ) => s == 0xD0 + channel % 16 && a == pressure % 128 && n == 2,
            (EventBody::Midi(MidiData::PitchBend { channel, value }), Some((s, a, b, n))) => s
                == 0xE0 + channel % 16 && a < 128 && b < 128 && a + 128 * b == value % 16384 && n
                == 3,
            (EventBody::Midi(MidiData::Raw { .. }), _) => true,
            (EventBody::Midi(_), None) => false,
            (_, sent) => sent is None,
        },
{
    if let EventBody::Midi(MidiData::PitchBend { value, .. }) = body {
        bend_splits(value);
    }
}

/// Raw bytes have themselves as their bytes, where there are one to three.
pub proof fn raw_bytes_are_their_own(len: u8, data: [u8; 8])
    ensures
        match midi_triple(EventBody::Midi(MidiData::Raw { len, data })) {
            Some((s, a, b, n)) => 1 <= len <= 3 && n == len && s == data[0] && a == data[1] && b
                == data[2],
            None => len == 0 || len > 3,
        },
{
}

/// The payload of a message is its status and its data bytes in order, as many as
/// count.
pub proof fn payloads_hold_the_bytes_in_order(body: EventBody)
    ensures
        match (midi_triple(body), midi_payload(body)) {
            (Some((status, d1, d2, len)), Some(payload)) => {
                &&& payload.len() == len
                &&& len <= 3
                &&& payload[0] == status
                &&& len >= 2 ==> payload[1] == d1
                &&& len >= 3 ==> payload[2] == d2
            },
            (None, None) => true,
            _ => false,
        },
{
}

} // verus!
