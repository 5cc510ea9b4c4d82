//! Reading MIDI back out of an atom sequence.

use crate::events::{Event, EventBody, EventList, MidiData};
use crate::lv2::atom::{
    self, get_word, Endian, SequenceUrids, ATOM_SIZE, EVENT_SIZE, SEQUENCE_SIZE,
};
use crate::lv2::midi::{self, decode_midi_atom};
use vstd::prelude::*;

verus! {

/// The sample offset that an event's time means: times that are negative or too
/// large for an offset count as 0.
pub open spec fn offset_of_time(time: nat) -> u32 {
    if time <= u32::MAX {
        time as u32
    } else {
        0
    }
}

/// The event that a MIDI atom stands for, where it stands for one.
pub open spec fn atom_event(time: nat, payload: Seq<u8>) -> Seq<Event> {
    match midi::midi_message(payload) {
        Some(data) => seq![
            Event { sample_offset: offset_of_time(time), body: EventBody::Midi(data) },
        ],
        None => Seq::empty(),
    }
}

/// The MIDI events that stand in `buf` from `cursor` on, where the sequence ends
/// at `body_end`. Reading stops at the first event that does not lie within the
/// sequence and the buffer; atoms that are no MIDI of one to eight bytes are
/// passed over.
pub open spec fn drained(
    e: Endian,
    urid: u32,
    buf: Seq<u8>,
    cursor: nat,
    body_end: nat,
) -> Seq<Event>
    decreases buf.len() + 8 - cursor,
{
    let time = atom::field(e, buf, cursor as int, 8);
    let size = atom::field(e, buf, cursor as int + 8, 4);
    let kind = atom::field(e, buf, cursor as int + 12, 4);
    let total = EVENT_SIZE as nat + size;
    if cursor + EVENT_SIZE > body_end || cursor + EVENT_SIZE > buf.len() || cursor + total
        > body_end || cursor + total > buf.len() {
        Seq::empty()
    } else {
        let here = if kind == urid && 1 <= size <= 8 {
            atom_event(time, buf.subrange(cursor + EVENT_SIZE, (cursor + total) as int))
        } else {
            Seq::empty()
        };
        here + drained(e, urid, buf, cursor + atom::padded(total), body_end)
    }
}

/// The MIDI events of the sequence in `buf`, whose header says where it ends.
pub open spec fn sequence_events(e: Endian, urid: u32, buf: Seq<u8>) -> Seq<Event> {
    if buf.len() < SEQUENCE_SIZE {
        Seq::empty()
    } else {
        let size = atom::field(e, buf, 0, 4);
        drained(e, urid, buf, SEQUENCE_SIZE as nat, ATOM_SIZE as nat + size)
    }
}

/// Appends the MIDI events of the sequence in `buf` to `out`.
pub fn drain_midi_out(urids: &SequenceUrids, e: Endian, buf: &Vec<u8>, out: &mut EventList)
    ensures
        final(out)@ == old(out)@ + sequence_events(e, urids.midi_event, buf@),
{
    if buf.len() < SEQUENCE_SIZE {
        assert(out@ =~= old(out)@ + sequence_events(e, urids.midi_event, buf@));
        return;
    }
    proof {
        reveal_with_fuel(atom::value_count, 9);
    }
    let body_end: u64 = ATOM_SIZE as u64 + get_word(buf, 0, e, 4);
    let len: u64 = buf.len() as u64;
    let mut cursor: u64 = SEQUENCE_SIZE as u64;
    let ghost start = out@;
    let ghost all = sequence_events(e, urids.midi_event, buf@);
    assert(start + all =~= out@ + all);
    while cursor + EVENT_SIZE as u64 <= body_end && cursor + EVENT_SIZE as u64 <= len
        invariant_except_break
            start + all == out@ + drained(
                e,
                urids.midi_event,
                buf@,
                cursor as nat,
                body_end as nat,
            ),
        invariant
            len == buf.len(),
            body_end <= ATOM_SIZE + 0x1_0000_0000,
            cursor <= 0x2_0000_0000,
        ensures
            start + all == out@,
        decreases len + 8 - cursor,
    {
        let at: usize = cursor as usize;
        proof {
            reveal_with_fuel(atom::value_count, 9);
        }
        let time: u64 = get_word(buf, at, e, 8);
        let size: u64 = get_word(buf, at + 8, e, 4);
        let kind: u64 = get_word(buf, at + 12, e, 4);
        let total: u64 = EVENT_SIZE as u64 + size;
        if cursor + total > body_end || cursor + total > len {
            assert(out@ + Seq::<Event>::empty() =~= out@);
            break;
        }
        let next: u64 = cursor + (total + 7) / 8 * 8;
        let ghost rest = drained(e, urids.midi_event, buf@, next as nat, body_end as nat);
        let ghost before = out@;
        if kind == urids.midi_event as u64 && 1 <= size && size <= 8 {
            let payload = vstd::slice::slice_subrange(
                buf.as_slice(),
                at + EVENT_SIZE,
                at + total as usize,
            );
            if let Some(body) = decode_midi_atom(payload) {
                let sample_offset: u32 = if time <= u32::MAX as u64 {
                    time as u32
                } else {
                    0
                };
                out.push(Event { sample_offset, body });
                assert(out@ =~= before + atom_event(time as nat, payload@));
            } else {
                assert(out@ =~= before + atom_event(time as nat, payload@));
            }
            assert(before + (atom_event(time as nat, payload@) + rest) =~= out@ + rest);
        } else {
            assert(before + (Seq::<Event>::empty() + rest) =~= out@ + rest);
        }
        cursor = next;
    }
}

// ---------------------------------------------------------------------------
// What is written is read back
// ---------------------------------------------------------------------------

/// The events that the MIDI messages among `events` are read back as.
pub open spec fn messages(events: Seq<Event>) -> Seq<Event>
    decreases events.len(),
{
    if events.len() == 0 {
        Seq::empty()
    } else {
        (match midi::midi_payload(events[0].body) {
            Some(payload) => atom_event(events[0].sample_offset as nat, payload),
            None => Seq::empty(),
        }) + messages(events.skip(1))
    }
}

/// The bytes that the MIDI messages among `events` take up in a sequence.
pub open spec fn room_for(events: Seq<Event>) -> nat
    decreases events.len(),
{
    if events.len() == 0 {
        0
    } else {
        (match midi::midi_payload(events[0].body) {
            Some(payload) => atom::padded(EVENT_SIZE as nat + payload.len()),
            None => 0,
        }) + room_for(events.skip(1))
    }
}

/// Writing events leaves the bytes before them and the length of the buffer.
pub proof fn with_events_frame(e: Endian, urid: u32, buf: Seq<u8>, off: nat, events: Seq<Event>)
    ensures
        ({
            let (b, end) = atom::with_events(e, urid, buf, off, events);
            &&& b.len() == buf.len()
            &&& end >= off
            &&& off <= buf.len() ==> end <= buf.len()
            &&& forall|i: int| 0 <= i < off && i < buf.len() ==> b[i] == buf[i]
        }),
    decreases events.len(),
{
    if events.len() > 0 {
        match midi::midi_payload(events[0].body) {
            None => with_events_frame(e, urid, buf, off, events.skip(1)),
            Some(payload) => {
                let room = atom::padded(EVENT_SIZE as nat + payload.len());
                if off + room <= buf.len() {
                    let header = atom::event_header(
                        e,
                        events[0].sample_offset as nat,
                        payload.len(),
                        urid,
                    );
                    let b = atom::overlay(buf, off as int, header + payload);
                    with_events_frame(e, urid, b, off + room, events.skip(1));
                }
            },
        }
    }
}

/// An event header holds the time, the size and the type it was made from.
proof fn event_header_fields(e: Endian, time: nat, size: nat, urid: u32, buf: Seq<u8>, at: int)
    requires
        0 <= at,
        at + EVENT_SIZE <= buf.len(),
        buf.subrange(at, at + EVENT_SIZE) == atom::event_header(e, time, size, urid),
        time < 0x1_0000_0000,
        size < 0x1_0000_0000,
    ensures
        atom::field(e, buf, at, 8) == time,
        atom::field(e, buf, at + 8, 4) == size,
        atom::field(e, buf, at + 12, 4) == urid,
{
    reveal_with_fuel(atom::value_count, 9);
    atom::word_reads_back(e, time, 8);
    atom::word_reads_back(e, size, 4);
    atom::word_reads_back(e, urid as nat, 4);
    let whole = buf.subrange(at, at + EVENT_SIZE);
    assert(buf.subrange(at, at + 8) =~= whole.subrange(0, 8));
    assert(buf.subrange(at + 8, at + 8 + 4) =~= whole.subrange(8, 12));
    assert(buf.subrange(at + 12, at + 12 + 4) =~= whole.subrange(12, 16));
    assert(whole.subrange(0, 8) =~= atom::word(e, time, 8));
    assert(whole.subrange(8, 12) =~= atom::word(e, size, 4));
    assert(whole.subrange(12, 16) =~= atom::word(e, urid as nat, 4));
}

/// Where there is room for all of them, written messages are read back, from
/// any buffer that holds the same bytes from `off` on.
proof fn written_events_read_back(
    e: Endian,
    urid: u32,
    buf: Seq<u8>,
    off: nat,
    events: Seq<Event>,
    seen: Seq<u8>,
)
    requires
        off + room_for(events) <= buf.len(),
        seen.len() == buf.len(),
        forall|i: int|
            off <= i < buf.len() ==> seen[i] == atom::with_events(e, urid, buf, off, events).0[i],
    ensures
        ({
            let end = atom::with_events(e, urid, buf, off, events).1;
            &&& end == off + room_for(events)
            &&& drained(e, urid, seen, off, end) == messages(events)
        }),
    decreases events.len(),
{
    let (b, end) = atom::with_events(e, urid, buf, off, events);
    if events.len() > 0 {
        let rest = events.skip(1);
        match midi::midi_payload(events[0].body) {
            None => {
                written_events_read_back(e, urid, buf, off, rest, seen);
                assert(messages(events) =~= messages(rest));
            },
            Some(payload) => {
                let total = EVENT_SIZE as nat + payload.len();
                let room = atom::padded(total);
                let time = events[0].sample_offset as nat;
                let header = atom::event_header(e, time, payload.len(), urid);
                atom::word_len(e, time, 8);
                atom::word_len(e, payload.len(), 4);
                atom::word_len(e, urid as nat, 4);
                let b1 = atom::overlay(buf, off as int, header + payload);
                with_events_frame(e, urid, b1, off + room, rest);
                written_events_read_back(e, urid, b1, off + room, rest, seen);
                assert(seen.subrange(off as int, off + EVENT_SIZE) =~= header);
                assert(seen.subrange(off + EVENT_SIZE, (off + total) as int) =~= payload);
                event_header_fields(e, time, payload.len(), urid, seen, off as int);
                assert(1 <= payload.len() <= 3);
            },
        }
    }
}

/// Properties leave the bytes before them and the length of the buffer, and
/// take up at most 24 bytes each.
proof fn with_properties_frame(e: Endian, buf: Seq<u8>, off: nat, props: Seq<atom::Property>)
    requires
        forall|i: int| 0 <= i < props.len() ==> (#[trigger] props[i]).width <= 8,
    ensures
        ({
            let (b, end) = atom::with_properties(e, buf, off, props);
            &&& b.len() == buf.len()
            &&& off <= end <= off + 24 * props.len()
        }),
    decreases props.len(),
{
    if props.len() > 0 {
        with_properties_frame(e, buf, off, props.drop_last());
    }
}

/// A `time:Position` event is passed over when MIDI is read.
proof fn position_is_passed_over(
    e: Endian,
    u: atom::TimeUrids,
    buf: Seq<u8>,
    t: atom::TimePosition,
    urid: u32,
    seen: Seq<u8>,
    body_end: nat,
)
    requires
        u.atom_object != urid,
        seen.len() == buf.len(),
        ({
            let (b, o) = atom::with_position(e, u, buf, SEQUENCE_SIZE as nat, t);
            &&& o <= body_end <= buf.len()
            &&& forall|i: int| SEQUENCE_SIZE <= i < o ==> seen[i] == b[i]
        }),
    ensures
        ({
            let o = atom::with_position(e, u, buf, SEQUENCE_SIZE as nat, t).1;
            drained(e, urid, seen, SEQUENCE_SIZE as nat, body_end) == drained(
                e,
                urid,
                seen,
                o,
                body_end,
            )
        }),
{
    let base = SEQUENCE_SIZE as nat;
    let (b, o) = atom::with_position(e, u, buf, base, t);
    if base + atom::TIME_POSITION_MAX_BYTES <= buf.len() {
        let body = base + EVENT_SIZE as nat;
        let props = atom::position_properties(u, t);
        let b0 = atom::overlay(
            buf,
            body as int,
            atom::word(e, 0, 4) + atom::word(e, u.position as nat, 4),
        );
        with_properties_frame(e, b0, body + 8, props);
        let (b1, end) = atom::with_properties(e, b0, body + 8, props);
        let size = (end - body) as nat;
        let header = atom::event_header(e, 0, size, u.atom_object);
        atom::word_len(e, 0, 8);
        atom::word_len(e, size, 4);
        atom::word_len(e, u.atom_object as nat, 4);
        assert(props.len() <= 7);
        assert(seen.subrange(base as int, base + EVENT_SIZE) =~= header);
        event_header_fields(e, 0, size, u.atom_object, seen, base as int);
        assert(base + atom::padded(EVENT_SIZE as nat + size) == o);
        assert(Seq::<Event>::empty() + drained(e, urid, seen, o, body_end) =~= drained(
            e,
            urid,
            seen,
            o,
            body_end,
        ));
    }
}

/// Reading a sequence gives back the MIDI messages that were written into it,
/// in order and at their sample offsets, with or without a transport position
/// ahead of them: where there is room for all of them, the sequence's size can
/// be stated in 32 bits, and objects and MIDI have different types.
pub proof fn sequence_reads_back(
    e: Endian,
    urids: SequenceUrids,
    time: atom::TimeUrids,
    buf: Seq<u8>,
    events: Seq<Event>,
    position: Option<atom::TimePosition>,
)
    requires
        SEQUENCE_SIZE + (if position is Some {
            atom::TIME_POSITION_MAX_BYTES as nat
        } else {
            0
        }) + room_for(events) <= buf.len() < 0x1_0000_0000,
        position is Some ==> time.atom_object != urids.midi_event,
    ensures
        sequence_events(
            e,
            urids.midi_event,
            atom::with_sequence(e, urids, time, buf, events, position),
        ) == messages(events),
{
    let base = SEQUENCE_SIZE as nat;
    let (b1, o1) = match position {
        Some(t) => atom::with_position(e, time, buf, base, t),
        None => (buf, base),
    };
    if let Some(t) = position {
        let body = base + EVENT_SIZE as nat;
        let b0 = atom::overlay(
            buf,
            body as int,
            atom::word(e, 0, 4) + atom::word(e, time.position as nat, 4),
        );
        with_properties_frame(e, b0, body + 8, atom::position_properties(time, t));
    }
    assert(o1 + room_for(events) <= b1.len());
    let (b2, o2) = atom::with_events(e, urids.midi_event, b1, o1, events);
    with_events_frame(e, urids.midi_event, b1, o1, events);
    let size = (o2 - ATOM_SIZE) as nat;
    let header = atom::sequence_header(e, size, urids.sequence);
    let seen = atom::overlay(b2, 0, header);
    atom::word_len(e, size, 4);
    atom::word_len(e, urids.sequence as nat, 4);
    atom::word_len(e, 0, 4);
    written_events_read_back(e, urids.midi_event, b1, o1, events, seen);
    reveal_with_fuel(atom::value_count, 5);
    atom::word_reads_back(e, size, 4);
    assert(seen.subrange(0, 4) =~= atom::word(e, size, 4));
    if let Some(t) = position {
        position_is_passed_over(e, time, buf, t, urids.midi_event, seen, o2);
    }
}

/// Channel-voice messages whose fields are in range come back as they were
/// written, at their sample offsets and in order; a Note On with velocity 0 comes
/// back as the Note Off it means.
pub proof fn voice_messages_come_back(events: Seq<Event>)
    requires
        forall|i: int|
            0 <= i < events.len() ==> ((#[trigger] events[i]).body matches EventBody::Midi(m)
                && midi::channel_voice_in_range(m) && !(m matches MidiData::NoteOn {
                velocity: 0,
                ..
            })),
    ensures
        messages(events) == events,
    decreases events.len(),
{
    if events.len() > 0 {
        let rest = events.skip(1);
        assert forall|i: int| 0 <= i < rest.len() implies ((
        #[trigger] rest[i]).body matches EventBody::Midi(m) && midi::channel_voice_in_range(m) && !(
        m matches MidiData::NoteOn { velocity: 0, .. })) by {
            assert(rest[i] == events[i + 1]);
        }
        voice_messages_come_back(rest);
        assert(events[0].body is Midi);
        if let EventBody::Midi(m) = events[0].body {
            midi::decoding_undoes_encoding(m);
        }
        assert(messages(events) =~= events);
    } else {
        assert(messages(events) =~= events);
    }
}

/// Reading an atom gives its message at its time, where the time is that of a
/// sample offset, and at the start of the block where it is not.
pub proof fn atoms_are_read_at_their_time(time: nat, payload: Seq<u8>)
    ensures
        match midi::midi_message(payload) {
            Some(data) => atom_event(time, payload).len() == 1 && atom_event(time, payload)[0].body
                == EventBody::Midi(data) && atom_event(time, payload)[0].sample_offset == (if time
                < 0x1_0000_0000 {
                time
            } else {
                0
            }),
            None => atom_event(time, payload).len() == 0,
        },
{
}

/// An atom that is no MIDI, or too long for a message, is passed over, whatever its
/// bytes are; one that does not lie within the sequence and the buffer ends the reading.
pub proof fn other_atoms_are_passed_over(
    e: Endian,
    urid: u32,
    buf: Seq<u8>,
    cursor: nat,
    body_end: nat,
)
    requires
        cursor + 16 <= body_end,
        cursor + 16 <= buf.len(),
    ensures
        ({
            let size = atom::field(e, buf, cursor as int + 8, 4);
            let kind = atom::field(e, buf, cursor as int + 12, 4);
            let fits = cursor + 16 + size <= body_end && cursor + 16 + size <= buf.len();
            let next = cursor + atom::padded(16 + size);
            &&& fits && (kind != urid || size == 0 || size > 8) ==> drained(
                e,
                urid,
                buf,
                cursor,
                body_end,
            ) == drained(e, urid, buf, next, body_end)
            &&& !fits ==> drained(e, urid, buf, cursor, body_end).len() == 0
        }),
{
    let size = atom::field(e, buf, cursor as int + 8, 4);
    let next = cursor + atom::padded(16 + size);
    assert(Seq::<Event>::empty() + drained(e, urid, buf, next, body_end) =~= drained(
        e,
        urid,
        buf,
        next,
        body_end,
    ));
}

} // verus!
