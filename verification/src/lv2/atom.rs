//! Atom sequences: the byte layout in which LV2 plugins exchange timed events.
//!
//! ```text
//! sequence header   u32 size, u32 type, u32 unit, u32 pad
//! event header      i64 time, u32 size, u32 type
//! object body       u32 id, u32 otype
//! property header   u32 key, u32 context, u32 size, u32 type
//! ```
//!
//! Every event and every property starts on a multiple of eight bytes. Numbers
//! stand in the byte order of the machine, which the caller passes in.

use crate::events::{Event, EventList};
use crate::lv2::midi::{self, midi_bytes};
use vstd::prelude::*;

verus! {

/// Bytes of an atom header.
pub const ATOM_SIZE: usize = 8;

/// Bytes of a sequence header.
pub const SEQUENCE_SIZE: usize = 16;

/// Bytes of an event header.
pub const EVENT_SIZE: usize = 16;

/// Bytes of an object body before its properties.
pub const OBJECT_BODY_SIZE: usize = 8;

/// Bytes of a property header.
pub const PROPERTY_SIZE: usize = 16;

/// Upper bound on the bytes of one `time:Position` event.
pub const TIME_POSITION_MAX_BYTES: usize = 280;

/// Byte order of numbers in memory.
#[derive(Clone, Copy, Debug, PartialEq, Eq, Structural)]
pub enum Endian {
    /// Least significant byte first.
    Little,
    /// Most significant byte first.
    Big,
}

// ---------------------------------------------------------------------------
// Numbers in memory
// ---------------------------------------------------------------------------

/// The `width` low bytes of `n`, least significant first.
pub open spec fn low_bytes(n: nat, width: nat) -> Seq<u8>
    decreases width,
{
    if width == 0 {
        Seq::empty()
    } else {
        seq![(n % 256) as u8] + low_bytes(n / 256, (width - 1) as nat)
    }
}

/// The number that `bytes` spell, least significant first.
pub open spec fn bytes_value(bytes: Seq<u8>) -> nat
    decreases bytes.len(),
{
    if bytes.len() == 0 {
        0
    } else {
        bytes[0] as nat + 256 * bytes_value(bytes.skip(1))
    }
}

/// The `width` low bytes of `n` in memory.
pub open spec fn word(e: Endian, n: nat, width: nat) -> Seq<u8> {
    match e {
        Endian::Little => low_bytes(n, width),
        Endian::Big => low_bytes(n, width).reverse(),
    }
}

/// The number that `bytes` hold in memory.
pub open spec fn word_value(e: Endian, bytes: Seq<u8>) -> nat {
    match e {
        Endian::Little => bytes_value(bytes),
        Endian::Big => bytes_value(bytes.reverse()),
    }
}

/// The number that `width` bytes of `buf` hold from `at` on.
pub open spec fn field(e: Endian, buf: Seq<u8>, at: int, width: int) -> nat {
    word_value(e, buf.subrange(at, at + width))
}

/// The number of values of `width` bytes.
pub open spec fn value_count(width: nat) -> nat
    decreases width,
{
    if width == 0 {
        1
    } else {
        256 * value_count((width - 1) as nat)
    }
}

/// A number keeps its length in memory.
pub proof fn word_len(e: Endian, n: nat, width: nat)
    ensures
        low_bytes(n, width).len() == width,
        word(e, n, width).len() == width,
    decreases width,
{
    if width > 0 {
        word_len(e, n / 256, (width - 1) as nat);
    }
}

/// Reading a number back from memory gives the number that was written, where
/// it fits.
pub proof fn word_reads_back(e: Endian, n: nat, width: nat)
    requires
        n < value_count(width),
    ensures
        word_value(e, word(e, n, width)) == n,
        word(e, n, width).len() == width,
{
    low_bytes_read_back(n, width);
    word_len(e, n, width);
    assert(low_bytes(n, width).reverse().reverse() =~= low_bytes(n, width));
}

proof fn low_bytes_read_back(n: nat, width: nat)
    requires
        n < value_count(width),
    ensures
        bytes_value(low_bytes(n, width)) == n,
    decreases width,
{
    if width > 0 {
        low_bytes_read_back(n / 256, (width - 1) as nat);
        assert(low_bytes(n, width).skip(1) =~= low_bytes(n / 256, (width - 1) as nat));
    }
}

/// In memory a number's lowest byte comes first on a machine with the least
/// significant byte first, and last on one with the most significant byte first;
/// the other bytes are those of the number's 256th part.
pub proof fn bytes_stand_in_order(n: nat, width: nat)
    requires
        width > 0,
    ensures
        word(Endian::Little, n, width).len() == width,
        word(Endian::Little, n, width).first() == n % 256,
        word(Endian::Little, n, width).skip(1) == word(
            Endian::Little,
            n / 256,
            (width - 1) as nat,
        ),
        word(Endian::Big, n, width) == word(Endian::Little, n, width).reverse(),
        word(Endian::Big, n, width).last() == n % 256,
{
    word_len(Endian::Little, n, width);
    word_len(Endian::Little, n / 256, (width - 1) as nat);
    assert(word(Endian::Little, n, width).skip(1) =~= word(
        Endian::Little,
        n / 256,
        (width - 1) as nat,
    ));
}

/// The two's complement of `n` in 64 bits.
pub open spec fn twos_complement(n: i64) -> nat {
    if n < 0 {
        (n + 0x1_0000_0000_0000_0000) as nat
    } else {
        n as nat
    }
}

/// The two's complement of `n` in 64 bits.
pub fn to_bits(n: i64) -> (bits: u64)
    ensures
        bits == twos_complement(n),
{
    if n >= 0 {
        n as u64
    } else {
        u64::MAX - (-(n + 1)) as u64
    }
}

/// `buf` with `bytes` written over it from `off` on.
pub open spec fn overlay(buf: Seq<u8>, off: int, bytes: Seq<u8>) -> Seq<u8> {
    Seq::new(
        buf.len(),
        |i: int|
            if off <= i < off + bytes.len() {
                bytes[i - off]
            } else {
                buf[i]
            },
    )
}

/// `n` rounded up to a multiple of eight.
pub open spec fn padded(n: nat) -> nat {
    (n + 7) / 8 * 8
}

/// Writes the `width` low bytes of `n` into `buf` from `off` on.
fn put_word(buf: &mut Vec<u8>, off: usize, e: Endian, n: u64, width: usize)
    requires
        off + width <= old(buf).len(),
    ensures
        final(buf)@ == overlay(old(buf)@, off as int, word(e, n as nat, width as nat)),
{
    let ghost start = buf@;
    let ghost low = low_bytes(n as nat, width as nat);
    proof {
        word_len(e, n as nat, width as nat);
    }
    let mut rest: u64 = n;
    let mut i: usize = 0;
    assert(low.skip(0) =~= low);
    while i < width
        invariant
            i <= width,
            off + width <= buf.len(),
            buf.len() == start.len(),
            low.len() == width,
            low.skip(i as int) == low_bytes(rest as nat, (width - i) as nat),
            e is Little ==> forall|j: int|
                0 <= j < buf.len() ==> #[trigger] buf@[j] == (if off <= j < off + i {
                    low[j - off]
                } else {
                    start[j]
                }),
            e is Big ==> forall|j: int|
                0 <= j < buf.len() ==> #[trigger] buf@[j] == (if off + width - i <= j < off
                    + width {
                    low[width - 1 - (j - off)]
                } else {
                    start[j]
                }),
        decreases width - i,
    {
        let byte: u8 = (rest % 256) as u8;
        proof {
            assert(low.skip(i as int)[0] == low[i as int]);
            assert(low[i as int] == byte);
            assert(low.skip(i as int).skip(1) =~= low.skip(i + 1));
            assert(low_bytes(rest as nat, (width - i) as nat).skip(1) =~= low_bytes(
                rest as nat / 256,
                (width - i - 1) as nat,
            )) by {
                word_len(e, rest as nat / 256, (width - i - 1) as nat);
            }
        }
        match e {
            Endian::Little => {
                buf.set(off + i, byte);
            },
            Endian::Big => {
                buf.set(off + (width - 1 - i), byte);
            },
        }
        rest = rest / 256;
        i += 1;
    }
    assert(buf@ =~= overlay(start, off as int, word(e, n as nat, width as nat)));
}

/// The number that `width` bytes of `buf` hold from `off` on.
pub(crate) fn get_word(buf: &Vec<u8>, off: usize, e: Endian, width: usize) -> (n: u64)
    requires
        off + width <= buf.len(),
        width <= 8,
    ensures
        n == field(e, buf@, off as int, width as int),
        n < value_count(width as nat),
{
    let ghost part = buf@.subrange(off as int, off + width);
    let ghost low = match e {
        Endian::Little => part,
        Endian::Big => part.reverse(),
    };
    let mut n: u64 = 0;
    let mut i: usize = width;
    assert(low.skip(width as int) =~= Seq::<u8>::empty());
    while i > 0
        invariant
            i <= width <= 8,
            off + width <= buf.len(),
            part == buf@.subrange(off as int, off + width),
            low == (match e {
                Endian::Little => part,
                Endian::Big => part.reverse(),
            }),
            n == bytes_value(low.skip(i as int)),
            n < value_count((width - i) as nat),
        decreases i,
    {
        let byte: u8 = match e {
            Endian::Little => buf[off + (i - 1)],
            Endian::Big => buf[off + (width - i)],
        };
        proof {
            assert(low.skip(i - 1)[0] == low[i - 1]);
            assert(low[i - 1] == byte);
            assert(low.skip(i - 1).skip(1) =~= low.skip(i as int));
            value_count_grows((width - i + 1) as nat, 8);
            reveal_with_fuel(value_count, 9);
        }
        n = byte as u64 + 256 * n;
        i -= 1;
    }
    assert(low.skip(0) =~= low);
    n
}

proof fn value_count_grows(a: nat, b: nat)
    requires
        a <= b,
    ensures
        value_count(a) <= value_count(b),
    decreases b - a,
{
    if a < b {
        value_count_grows(a, (b - 1) as nat);
    }
}

// ---------------------------------------------------------------------------
// Writing a sequence
// ---------------------------------------------------------------------------

/// The URIDs that type the atoms of a MIDI sequence.
#[derive(Clone, Copy, Debug, PartialEq, Eq, Structural)]
pub struct SequenceUrids {
    /// `atom:Sequence`.
    pub sequence: u32,
    /// `midi:MidiEvent`.
    pub midi_event: u32,
}

/// The URIDs of a `time:Position` object: its properties and their types.
#[derive(Clone, Copy, Debug, PartialEq, Eq, Structural)]
pub struct TimeUrids {
    /// `time:Position`.
    pub position: u32,
    /// `time:frame`.
    pub frame: u32,
    /// `time:speed`.
    pub speed: u32,
    /// `time:bar`.
    pub bar: u32,
    /// `time:barBeat`.
    pub bar_beat: u32,
    /// `time:beatsPerBar`.
    pub beats_per_bar: u32,
    /// `time:beatUnit`.
    pub beat_unit: u32,
    /// `time:beatsPerMinute`.
    pub bpm: u32,
    /// `atom:Long`.
    pub atom_long: u32,
    /// `atom:Float`.
    pub atom_float: u32,
    /// `atom:Int`.
    pub atom_int: u32,
    /// `atom:Object`.
    pub atom_object: u32,
}

/// Where in a bar playback stands.
#[derive(Clone, Copy, Debug, PartialEq, Eq, Structural)]
pub struct BarPosition {
    /// Number of the bar.
    pub bar: i64,
    /// Bit pattern of the single-precision beat within the bar, where known.
    pub bar_beat_bits: Option<u32>,
}

/// A time signature as a `time:Position` states it.
#[derive(Clone, Copy, Debug, PartialEq, Eq, Structural)]
pub struct SignaturePosition {
    /// Bit pattern of the single-precision number of beats per bar.
    pub beats_per_bar_bits: u32,
    /// Note value of one beat.
    pub beat_unit: u32,
    /// Bar position, where known.
    pub bar: Option<BarPosition>,
}

/// What a `time:Position` states.
#[derive(Clone, Copy, Debug, PartialEq, Eq, Structural)]
pub struct TimePosition {
    /// Whether playback rolls.
    pub playing: bool,
    /// Position in samples, where known.
    pub frame: Option<i64>,
    /// Bit pattern of the single-precision tempo, where known.
    pub bpm_bits: Option<u32>,
    /// Time signature, where known.
    pub signature: Option<SignaturePosition>,
}

/// One property of an object: a number of `width` bytes under a key.
pub struct Property {
    /// Key.
    pub key: u32,
    /// Type of the value.
    pub value_type: u32,
    /// The value's bits.
    pub value: nat,
    /// The value's width in bytes.
    pub width: nat,
}

/// Bit pattern of the single-precision 1.
pub const ONE_BITS: u32 = 0x3F80_0000;

/// The properties of a `time:Position`, in the order in which they are written.
pub open spec fn position_properties(u: TimeUrids, t: TimePosition) -> Seq<Property> {
    let speed = seq![
        Property {
            key: u.speed,
            value_type: u.atom_float,
            value: if t.playing {
                ONE_BITS as nat
            } else {
                0
            },
            width: 4,
        },
    ];
    let frame = match t.frame {
        Some(f) => seq![
            Property { key: u.frame, value_type: u.atom_long, value: twos_complement(f), width: 8 },
        ],
        None => Seq::empty(),
    };
    let bpm = match t.bpm_bits {
        Some(b) => seq![
            Property { key: u.bpm, value_type: u.atom_float, value: b as nat, width: 4 },
        ],
        None => Seq::empty(),
    };
    speed + frame + bpm + signature_properties(u, t.signature)
}

/// The properties that state a time signature.
pub open spec fn signature_properties(u: TimeUrids, s: Option<SignaturePosition>) -> Seq<Property> {
    match s {
        None => Seq::empty(),
        Some(s) => seq![
            Property {
                key: u.beats_per_bar,
                value_type: u.atom_float,
                value: s.beats_per_bar_bits as nat,
                width: 4,
            },
            Property {
                key: u.beat_unit,
                value_type: u.atom_int,
                value: s.beat_unit as nat,
                width: 4,
            },
        ] + bar_properties(u, s.bar),
    }
}

/// The properties that state a bar position.
pub open spec fn bar_properties(u: TimeUrids, b: Option<BarPosition>) -> Seq<Property> {
    match b {
        None => Seq::empty(),
        Some(b) => seq![
            Property {
                key: u.bar,
                value_type: u.atom_long,
                value: twos_complement(b.bar),
                width: 8,
            },
        ] + (match b.bar_beat_bits {
            Some(bits) => seq![
                Property {
                    key: u.bar_beat,
                    value_type: u.atom_float,
                    value: bits as nat,
                    width: 4,
                },
            ],
            None => Seq::empty(),
        }),
    }
}

/// The bytes of a property without padding.
pub open spec fn property_bytes(e: Endian, p: Property) -> Seq<u8> {
    word(e, p.key as nat, 4) + word(e, 0, 4) + word(e, p.width, 4) + word(
        e,
        p.value_type as nat,
        4,
    ) + word(e, p.value, p.width)
}

/// `buf` with `props` written one after the other from `off` on, and where they
/// end.
pub open spec fn with_properties(
    e: Endian,
    buf: Seq<u8>,
    off: nat,
    props: Seq<Property>,
) -> (Seq<u8>, nat)
    decreases props.len(),
{
    if props.len() == 0 {
        (buf, off)
    } else {
        let (b, o) = with_properties(e, buf, off, props.drop_last());
        let p = props.last();
        (overlay(b, o as int, property_bytes(e, p)), o + padded(PROPERTY_SIZE as nat + p.width))
    }
}

/// The bytes of an event header.
pub open spec fn event_header(e: Endian, time: nat, size: nat, urid: u32) -> Seq<u8> {
    word(e, time, 8) + word(e, size, 4) + word(e, urid as nat, 4)
}

/// The bytes of a sequence header whose body has `size` bytes.
pub open spec fn sequence_header(e: Endian, size: nat, urid: u32) -> Seq<u8> {
    word(e, size, 4) + word(e, urid as nat, 4) + word(e, 0, 4) + word(e, 0, 4)
}

/// `buf` with a `time:Position` event written from `base` on, and where it
/// ends. Without room for the largest such event nothing is written.
pub open spec fn with_position(
    e: Endian,
    u: TimeUrids,
    buf: Seq<u8>,
    base: nat,
    t: TimePosition,
) -> (Seq<u8>, nat) {
    if base + TIME_POSITION_MAX_BYTES > buf.len() {
        (buf, base)
    } else {
        let body = base + EVENT_SIZE as nat;
        let b0 = overlay(buf, body as int, word(e, 0, 4) + word(e, u.position as nat, 4));
        let (b1, end) = with_properties(
            e,
            b0,
            body + OBJECT_BODY_SIZE as nat,
            position_properties(u, t),
        );
        let header = event_header(e, 0, (end - body) as nat, u.atom_object);
        (overlay(b1, base as int, header), padded(end))
    }
}

/// `buf` with the MIDI messages among `events` written from `off` on, up to the
/// first that does not fit, and where they end.
pub open spec fn with_events(
    e: Endian,
    urid: u32,
    buf: Seq<u8>,
    off: nat,
    events: Seq<Event>,
) -> (Seq<u8>, nat)
    decreases events.len(),
{
    if events.len() == 0 {
        (buf, off)
    } else {
        match midi::midi_payload(events[0].body) {
            None => with_events(e, urid, buf, off, events.skip(1)),
            Some(payload) => {
                let room = padded(EVENT_SIZE as nat + payload.len());
                if off + room > buf.len() {
                    (buf, off)
                } else {
                    let header = event_header(
                        e,
                        events[0].sample_offset as nat,
                        payload.len(),
                        urid,
                    );
                    with_events(
                        e,
                        urid,
                        overlay(buf, off as int, header + payload),
                        off + room,
                        events.skip(1),
                    )
                }
            },
        }
    }
}

/// `buf` with an atom sequence written over it: the transport position at frame
/// 0, where there is one, then the MIDI messages among `events`. A buffer
/// without room for the header stays as it is.
pub open spec fn with_sequence(
    e: Endian,
    urids: SequenceUrids,
    time: TimeUrids,
    buf: Seq<u8>,
    events: Seq<Event>,
    position: Option<TimePosition>,
) -> Seq<u8> {
    if buf.len() < SEQUENCE_SIZE {
        buf
    } else {
        let (b1, o1) = match position {
            Some(t) => with_position(e, time, buf, SEQUENCE_SIZE as nat, t),
            None => (buf, SEQUENCE_SIZE as nat),
        };
        let (b2, o2) = with_events(e, urids.midi_event, b1, o1, events);
        overlay(b2, 0, sequence_header(e, (o2 - ATOM_SIZE) as nat, urids.sequence))
    }
}

/// Two writes one after the other are one write of both.
proof fn overlay_joins(buf: Seq<u8>, off: int, a: Seq<u8>, b: Seq<u8>)
    requires
        0 <= off,
        off + a.len() + b.len() <= buf.len(),
    ensures
        overlay(overlay(buf, off, a), off + a.len(), b) == overlay(buf, off, a + b),
{
    assert(overlay(overlay(buf, off, a), off + a.len(), b) =~= overlay(buf, off, a + b));
}

/// Writes an event header from `off` on.
fn put_event_header(buf: &mut Vec<u8>, off: usize, e: Endian, time: u64, size: u64, urid: u32)
    requires
        off + EVENT_SIZE <= old(buf).len(),
    ensures
        final(buf)@ == overlay(
            old(buf)@,
            off as int,
            event_header(e, time as nat, size as nat, urid),
        ),
{
    let ghost start = buf@;
    proof {
        word_len(e, time as nat, 8);
        word_len(e, size as nat, 4);
        word_len(e, urid as nat, 4);
    }
    put_word(buf, off, e, time, 8);
    put_word(buf, off + 8, e, size, 4);
    proof {
        overlay_joins(start, off as int, word(e, time as nat, 8), word(e, size as nat, 4));
    }
    put_word(buf, off + 12, e, urid as u64, 4);
    proof {
        overlay_joins(
            start,
            off as int,
            word(e, time as nat, 8) + word(e, size as nat, 4),
            word(e, urid as nat, 4),
        );
    }
}

/// Writes one property from `off` on and returns the next aligned offset.
fn write_property(
    buf: &mut Vec<u8>,
    off: usize,
    e: Endian,
    key: u32,
    value_type: u32,
    value: u64,
    width: usize,
) -> (end: usize)
    requires
        width <= 8,
        off + PROPERTY_SIZE + 8 <= old(buf).len(),
    ensures
        final(buf)@ == overlay(
            old(buf)@,
            off as int,
            property_bytes(
                e,
                (Property { key, value_type, value: value as nat, width: width as nat }),
            ),
        ),
        final(buf).len() == old(buf).len(),
        end == off + padded((PROPERTY_SIZE + width) as nat),
        end <= off + PROPERTY_SIZE + 8,
{
    let ghost start = buf@;
    let ghost w0 = word(e, key as nat, 4);
    let ghost w1 = word(e, 0, 4);
    let ghost w2 = word(e, width as nat, 4);
    let ghost w3 = word(e, value_type as nat, 4);
    let ghost w4 = word(e, value as nat, width as nat);
    proof {
        word_len(e, key as nat, 4);
        word_len(e, 0, 4);
        word_len(e, width as nat, 4);
        word_len(e, value_type as nat, 4);
        word_len(e, value as nat, width as nat);
    }
    put_word(buf, off, e, key as u64, 4);
    put_word(buf, off + 4, e, 0, 4);
    proof {
        overlay_joins(start, off as int, w0, w1);
    }
    put_word(buf, off + 8, e, width as u64, 4);
    proof {
        overlay_joins(start, off as int, w0 + w1, w2);
    }
    put_word(buf, off + 12, e, value_type as u64, 4);
    proof {
        overlay_joins(start, off as int, w0 + w1 + w2, w3);
    }
    put_word(buf, off + 16, e, value, width);
    proof {
        overlay_joins(start, off as int, w0 + w1 + w2 + w3, w4);
    }
    off + (PROPERTY_SIZE + width + 7) / 8 * 8
}

/// Appending a property to a written list writes it behind the others.
proof fn properties_push(e: Endian, buf: Seq<u8>, off: nat, props: Seq<Property>, p: Property)
    ensures
        ({
            let (b, o) = with_properties(e, buf, off, props);
            with_properties(e, buf, off, props.push(p)) == (
                overlay(b, o as int, property_bytes(e, p)),
                o + padded(PROPERTY_SIZE as nat + p.width),
            )
        }),
{
    assert(props.push(p).drop_last() =~= props);
}

/// Writes one more property behind `props`, which stand in `buf` up to `off`.
fn add_property(
    buf: &mut Vec<u8>,
    off: usize,
    e: Endian,
    key: u32,
    value_type: u32,
    value: u64,
    width: usize,
    Ghost(b0): Ghost<Seq<u8>>,
    Ghost(o0): Ghost<nat>,
    Ghost(props): Ghost<Seq<Property>>,
) -> (end: usize)
    requires
        width <= 8,
        off + PROPERTY_SIZE + 8 <= old(buf).len(),
        with_properties(e, b0, o0, props) == (old(buf)@, off as nat),
    ensures
        with_properties(
            e,
            b0,
            o0,
            props.push((Property { key, value_type, value: value as nat, width: width as nat })),
        ) == (final(buf)@, end as nat),
        final(buf).len() == old(buf).len(),
        off <= end <= off + PROPERTY_SIZE + 8,
{
    proof {
        properties_push(
            e,
            b0,
            o0,
            props,
            Property { key, value_type, value: value as nat, width: width as nat },
        );
    }
    write_property(buf, off, e, key, value_type, value, width)
}

/// Writes the properties of a time signature behind `props`.
fn add_signature(
    buf: &mut Vec<u8>,
    off: usize,
    e: Endian,
    urids: &TimeUrids,
    s: SignaturePosition,
    Ghost(b0): Ghost<Seq<u8>>,
    Ghost(o0): Ghost<nat>,
    Ghost(props): Ghost<Seq<Property>>,
) -> (end: usize)
    requires
        off + 4 * (PROPERTY_SIZE + 8) <= old(buf).len(),
        with_properties(e, b0, o0, props) == (old(buf)@, off as nat),
    ensures
        with_properties(e, b0, o0, props + signature_properties(*urids, Some(s))) == (
            final(buf)@,
            end as nat,
        ),
        final(buf).len() == old(buf).len(),
        off <= end <= off + 4 * (PROPERTY_SIZE + 8),
{
    let ghost p0 = Property {
        key: urids.beats_per_bar,
        value_type: urids.atom_float,
        value: s.beats_per_bar_bits as nat,
        width: 4,
    };
    let ghost p1 = Property {
        key: urids.beat_unit,
        value_type: urids.atom_int,
        value: s.beat_unit as nat,
        width: 4,
    };
    let mut end: usize = add_property(
        buf,
        off,
        e,
        urids.beats_per_bar,
        urids.atom_float,
        s.beats_per_bar_bits as u64,
        4,
        Ghost(b0),
        Ghost(o0),
        Ghost(props),
    );
    end =
    add_property(
        buf,
        end,
        e,
        urids.beat_unit,
        urids.atom_int,
        s.beat_unit as u64,
        4,
        Ghost(b0),
        Ghost(o0),
        Ghost(props.push(p0)),
    );
    let ghost mut done = props.push(p0).push(p1);
    if let Some(b) = s.bar {
        let bits: u64 = to_bits(b.bar);
        end =
        add_property(
            buf,
            end,
            e,
            urids.bar,
            urids.atom_long,
            bits,
            8,
            Ghost(b0),
            Ghost(o0),
            Ghost(done),
        );
        proof {
            done =
            done.push(
                Property {
                    key: urids.bar,
                    value_type: urids.atom_long,
                    value: bits as nat,
                    width: 8,
                },
            );
        }
        if let Some(beat) = b.bar_beat_bits {
            end =
            add_property(
                buf,
                end,
                e,
                urids.bar_beat,
                urids.atom_float,
                beat as u64,
                4,
                Ghost(b0),
                Ghost(o0),
                Ghost(done),
            );
            proof {
                done =
                done.push(
                    Property {
                        key: urids.bar_beat,
                        value_type: urids.atom_float,
                        value: beat as nat,
                        width: 4,
                    },
                );
            }
        }
    }
    assert(done =~= props + signature_properties(*urids, Some(s)));
    end
}

/// Writes the properties of a `time:Position` from `first` on and returns where
/// they end.
fn add_position(
    buf: &mut Vec<u8>,
    first: usize,
    e: Endian,
    urids: &TimeUrids,
    t: &TimePosition,
) -> (end: usize)
    requires
        first + 7 * (PROPERTY_SIZE + 8) <= old(buf).len(),
    ensures
        with_properties(e, old(buf)@, first as nat, position_properties(*urids, *t)) == (
            final(buf)@,
            end as nat,
        ),
        final(buf).len() == old(buf).len(),
        first <= end <= first + 7 * (PROPERTY_SIZE + 8),
{
    let ghost b0 = buf@;
    let ghost o0 = first as nat;
    let ghost mut props = Seq::<Property>::empty();
    assert(with_properties(e, b0, o0, props) == (b0, o0));

    let speed: u32 = if t.playing {
        ONE_BITS
    } else {
        0
    };
    let mut off: usize = add_property(
        buf,
        first,
        e,
        urids.speed,
        urids.atom_float,
        speed as u64,
        4,
        Ghost(b0),
        Ghost(o0),
        Ghost(props),
    );
    proof {
        props =
        props.push(
            Property {
                key: urids.speed,
                value_type: urids.atom_float,
                value: speed as nat,
                width: 4,
            },
        );
    }
    if let Some(frame) = t.frame {
        let bits: u64 = to_bits(frame);
        off =
        add_property(
            buf,
            off,
            e,
            urids.frame,
            urids.atom_long,
            bits,
            8,
            Ghost(b0),
            Ghost(o0),
            Ghost(props),
        );
        proof {
            props =
            props.push(
                Property {
                    key: urids.frame,
                    value_type: urids.atom_long,
                    value: bits as nat,
                    width: 8,
                },
            );
        }
    }
    if let Some(bpm) = t.bpm_bits {
        off =
        add_property(
            buf,
            off,
            e,
            urids.bpm,
            urids.atom_float,
            bpm as u64,
            4,
            Ghost(b0),
            Ghost(o0),
            Ghost(props),
        );
        proof {
            props =
            props.push(
                Property {
                    key: urids.bpm,
                    value_type: urids.atom_float,
                    value: bpm as nat,
                    width: 4,
                },
            );
        }
    }
    assert(props + signature_properties(*urids, t.signature) =~= position_properties(*urids, *t));
    if let Some(s) = t.signature {
        off = add_signature(buf, off, e, urids, s, Ghost(b0), Ghost(o0), Ghost(props));
    } else {
        assert(props =~= position_properties(*urids, *t));
    }
    off
}

/// Writes a `time:Position` event at frame 0 from `base` on and returns the
/// offset past it; returns `base` and writes nothing where there is no room.
pub fn write_time_position(
    urids: &TimeUrids,
    buf: &mut Vec<u8>,
    base: usize,
    e: Endian,
    t: &TimePosition,
) -> (end: usize)
    ensures
        (final(buf)@, end as nat) == with_position(e, *urids, old(buf)@, base as nat, *t),
        final(buf).len() == old(buf).len(),
        base <= end,
        end > base ==> end <= old(buf).len(),
{
    if base > buf.len() || buf.len() - base < TIME_POSITION_MAX_BYTES {
        return base;
    }
    let ghost start = buf@;
    let body: usize = base + EVENT_SIZE;
    proof {
        word_len(e, 0, 4);
        word_len(e, urids.position as nat, 4);
    }
    put_word(buf, body, e, 0, 4);
    put_word(buf, body + 4, e, urids.position as u64, 4);
    proof {
        overlay_joins(start, body as int, word(e, 0, 4), word(e, urids.position as nat, 4));
    }
    let off: usize = add_position(buf, body + OBJECT_BODY_SIZE, e, urids, t);
    put_event_header(buf, base, e, 0, (off - body) as u64, urids.atom_object);
    (off + 7) / 8 * 8
}

/// Writes the bytes of one MIDI message from `off` on.
fn put_message(buf: &mut Vec<u8>, off: usize, status: u8, d1: u8, d2: u8, len: usize)
    requires
        1 <= len <= 3,
        off + len <= old(buf).len(),
    ensures
        final(buf)@ == overlay(
            old(buf)@,
            off as int,
            seq![status, d1, d2].take(len as int),
        ),
{
    let ghost start = buf@;
    buf.set(off, status);
    if len >= 2 {
        buf.set(off + 1, d1);
    }
    if len >= 3 {
        buf.set(off + 2, d2);
    }
    assert(buf@ =~= overlay(start, off as int, seq![status, d1, d2].take(len as int)));
}

/// Fills `buf` with an atom sequence that carries the transport position and
/// the MIDI messages among `events`.
pub fn build_midi_sequence(
    urids: &SequenceUrids,
    time: &TimeUrids,
    e: Endian,
    buf: &mut Vec<u8>,
    events: &EventList,
    position: Option<TimePosition>,
)
    ensures
        final(buf)@ == with_sequence(e, *urids, *time, old(buf)@, events@, position),
{
    if buf.len() < SEQUENCE_SIZE {
        return;
    }
    let ghost start = buf@;
    let mut off: usize = SEQUENCE_SIZE;
    if let Some(t) = position {
        off = write_time_position(time, buf, SEQUENCE_SIZE, e, &t);
    }
    let ghost b1 = buf@;
    let ghost o1 = off as nat;
    let list = events.as_slice();
    let cap: usize = buf.len();
    let mut i: usize = 0;
    assert(list@.skip(0) =~= list@);
    while i < list.len()
        invariant_except_break
            with_events(e, urids.midi_event, b1, o1, list@) == with_events(
                e,
                urids.midi_event,
                buf@,
                off as nat,
                list@.skip(i as int),
            ),
        invariant
            i <= list.len(),
            list@ == events@,
            SEQUENCE_SIZE <= off <= cap,
            buf.len() == cap,
        ensures
            with_events(e, urids.midi_event, b1, o1, list@) == (buf@, off as nat),
        decreases list.len() - i,
    {
        let ghost rest = list@.skip(i as int);
        assert(rest[0] == list@[i as int]);
        assert(rest.skip(1) =~= list@.skip(i + 1));
        if let Some((status, d1, d2, len)) = midi_bytes(&list[i].body) {
            let room: usize = (EVENT_SIZE + len + 7) / 8 * 8;
            if cap - off < room {
                break;
            }
            let ghost before = buf@;
            let ghost payload = seq![status, d1, d2].take(len as int);
            let ghost header = event_header(
                e,
                list@[i as int].sample_offset as nat,
                len as nat,
                urids.midi_event,
            );
            put_event_header(
                buf,
                off,
                e,
                list[i].sample_offset as u64,
                len as u64,
                urids.midi_event,
            );
            put_message(buf, off + EVENT_SIZE, status, d1, d2, len);
            proof {
                word_len(e, list@[i as int].sample_offset as nat, 8);
                word_len(e, len as nat, 4);
                word_len(e, urids.midi_event as nat, 4);
                assert(header.len() == EVENT_SIZE);
                overlay_joins(before, off as int, header, payload);
            }
            off += room;
        }
        i += 1;
    }
    let ghost b2 = buf@;
    let ghost w0 = word(e, (off - ATOM_SIZE) as nat, 4);
    let ghost w1 = word(e, urids.sequence as nat, 4);
    let ghost w2 = word(e, 0, 4);
    proof {
        word_len(e, (off - ATOM_SIZE) as nat, 4);
        word_len(e, urids.sequence as nat, 4);
        word_len(e, 0, 4);
    }
    put_word(buf, 0, e, (off - ATOM_SIZE) as u64, 4);
    put_word(buf, 4, e, urids.sequence as u64, 4);
    proof {
        overlay_joins(b2, 0, w0, w1);
    }
    put_word(buf, 8, e, 0, 4);
    proof {
        overlay_joins(b2, 0, w0 + w1, w2);
    }
    put_word(buf, 12, e, 0, 4);
    proof {
        overlay_joins(b2, 0, w0 + w1 + w2, w2);
    }
}

/// Resets `buf` to an empty sequence for a plugin to write into. A buffer
/// without room for the header stays as it is.
pub fn prep_midi_out(urids: &SequenceUrids, e: Endian, buf: &mut Vec<u8>)
    ensures
        final(buf)@ == (if old(buf).len() < SEQUENCE_SIZE {
            old(buf)@
        } else {
            overlay(
                old(buf)@,
                0,
                sequence_header(e, (SEQUENCE_SIZE - ATOM_SIZE) as nat, urids.sequence),
            )
        }),
{
    if buf.len() < SEQUENCE_SIZE {
        return;
    }
    let ghost b2 = buf@;
    let ghost w0 = word(e, 8, 4);
    let ghost w1 = word(e, urids.sequence as nat, 4);
    let ghost w2 = word(e, 0, 4);
    proof {
        word_len(e, 8, 4);
        word_len(e, urids.sequence as nat, 4);
        word_len(e, 0, 4);
    }
    put_word(buf, 0, e, 8, 4);
    put_word(buf, 4, e, urids.sequence as u64, 4);
    proof {
        overlay_joins(b2, 0, w0, w1);
    }
    put_word(buf, 8, e, 0, 4);
    proof {
        overlay_joins(b2, 0, w0 + w1, w2);
    }
    put_word(buf, 12, e, 0, 4);
    proof {
        overlay_joins(b2, 0, w0 + w1 + w2, w2);
    }
}

/// Atoms have the layout that LV2 gives them. An event starts with its time in eight
/// bytes, its size in four and its type in four; a sequence with its size, its type, and
/// eight bytes that are zero.
pub proof fn headers_have_the_layout_of_lv2(e: Endian, time: nat, size: nat, urid: u32)
    requires
        time < 0x1_0000_0000_0000_0000,
        size < 0x1_0000_0000,
    ensures
        event_header(e, time, size, urid).len() == 16,
        field(e, event_header(e, time, size, urid), 0, 8) == time,
        field(e, event_header(e, time, size, urid), 8, 4) == size,
        field(e, event_header(e, time, size, urid), 12, 4) == urid,
        sequence_header(e, size, urid).len() == 16,
        field(e, sequence_header(e, size, urid), 0, 4) == size,
        field(e, sequence_header(e, size, urid), 4, 4) == urid,
        field(e, sequence_header(e, size, urid), 8, 4) == 0,
        field(e, sequence_header(e, size, urid), 12, 4) == 0,
{
    reveal_with_fuel(value_count, 9);
    word_reads_back(e, time, 8);
    word_reads_back(e, size, 4);
    word_reads_back(e, urid as nat, 4);
    word_reads_back(e, 0, 4);
    let h = event_header(e, time, size, urid);
    assert(h.subrange(0, 8) =~= word(e, time, 8));
    assert(h.subrange(8, 12) =~= word(e, size, 4));
    assert(h.subrange(12, 16) =~= word(e, urid as nat, 4));
    let s = sequence_header(e, size, urid);
    assert(s.subrange(0, 4) =~= word(e, size, 4));
    assert(s.subrange(4, 8) =~= word(e, urid as nat, 4));
    assert(s.subrange(8, 12) =~= word(e, 0, 4));
    assert(s.subrange(12, 16) =~= word(e, 0, 4));
}

/// A sequence has the type of sequences, and without events and a position its body is
/// the eight bytes after its size and type.
pub proof fn sequences_have_their_type(
    e: Endian,
    urids: SequenceUrids,
    time: TimeUrids,
    buf: Seq<u8>,
    events: Seq<Event>,
    position: Option<TimePosition>,
)
    requires
        buf.len() >= 16,
    ensures
        ({
            let b = with_sequence(e, urids, time, buf, events, position);
            &&& b.len() == buf.len()
            &&& field(e, b, 4, 4) == urids.sequence
            &&& field(e, b, 8, 4) == 0
            &&& position is None && events.len() == 0 ==> field(e, b, 0, 4) == 8 && b.skip(16)
                == buf.skip(16)
        }),
{
    let (b1, o1) = match position {
        Some(t) => with_position(e, time, buf, SEQUENCE_SIZE as nat, t),
        None => (buf, SEQUENCE_SIZE as nat),
    };
    if let Some(t) = position {
        let body = SEQUENCE_SIZE as nat + EVENT_SIZE as nat;
        let b0 = overlay(buf, body as int, word(e, 0, 4) + word(e, time.position as nat, 4));
        properties_keep_length(e, b0, body + OBJECT_BODY_SIZE as nat, position_properties(time, t));
    }
    let (b2, o2) = with_events(e, urids.midi_event, b1, o1, events);
    events_keep_length(e, urids.midi_event, b1, o1, events);
    let size = (o2 - ATOM_SIZE) as nat;
    let header = sequence_header(e, size, urids.sequence);
    let b = with_sequence(e, urids, time, buf, events, position);
    reveal_with_fuel(value_count, 9);
    word_len(e, size, 4);
    word_reads_back(e, urids.sequence as nat, 4);
    word_reads_back(e, 0, 4);
    assert(b.subrange(4, 8) =~= word(e, urids.sequence as nat, 4));
    assert(b.subrange(8, 12) =~= word(e, 0, 4));
    if position is None && events.len() == 0 {
        word_reads_back(e, 8, 4);
        assert(b.subrange(0, 4) =~= word(e, 8, 4));
        assert(b.skip(16) =~= buf.skip(16));
    }
}

proof fn properties_keep_length(e: Endian, buf: Seq<u8>, off: nat, props: Seq<Property>)
    ensures
        with_properties(e, buf, off, props).0.len() == buf.len(),
        with_properties(e, buf, off, props).1 >= off,
    decreases props.len(),
{
    if props.len() > 0 {
        properties_keep_length(e, buf, off, props.drop_last());
    }
}

proof fn events_keep_length(e: Endian, urid: u32, buf: Seq<u8>, off: nat, events: Seq<Event>)
    ensures
        with_events(e, urid, buf, off, events).0.len() == buf.len(),
        with_events(e, urid, buf, off, events).1 >= off,
    decreases events.len(),
{
    if events.len() > 0 {
        match midi::midi_payload(events[0].body) {
            None => events_keep_length(e, urid, buf, off, events.skip(1)),
            Some(payload) => {
                let room = padded(EVENT_SIZE as nat + payload.len());
                let header = event_header(
                    e,
                    events[0].sample_offset as nat,
                    payload.len(),
                    urid,
                );
                let b = overlay(buf, off as int, header + payload);
                events_keep_length(e, urid, b, off + room, events.skip(1));
            },
        }
    }
}

/// A size is rounded up to the next multiple of eight, and no further.
pub proof fn sizes_are_rounded_up(n: nat)
    ensures
        padded(n) % 8 == 0,
        n <= padded(n),
        padded(n) < n + 8,
{
}

/// Negative numbers are stored with the bits that two's complement gives them.
pub proof fn negative_numbers_keep_their_bits(n: i64)
    ensures
        twos_complement(n) == n as u64,
        n >= 0 ==> twos_complement(n) == n,
        n < 0 ==> twos_complement(n) - n == 0x1_0000_0000_0000_0000,
{
    assert(n < 0 ==> n as u64 == n + 0x1_0000_0000_0000_0000) by (bit_vector);
}

/// A property has the layout that LV2 gives it: its key, a context that is zero, the
/// size and the type of its value, and the value.
pub proof fn properties_have_the_layout_of_lv2(e: Endian, p: Property)
    requires
        p.width == 4 || p.width == 8,
        p.value < value_count(p.width),
    ensures
        ({
            let b = property_bytes(e, p);
            &&& b.len() == 16 + p.width
            &&& field(e, b, 0, 4) == p.key
            &&& field(e, b, 4, 4) == 0
            &&& field(e, b, 8, 4) == p.width
            &&& field(e, b, 12, 4) == p.value_type
            &&& field(e, b, 16, p.width as int) == p.value
        }),
{
    reveal_with_fuel(value_count, 5);
    word_reads_back(e, p.key as nat, 4);
    word_reads_back(e, 0, 4);
    word_reads_back(e, p.width, 4);
    word_reads_back(e, p.value_type as nat, 4);
    word_reads_back(e, p.value, p.width);
    let b = property_bytes(e, p);
    assert(b.subrange(0, 4) =~= word(e, p.key as nat, 4));
    assert(b.subrange(4, 8) =~= word(e, 0, 4));
    assert(b.subrange(8, 12) =~= word(e, p.width, 4));
    assert(b.subrange(12, 16) =~= word(e, p.value_type as nat, 4));
    assert(b.subrange(16, 16 + p.width as int) =~= word(e, p.value, p.width));
}

} // verus!
