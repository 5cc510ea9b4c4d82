//! Reading a transport position back out of an atom sequence, as a plugin does.

use crate::events::Event;
use crate::lv2::atom::{
    self, Endian, Property, SequenceUrids, TimePosition, TimeUrids, ATOM_SIZE, EVENT_SIZE,
    OBJECT_BODY_SIZE, SEQUENCE_SIZE, TIME_POSITION_MAX_BYTES,
};
use crate::lv2::drain;
use vstd::prelude::*;

verus! {

/// The type and the bits of the value under `key` among the properties that stand
/// in `buf` from `at` to `end`: each starts with its key, its context, the size of
/// its value and its type, four bytes each, and the next one starts on the next
/// multiple of eight bytes.
pub open spec fn value_under(e: Endian, buf: Seq<u8>, at: nat, end: nat, key: u32) -> Option<
    (nat, nat),
>
    decreases end + 8 - at,
{
    let size = atom::field(e, buf, at as int + 8, 4);
    if at + 16 > end || at + 16 + size > end {
        None
    } else if atom::field(e, buf, at as int, 4) == key {
        Some(
            (
                atom::field(e, buf, at as int + 12, 4),
                atom::field(e, buf, at as int + 16, size as int),
            ),
        )
    } else {
        value_under(e, buf, at + (16 + size + 7) / 8 * 8, end, key)
    }
}

/// The type and the bits of the value under `key` of the object whose event starts
/// at `base`: its header states its size and type, and its properties follow its
/// id and class.
pub open spec fn object_value(e: Endian, buf: Seq<u8>, base: nat, key: u32) -> Option<(nat, nat)> {
    let size = atom::field(e, buf, base as int + 8, 4);
    value_under(e, buf, base + 24, base + 16 + size, key)
}

/// The number that 64 bits stand for in two's complement.
pub open spec fn signed_number(bits: nat) -> int {
    if bits < 0x8000_0000_0000_0000 {
        bits as int
    } else {
        bits - 0x1_0000_0000_0000_0000
    }
}

/// Whether the keys of a position are told apart.
pub open spec fn keys_differ(u: TimeUrids) -> bool {
    &&& u.speed != u.frame && u.speed != u.bpm && u.speed != u.beats_per_bar && u.speed
        != u.beat_unit && u.speed != u.bar && u.speed != u.bar_beat
    &&& u.frame != u.bpm && u.frame != u.beats_per_bar && u.frame != u.beat_unit && u.frame != u.bar
        && u.frame != u.bar_beat
    &&& u.bpm != u.beats_per_bar && u.bpm != u.beat_unit && u.bpm != u.bar && u.bpm != u.bar_beat
    &&& u.beats_per_bar != u.beat_unit && u.beats_per_bar != u.bar && u.beats_per_bar != u.bar_beat
    &&& u.beat_unit != u.bar && u.beat_unit != u.bar_beat
    &&& u.bar != u.bar_beat
}

/// Whether the object that starts at `base` states the position `t`, and nothing
/// that is not known of it: under each key stands a value of the key's type, just
/// where the position has that value.
pub open spec fn states_position(
    e: Endian,
    buf: Seq<u8>,
    base: nat,
    u: TimeUrids,
    t: TimePosition,
) -> bool {
    let at = |key: u32| object_value(e, buf, base, key);
    &&& atom::field(e, buf, base as int, 8) == 0
    &&& atom::field(e, buf, base as int + 12, 4) == u.atom_object
    &&& atom::field(e, buf, base as int + 20, 4) == u.position
    &&& at(u.speed) == Some(
        (
            u.atom_float as nat,
            if t.playing {
                0x3F80_0000nat
            } else {
                0nat
            },
        ),
    )
    &&& match (t.frame, at(u.frame)) {
        (Some(frame), Some((kind, bits))) => kind == u.atom_long && signed_number(bits) == frame,
        (None, None) => true,
        _ => false,
    }
    &&& match (t.bpm_bits, at(u.bpm)) {
        (Some(bpm), Some((kind, bits))) => kind == u.atom_float && bits == bpm,
        (None, None) => true,
        _ => false,
    }
    &&& match (t.signature, at(u.beats_per_bar), at(u.beat_unit)) {
        (Some(s), Some((k1, beats)), Some((k2, unit))) => k1 == u.atom_float && beats
            == s.beats_per_bar_bits && k2 == u.atom_int && unit == s.beat_unit,
        (None, None, None) => true,
        _ => false,
    }
    &&& match (t.signature, at(u.bar)) {
        (Some(s), Some((kind, bits))) => s.bar is Some && kind == u.atom_long && signed_number(bits)
            == s.bar->0.bar,
        (Some(s), None) => s.bar is None,
        (None, found) => found is None,
    }
    &&& match (t.signature, at(u.bar_beat)) {
        (Some(s), Some((kind, bits))) => s.bar is Some && kind == u.atom_float
            && s.bar->0.bar_beat_bits is Some && bits == s.bar->0.bar_beat_bits->0,
        (Some(s), None) => s.bar is None || s.bar->0.bar_beat_bits is None,
        (None, found) => found is None,
    }
}

// ---------------------------------------------------------------------------
// Proofs
// ---------------------------------------------------------------------------

/// Whether a property's numbers fit their fields.
spec fn fits(p: Property) -> bool {
    &&& p.width == 4 || p.width == 8
    &&& p.value < atom::value_count(p.width)
}

/// Whether the bytes of `p` stand in `buf` from `at` on.
#[verifier::opaque]
spec fn stands(e: Endian, buf: Seq<u8>, at: nat, p: Property) -> bool {
    buf.subrange(at as int, at as int + 16 + p.width) == atom::property_bytes(e, p)
}

/// The bytes of a property hold its fields.
proof fn property_fields(e: Endian, p: Property, buf: Seq<u8>, start: nat)
    requires
        fits(p),
        start + 16 + p.width <= buf.len(),
        stands(e, buf, start, p),
    ensures
        atom::field(e, buf, start as int, 4) == p.key,
        atom::field(e, buf, start as int + 8, 4) == p.width,
        atom::field(e, buf, start as int + 12, 4) == p.value_type,
        atom::field(e, buf, start as int + 16, p.width as int) == p.value,
{
    reveal(stands);
    let at = start as int;
    reveal_with_fuel(atom::value_count, 9);
    atom::word_reads_back(e, p.key as nat, 4);
    atom::word_reads_back(e, 0, 4);
    atom::word_reads_back(e, p.width, 4);
    atom::word_reads_back(e, p.value_type as nat, 4);
    atom::word_reads_back(e, p.value, p.width);
    let whole = buf.subrange(at, at + 16 + p.width);
    assert(buf.subrange(at, at + 4) =~= whole.subrange(0, 4));
    assert(buf.subrange(at + 8, at + 8 + 4) =~= whole.subrange(8, 12));
    assert(buf.subrange(at + 12, at + 12 + 4) =~= whole.subrange(12, 16));
    assert(buf.subrange(at + 16, at + 16 + p.width) =~= whole.subrange(16, 16int + p.width));
    assert(whole.subrange(0, 4) =~= atom::word(e, p.key as nat, 4));
    assert(whole.subrange(8, 12) =~= atom::word(e, p.width, 4));
    assert(whole.subrange(12, 16) =~= atom::word(e, p.value_type as nat, 4));
    assert(whole.subrange(16, 16int + p.width) =~= atom::word(e, p.value, p.width));
}

/// The length of a property's bytes.
proof fn property_len(e: Endian, p: Property)
    ensures
        atom::property_bytes(e, p).len() == 16 + p.width,
{
    atom::word_len(e, p.key as nat, 4);
    atom::word_len(e, 0, 4);
    atom::word_len(e, p.width, 4);
    atom::word_len(e, p.value_type as nat, 4);
    atom::word_len(e, p.value, p.width);
}

/// Written properties stand one after the other, and all else is left.
proof fn properties_stand(e: Endian, buf: Seq<u8>, off: nat, props: Seq<Property>)
    requires
        off + 24 * props.len() <= buf.len(),
        forall|j: int| 0 <= j < props.len() ==> fits(#[trigger] props[j]),
    ensures
        ({
            let (b, end) = atom::with_properties(e, buf, off, props);
            &&& b.len() == buf.len()
            &&& end == off + 24 * props.len()
            &&& forall|i: int| 0 <= i < off && i < buf.len() ==> b[i] == buf[i]
            &&& forall|k: int|
                0 <= k < props.len() ==> stands(e, b, off + (24 * k) as nat, #[trigger] props[k])
        }),
    decreases props.len(),
{
    if props.len() > 0 {
        let less = props.drop_last();
        let n = less.len() as int;
        assert(props[n] == props.last());
        let (b, o) = atom::with_properties(e, buf, off, less);
        properties_stand(e, buf, off, less);
        property_len(e, props.last());
        let after = atom::overlay(b, o as int, atom::property_bytes(e, props.last()));
        assert(atom::with_properties(e, buf, off, props).0 == after);
        assert forall|k: int| 0 <= k < props.len() implies stands(e, after, off + (24 * k) as nat, #[trigger] props[k]) by {
            let from = (off + (24 * k) as nat) as int;
            let to = from + 16 + props[k].width;
            reveal(stands);
            property_len(e, props[k]);
            if k < n {
                assert(less[k] == props[k]);
                assert(stands(e, b, off + (24 * k) as nat, less[k]));
                assert(after.subrange(from, to) =~= b.subrange(from, to));
            } else {
                assert(after.subrange(from, to) =~= atom::property_bytes(e, props[k]));
            }
        }
    }
}

/// Reading properties from `k` on finds the value under a key that no earlier
/// one of them has.
proof fn value_is_found(
    e: Endian,
    seen: Seq<u8>,
    off: nat,
    props: Seq<Property>,
    k: int,
    key: u32,
    i: int,
)
    requires
        0 <= k <= i <= props.len(),
        off + 24 * props.len() <= seen.len(),
        forall|j: int| 0 <= j < props.len() ==> fits(#[trigger] props[j]),
        forall|j: int|
            0 <= j < props.len() ==> stands(e, seen, off + (24 * j) as nat, #[trigger] props[j]),
        forall|j: int| k <= j < i ==> (#[trigger] props[j]).key != key,
        i < props.len() ==> props[i].key == key,
    ensures
        value_under(
            e,
            seen,
            off + (24 * k) as nat,
            off + 24 * props.len(),
            key,
        ) == (if i < props.len() {
            Some((props[i].value_type as nat, props[i].value))
        } else {
            None
        }),
    decreases props.len() - k,
{
    if k < props.len() {
        let at = off + (24 * k) as nat;
        property_fields(e, props[k], seen, at);
        if k < i {
            value_is_found(e, seen, off, props, k + 1, key, i);
        }
    }
}

proof fn word_ranges()
    ensures
        atom::value_count(4) == 0x1_0000_0000,
        atom::value_count(8) == 0x1_0000_0000_0000_0000,
{
    reveal_with_fuel(atom::value_count, 9);
}

/// The properties of a position fit their fields and their room.
proof fn position_fits(u: TimeUrids, t: TimePosition)
    ensures
        ({
            let props = atom::position_properties(u, t);
            &&& props.len() <= 7
            &&& forall|j: int| 0 <= j < props.len() ==> fits(#[trigger] props[j])
        }),
{
    word_ranges();
    places(u, t);
    let props = atom::position_properties(u, t);
}

/// Which property of a position stands where.
proof fn places(u: TimeUrids, t: TimePosition)
    ensures
        ({
            let props = atom::position_properties(u, t);
            let f: int = if t.frame is Some {
                1
            } else {
                0
            };
            let m: int = if t.bpm_bits is Some {
                1
            } else {
                0
            };
            let s = 1 + f + m;
            &&& props[0].key == u.speed && props[0].width == 4
            &&& f == 1 ==> props[1].key == u.frame && props[1].width == 8
            &&& m == 1 ==> props[1 + f].key == u.bpm && props[1 + f].width == 4
            &&& t.signature is None ==> props.len() == s
            &&& t.signature matches Some(g) ==> {
                &&& props[s].key == u.beats_per_bar && props[s].width == 4
                &&& props[s + 1].key == u.beat_unit && props[s + 1].width == 4
                &&& g.bar is None ==> props.len() == s + 2
                &&& g.bar matches Some(b) ==> {
                    &&& props[s + 2].key == u.bar && props[s + 2].width == 8
                    &&& b.bar_beat_bits is None ==> props.len() == s + 3
                    &&& b.bar_beat_bits is Some ==> props.len() == s + 4 && props[s + 3].key
                        == u.bar_beat && props[s + 3].width == 4
                }
            }
            &&& forall|j: int|
                0 <= j < props.len() ==> (#[trigger] props[j]).value < (if props[j].width == 4 {
                    0x1_0000_0000int
                } else {
                    0x1_0000_0000_0000_0000int
                })
        }),
{
}

/// The type and the value of the first of `props` with this key.
spec fn first_under(props: Seq<Property>, key: u32) -> Option<(nat, nat)>
    decreases props.len(),
{
    if props.len() == 0 {
        None
    } else if first_under(props.drop_last(), key) is Some {
        first_under(props.drop_last(), key)
    } else if props.last().key == key {
        Some((props.last().value_type as nat, props.last().value))
    } else {
        None
    }
}

proof fn first_under_is_first(props: Seq<Property>, key: u32, i: int)
    requires
        0 <= i <= props.len(),
        forall|j: int| 0 <= j < i ==> (#[trigger] props[j]).key != key,
        i < props.len() ==> props[i].key == key,
    ensures
        first_under(props, key) == (if i < props.len() {
            Some((props[i].value_type as nat, props[i].value))
        } else {
            None
        }),
    decreases props.len(),
{
    if props.len() > 0 {
        let less = props.drop_last();
        if i == props.len() {
            first_under_is_first(less, key, less.len() as int);
        } else {
            first_under_is_first(less, key, i);
        }
    }
}

/// Where the properties that stand in `seen` have the key, it is found.
proof fn reading_finds_the_first(
    e: Endian,
    seen: Seq<u8>,
    off: nat,
    props: Seq<Property>,
    key: u32,
)
    requires
        off + 24 * props.len() <= seen.len(),
        forall|j: int| 0 <= j < props.len() ==> fits(#[trigger] props[j]),
        forall|j: int|
            0 <= j < props.len() ==> stands(e, seen, off + (24 * j) as nat, #[trigger] props[j]),
    ensures
        value_under(e, seen, off, off + 24 * props.len(), key) == first_under(
            props,
            key,
        ),
{
    let i = first_index(props, key);
    first_index_is_first(props, key);
    first_under_is_first(props, key, i);
    value_is_found(e, seen, off, props, 0, key, i);
}

spec fn first_index(props: Seq<Property>, key: u32) -> int
    decreases props.len(),
{
    if props.len() == 0 {
        0
    } else if first_index(props.drop_last(), key) < props.len() - 1 {
        first_index(props.drop_last(), key)
    } else if props.last().key == key {
        props.len() - 1
    } else {
        props.len() as int
    }
}

proof fn first_index_is_first(props: Seq<Property>, key: u32)
    ensures
        0 <= first_index(props, key) <= props.len(),
        forall|j: int| 0 <= j < first_index(props, key) ==> (#[trigger] props[j]).key != key,
        first_index(props, key) < props.len() ==> props[first_index(props, key)].key == key,
    decreases props.len(),
{
    if props.len() > 0 {
        let less = props.drop_last();
        first_index_is_first(less, key);
        assert forall|j: int| 0 <= j < first_index(props, key) implies (
        #[trigger] props[j]).key != key by {
            if j < less.len() {
                assert(less[j] == props[j]);
            }
        }
    }
}

/// What the properties of a position say under each key.
#[verifier::rlimit(40)]
proof fn position_under(u: TimeUrids, t: TimePosition)
    requires
        keys_differ(u),
    ensures
        ({
            let at = |key: u32| first_under(atom::position_properties(u, t), key);
            &&& at(u.speed) == Some(
                (
                    u.atom_float as nat,
                    if t.playing {
                        0x3F80_0000nat
                    } else {
                        0nat
                    },
                ),
            )
            &&& at(u.frame) == (match t.frame {
                Some(frame) => Some((u.atom_long as nat, atom::twos_complement(frame))),
                None => None,
            })
            &&& at(u.bpm) == (match t.bpm_bits {
                Some(bits) => Some((u.atom_float as nat, bits as nat)),
                None => None,
            })
            &&& at(u.beats_per_bar) == (match t.signature {
                Some(s) => Some((u.atom_float as nat, s.beats_per_bar_bits as nat)),
                None => None,
            })
            &&& at(u.beat_unit) == (match t.signature {
                Some(s) => Some((u.atom_int as nat, s.beat_unit as nat)),
                None => None,
            })
            &&& at(u.bar) == (if t.signature is Some && t.signature->0.bar is Some {
                Some((u.atom_long as nat, atom::twos_complement(t.signature->0.bar->0.bar)))
            } else {
                None
            })
            &&& at(u.bar_beat) == (if t.signature is Some && t.signature->0.bar is Some
                && t.signature->0.bar->0.bar_beat_bits is Some {
                Some((u.atom_float as nat, t.signature->0.bar->0.bar_beat_bits->0 as nat))
            } else {
                None
            })
        }),
{
    let props = atom::position_properties(u, t);
    let n = props.len() as int;
    places(u, t);
    let f: int = if t.frame is Some {
        1
    } else {
        0
    };
    let m: int = if t.bpm_bits is Some {
        1
    } else {
        0
    };
    let s: int = 1 + f + m;
    let sig = t.signature is Some;
    let bar = sig && t.signature->0.bar is Some;
    let beat = bar && t.signature->0.bar->0.bar_beat_bits is Some;
    first_under_is_first(props, u.speed, 0);
    first_under_is_first(props, u.frame, if f == 1 {
        1
    } else {
        n
    });
    first_under_is_first(props, u.bpm, if m == 1 {
        1 + f
    } else {
        n
    });
    first_under_is_first(props, u.beats_per_bar, if sig {
        s
    } else {
        n
    });
    first_under_is_first(props, u.beat_unit, if sig {
        s + 1
    } else {
        n
    });
    first_under_is_first(props, u.bar, if bar {
        s + 2
    } else {
        n
    });
    first_under_is_first(props, u.bar_beat, if beat {
        s + 3
    } else {
        n
    });
}

/// Any buffer that holds the bytes of a written object states its type, its class
/// and its properties.
proof fn written_object_reads_back(
    e: Endian,
    u: TimeUrids,
    buf: Seq<u8>,
    base: nat,
    props: Seq<Property>,
    seen: Seq<u8>,
)
    requires
        seen.len() == buf.len(),
        props.len() <= 7,
        forall|j: int| 0 <= j < props.len() ==> fits(#[trigger] props[j]),
        base + TIME_POSITION_MAX_BYTES <= buf.len(),
        ({
            let b0 = atom::overlay(
                buf,
                base as int + 16,
                atom::word(e, 0, 4) + atom::word(e, u.position as nat, 4),
            );
            let (b1, end) = atom::with_properties(e, b0, base + 24, props);
            let b = atom::overlay(
                b1,
                base as int,
                atom::event_header(e, 0, (end - (base + 16)) as nat, u.atom_object),
            );
            forall|i: int| base <= i < end && i < buf.len() ==> seen[i] == b[i]
        }),
    ensures
        atom::field(e, seen, base as int, 8) == 0,
        atom::field(e, seen, base as int + 12, 4) == u.atom_object,
        atom::field(e, seen, base as int + 20, 4) == u.position,
        forall|key: u32| #[trigger] object_value(e, seen, base, key) == first_under(props, key),
{
    let n = props.len() as int;
    let body = base + 16;
    let off = base + 24;
    let w0 = atom::word(e, 0, 4);
    let w1 = atom::word(e, u.position as nat, 4);
    word_ranges();
    atom::word_reads_back(e, 0, 4);
    atom::word_reads_back(e, 0, 8);
    atom::word_reads_back(e, u.position as nat, 4);
    let b0 = atom::overlay(buf, body as int, w0 + w1);
    let (b1, end) = atom::with_properties(e, b0, off, props);
    properties_stand(e, b0, off, props);
    let size = (end - body) as nat;
    atom::word_reads_back(e, size, 4);
    atom::word_reads_back(e, u.atom_object as nat, 4);
    let header = atom::event_header(e, 0, size, u.atom_object);
    assert(header.len() == 16);
    assert(seen.subrange(base as int, base as int + 8) =~= atom::word(e, 0, 8));
    assert(seen.subrange(base as int + 8, base as int + 8 + 4) =~= atom::word(e, size, 4));
    assert(seen.subrange(base as int + 12, base as int + 12 + 4) =~= atom::word(
        e,
        u.atom_object as nat,
        4,
    ));
    assert(seen.subrange(base as int + 20, base as int + 20 + 4) =~= w1);
    assert forall|j: int| 0 <= j < n implies stands(e, seen, off + (24 * j) as nat, #[trigger] props[j]) by {
        let from = (off + (24 * j) as nat) as int;
        let to = from + 16 + props[j].width;
        reveal(stands);
        assert(stands(e, b1, off + (24 * j) as nat, props[j]));
        assert(seen.subrange(from, to) =~= b1.subrange(from, to));
    }
    assert forall|key: u32| #[trigger] object_value(e, seen, base, key) == first_under(
        props,
        key,
    ) by {
        reading_finds_the_first(e, seen, off, props, key);
    }
}

/// Any buffer that holds the bytes of a written position states that position.
proof fn written_position_is_stated(
    e: Endian,
    u: TimeUrids,
    buf: Seq<u8>,
    base: nat,
    t: TimePosition,
    seen: Seq<u8>,
)
    requires
        keys_differ(u),
        base + TIME_POSITION_MAX_BYTES <= buf.len(),
        seen.len() == buf.len(),
        ({
            let (b, o) = atom::with_position(e, u, buf, base, t);
            forall|i: int| base <= i < o && i < buf.len() ==> seen[i] == b[i]
        }),
    ensures
        states_position(e, seen, base, u, t),
{
    let props = atom::position_properties(u, t);
    position_fits(u, t);
    position_under(u, t);
    written_object_reads_back(e, u, buf, base, props, seen);
}

/// A plugin that reads a written position key by key finds the position that was
/// written: the tempo under the key of the tempo, the beats of a bar under theirs,
/// and so on, each of the right type, and under no key a value that is not known.
pub proof fn position_reads_back(
    e: Endian,
    u: TimeUrids,
    buf: Seq<u8>,
    base: nat,
    t: TimePosition,
)
    requires
        keys_differ(u),
        base + TIME_POSITION_MAX_BYTES <= buf.len(),
    ensures
        states_position(e, atom::with_position(e, u, buf, base, t).0, base, u, t),
{
    let props = atom::position_properties(u, t);
    position_fits(u, t);
    let body = base + EVENT_SIZE as nat;
    let b0 = atom::overlay(
        buf,
        body as int,
        atom::word(e, 0, 4) + atom::word(e, u.position as nat, 4),
    );
    properties_stand(e, b0, body + OBJECT_BODY_SIZE as nat, props);
    written_position_is_stated(e, u, buf, base, t, atom::with_position(e, u, buf, base, t).0);
}

/// A plugin that reads the sequence of a block finds the block's transport
/// position in its first event, whatever MIDI follows.
pub proof fn sequence_states_its_position(
    e: Endian,
    urids: SequenceUrids,
    u: TimeUrids,
    buf: Seq<u8>,
    events: Seq<Event>,
    t: TimePosition,
)
    requires
        keys_differ(u),
        SEQUENCE_SIZE + TIME_POSITION_MAX_BYTES <= buf.len(),
    ensures
        states_position(e, atom::with_sequence(e, urids, u, buf, events, Some(t)), 16, u, t),
{
    let base = SEQUENCE_SIZE as nat;
    let props = atom::position_properties(u, t);
    position_fits(u, t);
    let body = base + EVENT_SIZE as nat;
    let b0 = atom::overlay(
        buf,
        body as int,
        atom::word(e, 0, 4) + atom::word(e, u.position as nat, 4),
    );
    properties_stand(e, b0, body + OBJECT_BODY_SIZE as nat, props);
    let (b1, o1) = atom::with_position(e, u, buf, base, t);
    let (b2, o2) = atom::with_events(e, urids.midi_event, b1, o1, events);
    drain::with_events_frame(e, urids.midi_event, b1, o1, events);
    let size = (o2 - ATOM_SIZE) as nat;
    atom::word_len(e, size, 4);
    atom::word_len(e, urids.sequence as nat, 4);
    atom::word_len(e, 0, 4);
    written_position_is_stated(
        e,
        u,
        buf,
        base,
        t,
        atom::with_sequence(e, urids, u, buf, events, Some(t)),
    );
}

} // verus!
