//! Sample-accurate event list shared between MIDI, parameter automation and
//! transport flags.
//!
//! Parameter values are floating-point numbers. The library moves them without
//! computing on them, so they appear here as their IEEE 754 bit patterns.

use vstd::prelude::*;

verus! {

/// One event with sample-accurate timing.
#[derive(Clone, Copy, Debug, PartialEq, Eq)]
pub struct Event {
    /// Sample offset within the current block.
    pub sample_offset: u32,
    /// Event payload.
    pub body: EventBody,
}

/// What an event carries.
#[derive(Clone, Copy, Debug, PartialEq, Eq)]
pub enum EventBody {
    /// MIDI message.
    Midi(MidiData),
    /// Host-driven parameter automation point.
    ParamValue {
        /// Parameter id.
        param_id: u32,
        /// Bit pattern of the new value, a double in the parameter's native range.
        value_bits: u64,
    },
    /// A parameter gesture begins or ends.
    ParamGesture {
        /// Parameter id.
        param_id: u32,
        /// `true` where the gesture begins.
        active: bool,
    },
    /// Host transport state changed mid-block.
    TransportFlag(TransportFlag),
}

/// Transport state transitions.
#[derive(Clone, Copy, Debug, PartialEq, Eq, Structural)]
pub enum TransportFlag {
    /// Playback started.
    PlayStart,
    /// Playback stopped.
    PlayStop,
    /// Recording engaged.
    RecordStart,
    /// Recording stopped.
    RecordStop,
    /// Loop boundary crossed.
    Looped,
}

/// MIDI message body.
#[derive(Clone, Copy, Debug, PartialEq, Eq)]
#[allow(inconsistent_fields)]
pub enum MidiData {
    /// Note On.
    NoteOn {
        /// MIDI channel, 0-15.
        channel: u8,
        /// Note number, 0-127.
        note: u8,
        /// Velocity, 0-127.
        velocity: u8,
    },
    /// Note Off.
    NoteOff {
        /// MIDI channel, 0-15.
        channel: u8,
        /// Note number, 0-127.
        note: u8,
        /// Release velocity, 0-127.
        velocity: u8,
    },
    /// Polyphonic key pressure.
    PolyAftertouch {
        /// MIDI channel, 0-15.
        channel: u8,
        /// Note number, 0-127.
        note: u8,
        /// Pressure, 0-127.
        pressure: u8,
    },
    /// Control change.
    ControlChange {
        /// MIDI channel, 0-15.
        channel: u8,
        /// Controller number, 0-127.
        controller: u8,
        /// Value, 0-127.
        value: u8,
    },
    /// Program change.
    ProgramChange {
        /// MIDI channel, 0-15.
        channel: u8,
        /// Program number, 0-127.
        program: u8,
    },
    /// Channel pressure.
    ChannelAftertouch {
        /// MIDI channel, 0-15.
        channel: u8,
        /// Pressure, 0-127.
        pressure: u8,
    },
    /// Pitch bend, 14-bit (0-16383, 8192 = center).
    PitchBend {
        /// MIDI channel, 0-15.
        channel: u8,
        /// Bend value, 0-16383.
        value: u16,
    },
    /// Raw MIDI bytes for what the other variants do not cover.
    Raw {
        /// Number of meaningful bytes in `data`.
        len: u8,
        /// Message bytes.
        data: [u8; 8],
    },
}

/// A `smallvec::SmallVec` of events with 32 inline slots.
#[verifier::external_body]
#[derive(Debug)]
pub struct EventVec {
    inner: smallvec::SmallVec<[Event; 32]>,
}

/// The events that a small vector holds, in order.
pub uninterp spec fn event_items(v: EventVec) -> Seq<Event>;

impl EventVec {
    /// Calls `SmallVec::new`, which makes a vector without items.
    #[verifier::external_body]
    pub(crate) fn new() -> (v: EventVec)
        ensures
            event_items(v) == Seq::<Event>::empty(),
    {
        EventVec { inner: smallvec::SmallVec::new() }
    }

    /// Calls `SmallVec::from_slice`, which copies the items of a slice.
    #[verifier::external_body]
    pub(crate) fn from_slice(events: &[Event]) -> (v: EventVec)
        ensures
            event_items(v) == events@,
    {
        EventVec { inner: smallvec::SmallVec::from_slice(events) }
    }

    /// Calls `SmallVec::push`, which appends one item.
    #[verifier::external_body]
    pub(crate) fn push(&mut self, event: Event)
        ensures
            event_items(*final(self)) == event_items(*old(self)).push(event),
    {
        self.inner.push(event)
    }

    /// Calls `SmallVec::clear`, which removes every item.
    #[verifier::external_body]
    pub(crate) fn clear(&mut self)
        ensures
            event_items(*final(self)) == Seq::<Event>::empty(),
    {
        self.inner.clear()
    }

    /// Calls `SmallVec::len`, which counts the items.
    #[verifier::external_body]
    pub(crate) fn len(&self) -> (n: usize)
        ensures
            n == event_items(*self).len(),
    {
        self.inner.len()
    }

    /// Calls `SmallVec::as_slice`, which lends the items in order.
    #[verifier::external_body]
    pub(crate) fn as_slice(&self) -> (events: &[Event])
        ensures
            events@ == event_items(*self),
    {
        self.inner.as_slice()
    }
}

/// Sample-ordered event buffer used for one block.
#[derive(Debug)]
pub struct EventList {
    events: EventVec,
}

impl View for EventList {
    type V = Seq<Event>;

    closed spec fn view(&self) -> Seq<Event> {
        event_items(self.events)
    }
}

impl Default for EventList {
    fn default() -> (list: Self)
        ensures
            list@ == Seq::<Event>::empty(),
    {
        EventList { events: EventVec::new() }
    }
}

impl Clone for EventList {
    fn clone(&self) -> (list: Self)
        ensures
            list@ == self@,
    {
        EventList { events: EventVec::from_slice(self.events.as_slice()) }
    }
}

/// Whether events come in the order of their sample offsets.
pub open spec fn in_sample_order(events: Seq<Event>) -> bool {
    forall|i: int, j: int|
        0 <= i <= j < events.len() ==> events[i].sample_offset <= events[j].sample_offset
}

impl EventList {
    /// An empty list.
    #[must_use]
    pub fn new() -> (list: Self)
        ensures
            list@ == Seq::<Event>::empty(),
    {
        EventList { events: EventVec::new() }
    }

    /// A list of the events in `events`.
    #[must_use]
    pub fn from_slice(events: &[Event]) -> (list: Self)
        ensures
            list@ == events@,
    {
        EventList { events: EventVec::from_slice(events) }
    }

    /// Appends an event. The caller keeps the list sorted by sample offset.
    pub fn push(&mut self, event: Event)
        ensures
            final(self)@ == old(self)@.push(event),
            in_sample_order(old(self)@) && (old(self)@.len() > 0 ==> old(
                self,
            )@.last().sample_offset <= event.sample_offset) ==> in_sample_order(final(self)@),
    {
        self.events.push(event);
    }

    /// Resets to empty.
    pub fn clear(&mut self)
        ensures
            final(self)@ == Seq::<Event>::empty(),
    {
        self.events.clear();
    }

    /// Number of events.
    #[must_use]
    pub fn len(&self) -> (n: usize)
        ensures
            n == self@.len(),
    {
        self.events.len()
    }

    /// `true` when the list holds no events.
    #[must_use]
    pub fn is_empty(&self) -> (empty: bool)
        ensures
            empty == (self@.len() == 0),
    {
        self.events.len() == 0
    }

    /// The events as a slice.
    #[must_use]
    pub fn as_slice(&self) -> (events: &[Event])
        ensures
            events@ == self@,
    {
        self.events.as_slice()
    }

    /// Iterates over the events.
    pub fn iter(&self) -> (it: core::slice::Iter<'_, Event>)
        ensures
            vstd::std_specs::iter::IteratorSpec::remaining(&it) == self@.as_ref(),
    {
        self.events.as_slice().iter()
    }
}

} // verus!
