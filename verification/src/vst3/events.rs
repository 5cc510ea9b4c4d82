//! Events and parameter changes as VST3 has them.
//!
//! Notes and key pressure travel in an event list. Controller-style MIDI
//! travels as changes of the parameters that the plugin maps it to. VST3 states
//! values as fractions of 1; here they are kept as the fractions they come from.

use crate::events::{Event, EventBody, EventList, MidiData};
use vstd::prelude::*;

verus! {

/// Note on.
pub const NOTE_ON_EVENT: u16 = 0;

/// Note off.
pub const NOTE_OFF_EVENT: u16 = 1;

/// Key pressure.
pub const POLY_PRESSURE_EVENT: u16 = 3;

/// A MIDI controller that the plugin sends.
pub const LEGACY_MIDI_CC_OUT_EVENT: u16 = 65535;

/// The controller number of channel pressure.
pub const CTRL_AFTERTOUCH: u8 = 128;

/// The controller number of pitch bend.
pub const CTRL_PITCH_BEND: u8 = 129;

/// The controller number of program changes.
pub const CTRL_PROGRAM_CHANGE: u8 = 130;

/// An event in a VST3 event list.
#[derive(Clone, Copy, Debug, PartialEq, Eq, Structural)]
pub struct Vst3Event {
    /// Sample offset.
    pub sample_offset: i32,
    /// What happens.
    pub body: Vst3Body,
}

/// What happens.
#[allow(inconsistent_fields)]
#[derive(Clone, Copy, Debug, PartialEq, Eq, Structural)]
pub enum Vst3Body {
    /// A note begins.
    NoteOn {
        /// Channel.
        channel: i16,
        /// Key.
        pitch: i16,
        /// Velocity in 127ths.
        velocity: u8,
    },
    /// A note ends.
    NoteOff {
        /// Channel.
        channel: i16,
        /// Key.
        pitch: i16,
        /// Velocity in 127ths.
        velocity: u8,
    },
    /// The pressure on a key changes.
    PolyPressure {
        /// Channel.
        channel: i16,
        /// Key.
        pitch: i16,
        /// Pressure in 127ths.
        pressure: u8,
    },
    /// A controller changes.
    LegacyCc {
        /// Controller number.
        control: u8,
        /// Channel.
        channel: i8,
        /// Value.
        value: i8,
        /// Second value.
        value2: i8,
    },
    /// Anything else.
    Other,
}

/// An offset as VST3 counts: the largest number where it does not fit.
pub open spec fn offset_of(sample_offset: u32) -> i32 {
    if sample_offset <= i32::MAX {
        sample_offset as i32
    } else {
        i32::MAX
    }
}

/// An offset as VST3 counts.
#[must_use]
pub fn to_offset(sample_offset: u32) -> (offset: i32)
    ensures
        offset == offset_of(sample_offset),
{
    if sample_offset <= 0x7FFF_FFFF {
        sample_offset as i32
    } else {
        i32::MAX
    }
}

/// The VST3 event that an event becomes: notes and key pressure, nothing else.
pub open spec fn to_vst3(event: Event) -> Option<Vst3Event> {
    let sample_offset = offset_of(event.sample_offset);
    match event.body {
        EventBody::Midi(MidiData::NoteOn { channel, note, velocity }) => Some(
            Vst3Event {
                sample_offset,
                body: Vst3Body::NoteOn { channel: channel as i16, pitch: note as i16, velocity },
            },
        ),
        EventBody::Midi(MidiData::NoteOff { channel, note, velocity }) => Some(
            Vst3Event {
                sample_offset,
                body: Vst3Body::NoteOff { channel: channel as i16, pitch: note as i16, velocity },
            },
        ),
        EventBody::Midi(MidiData::PolyAftertouch { channel, note, pressure }) => Some(
            Vst3Event {
                sample_offset,
                body: Vst3Body::PolyPressure {
                    channel: channel as i16,
                    pitch: note as i16,
                    pressure,
                },
            },
        ),
        _ => None,
    }
}

/// The events of one block, as VST3 has them.
pub struct EventBuffer {
    /// The events in order.
    pub events: Vec<Vst3Event>,
}

impl EventBuffer {
    /// An empty buffer.
    #[must_use]
    pub fn new() -> (buffer: Self)
        ensures
            buffer.events@ == Seq::<Vst3Event>::empty(),
    {
        EventBuffer { events: Vec::new() }
    }

    /// Appends the VST3 event that `event` becomes, where it becomes one.
    pub fn push_rack(&mut self, event: &Event)
        ensures
            final(self).events@ == (match to_vst3(*event) {
                Some(e) => old(self).events@.push(e),
                None => old(self).events@,
            }),
    {
        let sample_offset: i32 = to_offset(event.sample_offset);
        match event.body {
            EventBody::Midi(MidiData::NoteOn { channel, note, velocity }) => {
                let body = Vst3Body::NoteOn {
                    channel: channel as i16,
                    pitch: note as i16,
                    velocity,
                };
                self.events.push(Vst3Event { sample_offset, body });
            },
            EventBody::Midi(MidiData::NoteOff { channel, note, velocity }) => {
                let body = Vst3Body::NoteOff {
                    channel: channel as i16,
                    pitch: note as i16,
                    velocity,
                };
                self.events.push(Vst3Event { sample_offset, body });
            },
            EventBody::Midi(MidiData::PolyAftertouch { channel, note, pressure }) => {
                let body = Vst3Body::PolyPressure {
                    channel: channel as i16,
                    pitch: note as i16,
                    pressure,
                };
                self.events.push(Vst3Event { sample_offset, body });
            },
            _ => {},
        }
    }

    /// The number of events, as VST3 counts.
    #[must_use]
    pub fn event_count(&self) -> (n: i32)
        ensures
            n == (if self.events@.len() <= i32::MAX {
                self.events@.len() as int
            } else {
                i32::MAX as int
            }),
    {
        if self.events.len() as u64 <= 0x7FFF_FFFF {
            self.events.len() as i32
        } else {
            i32::MAX
        }
    }

    /// The event with this index, where there is one.
    #[must_use]
    pub fn get_event(&self, index: i32) -> (event: Option<Vst3Event>)
        ensures
            event == (if 0 <= index < self.events@.len() {
                Some(self.events@[index as int])
            } else {
                None
            }),
    {
        if index >= 0 && (index as u64) < self.events.len() as u64 {
            Some(self.events[index as usize])
        } else {
            None
        }
    }

    /// Appends an event.
    pub fn add_event(&mut self, event: Vst3Event)
        ensures
            final(self).events@ == old(self).events@.push(event),
    {
        self.events.push(event);
    }
}

// ---------------------------------------------------------------------------
// Controllers
// ---------------------------------------------------------------------------

/// A parameter value.
#[derive(Clone, Copy, Debug, PartialEq, Eq, Structural)]
pub enum Amount {
    /// The bit pattern of a double-precision number.
    Bits(u64),
    /// A fraction of 1.
    Fraction {
        /// Numerator.
        numerator: u16,
        /// Denominator.
        denominator: u16,
    },
}

/// A controller-style MIDI message.
#[derive(Clone, Copy, Debug, PartialEq, Eq, Structural)]
pub struct ControllerChange {
    /// Controller number.
    pub control: i16,
    /// Channel.
    pub channel: i16,
    /// The controller's new value.
    pub value: Amount,
}

/// The controller change that an event is, where it is one: control changes,
/// channel pressure and pitch bend.
pub open spec fn controller_change(event: Event) -> Option<ControllerChange> {
    match event.body {
        EventBody::Midi(MidiData::ControlChange { channel, controller, value }) => Some(
            ControllerChange {
                control: (controller % 128) as i16,
                channel: (channel % 16) as i16,
                value: Amount::Fraction { numerator: (value % 128) as u16, denominator: 127 },
            },
        ),
        EventBody::Midi(MidiData::ChannelAftertouch { channel, pressure }) => Some(
            ControllerChange {
                control: CTRL_AFTERTOUCH as i16,
                channel: (channel % 16) as i16,
                value: Amount::Fraction { numerator: (pressure % 128) as u16, denominator: 127 },
            },
        ),
        EventBody::Midi(MidiData::PitchBend { channel, value }) => Some(
            ControllerChange {
                control: CTRL_PITCH_BEND as i16,
                channel: (channel % 16) as i16,
                value: Amount::Fraction { numerator: value % 16384, denominator: 16383 },
            },
        ),
        _ => None,
    }
}

/// The controller change that an event is, where it is one.
#[must_use]
pub fn midi_controller_assignment(event: &Event) -> (change: Option<ControllerChange>)
    ensures
        change == controller_change(*event),
{
    match event.body {
        EventBody::Midi(MidiData::ControlChange { channel, controller, value }) => Some(
            ControllerChange {
                control: (controller % 128) as i16,
                channel: (channel % 16) as i16,
                value: Amount::Fraction { numerator: (value % 128) as u16, denominator: 127 },
            },
        ),
        EventBody::Midi(MidiData::ChannelAftertouch { channel, pressure }) => Some(
            ControllerChange {
                control: CTRL_AFTERTOUCH as i16,
                channel: (channel % 16) as i16,
                value: Amount::Fraction { numerator: (pressure % 128) as u16, denominator: 127 },
            },
        ),
        EventBody::Midi(MidiData::PitchBend { channel, value }) => Some(
            ControllerChange {
                control: CTRL_PITCH_BEND as i16,
                channel: (channel % 16) as i16,
                value: Amount::Fraction { numerator: value % 16384, denominator: 16383 },
            },
        ),
        _ => None,
    }
}

/// No event travels both ways: what is a controller change has no place in the
/// event list, and values never exceed 1.
pub proof fn events_travel_one_way(event: Event)
    requires
        controller_change(event) is Some,
    ensures
        to_vst3(event) is None,
        controller_change(event)->0.value matches Amount::Fraction { numerator, denominator }
            && numerator <= denominator,
{
}

// ---------------------------------------------------------------------------
// Parameter changes
// ---------------------------------------------------------------------------

/// A value at a sample offset.
pub type Point = (i32, Amount);

/// One parameter's values in order.
pub struct ParamValueQueue {
    /// Parameter id.
    pub param_id: u32,
    /// The values.
    pub points: Vec<Point>,
}

/// One parameter's values, with a sequence.
pub struct QueueView {
    /// Parameter id.
    pub param_id: u32,
    /// The values.
    pub points: Seq<Point>,
}

impl View for ParamValueQueue {
    type V = QueueView;

    open spec fn view(&self) -> QueueView {
        QueueView { param_id: self.param_id, points: self.points@ }
    }
}

impl ParamValueQueue {
    /// The number of points, as VST3 counts.
    #[must_use]
    pub fn point_count(&self) -> (n: i32)
        ensures
            n == (if self.points@.len() <= i32::MAX {
                self.points@.len() as int
            } else {
                i32::MAX as int
            }),
    {
        if self.points.len() as u64 <= 0x7FFF_FFFF {
            self.points.len() as i32
        } else {
            i32::MAX
        }
    }

    /// The point with this index, where there is one.
    #[must_use]
    pub fn get_point(&self, index: i32) -> (point: Option<Point>)
        ensures
            point == (if 0 <= index < self.points@.len() {
                Some(self.points@[index as int])
            } else {
                None
            }),
    {
        if index >= 0 && (index as u64) < self.points.len() as u64 {
            Some(self.points[index as usize])
        } else {
            None
        }
    }

    /// Appends a point and tells its index.
    pub fn add_point(&mut self, sample_offset: i32, value: Amount) -> (index: i32)
        ensures
            final(self)@ == (QueueView {
                points: old(self).points@.push((sample_offset, value)),
                ..old(self)@
            }),
            index == (if old(self).points@.len() <= i32::MAX {
                old(self).points@.len() as int
            } else {
                i32::MAX as int
            }),
    {
        let at: usize = self.points.len();
        self.points.push((sample_offset, value));
        if at as u64 <= 0x7FFF_FFFF {
            at as i32
        } else {
            i32::MAX
        }
    }
}

/// The changes of all parameters of one block, a queue for each.
pub struct ParameterChanges {
    queues: Vec<ParamValueQueue>,
}

/// Where the queue of `id` is, or the number of queues where it has none.
pub open spec fn queue_index(queues: Seq<QueueView>, id: u32) -> int
    decreases queues.len(),
{
    if queues.len() == 0 || queues[0].param_id == id {
        0
    } else {
        1 + queue_index(queues.skip(1), id)
    }
}

/// The queues with `id` among them.
pub open spec fn with_queue(queues: Seq<QueueView>, id: u32) -> Seq<QueueView> {
    if queue_index(queues, id) < queues.len() {
        queues
    } else {
        queues.push(QueueView { param_id: id, points: Seq::empty() })
    }
}

/// The queues with one more point for `id`.
pub open spec fn with_point(queues: Seq<QueueView>, id: u32, point: Point) -> Seq<QueueView> {
    let all = with_queue(queues, id);
    let i = queue_index(queues, id);
    all.update(i, QueueView { param_id: id, points: all[i].points.push(point) })
}

/// Whether no two queues are of one parameter.
pub open spec fn one_queue_each(queues: Seq<QueueView>) -> bool {
    forall|i: int, j: int|
        0 <= i < j < queues.len() ==> queues[i].param_id != queues[j].param_id
}

/// The points of `id`.
pub open spec fn points_of(queues: Seq<QueueView>, id: u32) -> Seq<Point> {
    if queue_index(queues, id) < queues.len() {
        queues[queue_index(queues, id)].points
    } else {
        Seq::empty()
    }
}

/// [`queue_index`] is the first queue of `id`.
proof fn queue_index_is_first(queues: Seq<QueueView>, id: u32)
    ensures
        0 <= queue_index(queues, id) <= queues.len(),
        queue_index(queues, id) < queues.len() ==> queues[queue_index(queues, id)].param_id == id,
        forall|j: int| 0 <= j < queue_index(queues, id) ==> (#[trigger] queues[j]).param_id != id,
    decreases queues.len(),
{
    if queues.len() > 0 && queues[0].param_id != id {
        queue_index_is_first(queues.skip(1), id);
        let i = queue_index(queues.skip(1), id);
        assert forall|j: int| 0 <= j < 1 + i implies (#[trigger] queues[j]).param_id != id by {
            if j > 0 {
                assert(queues[j] == queues.skip(1)[j - 1]);
            }
        }
    }
}

/// The first queue of a parameter is where [`queue_index`] says.
proof fn queue_index_unique(queues: Seq<QueueView>, id: u32, i: int)
    requires
        0 <= i < queues.len(),
        queues[i].param_id == id,
        forall|j: int| 0 <= j < i ==> (#[trigger] queues[j]).param_id != id,
    ensures
        queue_index(queues, id) == i,
{
    queue_index_is_first(queues, id);
}

impl View for ParameterChanges {
    type V = Seq<QueueView>;

    closed spec fn view(&self) -> Seq<QueueView> {
        Seq::new(self.queues@.len(), |i: int| self.queues@[i]@)
    }
}

impl ParameterChanges {
    /// No changes.
    #[must_use]
    pub fn new() -> (changes: Self)
        ensures
            changes@ == Seq::<QueueView>::empty(),
            one_queue_each(changes@),
    {
        let changes = ParameterChanges { queues: Vec::new() };
        assert(changes@ =~= Seq::<QueueView>::empty());
        changes
    }

    /// Where the queue of `id` is, where it has one.
    fn find(&self, id: u32) -> (found: Option<usize>)
        ensures
            match found {
                Some(i) => i < self@.len() && i == queue_index(self@, id),
                None => queue_index(self@, id) == self@.len(),
            },
    {
        let mut i: usize = 0;
        while i < self.queues.len()
            invariant
                i <= self.queues.len(),
                forall|j: int| 0 <= j < i ==> (#[trigger] self@[j]).param_id != id,
            decreases self.queues.len() - i,
        {
            if self.queues[i].param_id == id {
                assert(self@[i as int].param_id == id);
                proof {
                    queue_index_unique(self@, id, i as int);
                }
                return Some(i);
            }
            assert(self@[i as int].param_id != id);
            i += 1;
        }
        proof {
            queue_index_is_first(self@, id);
        }
        None
    }

    /// The number of parameters that change, as VST3 counts.
    #[must_use]
    pub fn parameter_count(&self) -> (n: i32)
        ensures
            n == (if self@.len() <= i32::MAX {
                self@.len() as int
            } else {
                i32::MAX as int
            }),
    {
        if self.queues.len() as u64 <= 0x7FFF_FFFF {
            self.queues.len() as i32
        } else {
            i32::MAX
        }
    }

    /// The queue with this index, where there is one.
    #[must_use]
    pub fn parameter_data(&self, index: i32) -> (queue: Option<&ParamValueQueue>)
        ensures
            match queue {
                Some(q) => 0 <= index < self@.len() && q@ == self@[index as int],
                None => !(0 <= index < self@.len()),
            },
    {
        if index >= 0 && (index as u64) < self.queues.len() as u64 {
            Some(&self.queues[index as usize])
        } else {
            None
        }
    }

    /// The index of the queue of `id`, which is added where there is none.
    pub fn add_parameter_data(&mut self, id: u32) -> (index: usize)
        requires
            one_queue_each(old(self)@),
        ensures
            final(self)@ == with_queue(old(self)@, id),
            one_queue_each(final(self)@),
            index == queue_index(old(self)@, id),
            index < final(self)@.len(),
    {
        proof {
            queue_index_is_first(self@, id);
        }
        match self.find(id) {
            Some(i) => i,
            None => {
                let at: usize = self.queues.len();
                let queue = ParamValueQueue { param_id: id, points: Vec::new() };
                assert(queue@.points =~= Seq::<Point>::empty());
                self.queues.push(queue);
                assert(self@ =~= with_queue(old(self)@, id));
                at
            },
        }
    }

    /// Appends a point for `id`.
    pub fn push_point(&mut self, id: u32, sample_offset: i32, value: Amount)
        requires
            one_queue_each(old(self)@),
        ensures
            final(self)@ == with_point(old(self)@, id, (sample_offset, value)),
            one_queue_each(final(self)@),
    {
        let index: usize = self.add_parameter_data(id);
        let ghost all = self@;
        proof {
            queue_index_is_first(old(self)@, id);
            assert(all[index as int].param_id == id);
        }
        let mut queue = self.queues.remove(index);
        let _ = queue.add_point(sample_offset, value);
        self.queues.insert(index, queue);
        assert(self@ =~= with_point(old(self)@, id, (sample_offset, value)));
    }
}

/// The queues after `changes` were pushed in order.
pub open spec fn after_pushes(changes: Seq<(u32, Point)>) -> Seq<QueueView>
    decreases changes.len(),
{
    if changes.len() == 0 {
        Seq::empty()
    } else {
        with_point(after_pushes(changes.drop_last()), changes.last().0, changes.last().1)
    }
}

/// The points of `id` among `changes`, in order.
pub open spec fn pushed_for(changes: Seq<(u32, Point)>, id: u32) -> Seq<Point>
    decreases changes.len(),
{
    if changes.len() == 0 {
        Seq::empty()
    } else if changes.last().0 == id {
        pushed_for(changes.drop_last(), id).push(changes.last().1)
    } else {
        pushed_for(changes.drop_last(), id)
    }
}

/// Every parameter has at most one queue, which holds just the points that were
/// pushed for it, in the order in which they were pushed.
pub proof fn queues_hold_what_was_pushed(changes: Seq<(u32, Point)>, id: u32)
    ensures
        one_queue_each(after_pushes(changes)),
        points_of(after_pushes(changes), id) == pushed_for(changes, id),
    decreases changes.len(),
{
    if changes.len() > 0 {
        let before = after_pushes(changes.drop_last());
        let after = after_pushes(changes);
        let (last, point) = changes.last();
        queues_hold_what_was_pushed(changes.drop_last(), id);
        queues_hold_what_was_pushed(changes.drop_last(), last);
        queue_index_is_first(before, last);
        queue_index_is_first(before, id);
        queue_index_is_first(after, id);
        let i = queue_index(before, last);
        assert(after[i].points == points_of(before, last).push(point));
        assert(forall|j: int| 0 <= j < after.len() && j != i ==> after[j] == before[j]);
        assert(after[i].param_id == last);
        if last == id {
            queue_index_unique(after, id, i);
        } else {
            let k = queue_index(before, id);
            if k < before.len() {
                assert(after[k] == before[k]);
                assert forall|j: int| 0 <= j < k implies (#[trigger] after[j]).param_id != id by {
                    if j != i {
                        assert(after[j] == before[j]);
                    }
                }
                queue_index_unique(after, id, k);
            } else {
                let m = queue_index(after, id);
                if m < after.len() {
                    assert(m != i);
                    assert(after[m] == before[m]);
                    assert(false);
                }
            }
        }
    }
}

// ---------------------------------------------------------------------------
// Events from a plugin
// ---------------------------------------------------------------------------

/// A channel as MIDI has it: the low four bits, and 0 for what is no byte.
pub open spec fn channel_of(value: int) -> u8 {
    if 0 <= value <= 255 {
        (value % 16) as u8
    } else {
        0
    }
}

/// A channel as MIDI has it.
#[must_use]
pub fn midi_channel(value: i16) -> (channel: u8)
    ensures
        channel == channel_of(value as int),
        channel < 16,
{
    if 0 <= value && value <= 255 {
        (value % 16) as u8
    } else {
        0
    }
}

/// A key as MIDI has it: the nearest of 0 to 127.
pub open spec fn note_of(value: int) -> u8 {
    if value < 0 {
        0
    } else if value > 127 {
        127
    } else {
        value as u8
    }
}

/// A key as MIDI has it.
#[must_use]
pub fn midi_note(value: i16) -> (note: u8)
    ensures
        note == note_of(value as int),
        note < 128,
{
    if value < 0 {
        0
    } else if value > 127 {
        127
    } else {
        value as u8
    }
}

/// A data byte as MIDI has it: the low seven bits.
pub open spec fn data_byte_of(value: int) -> u8 {
    (if value < 0 {
        value + 128
    } else {
        value
    }) as u8
}

/// A data byte as MIDI has it.
#[must_use]
pub fn midi_data_byte(value: i8) -> (byte: u8)
    ensures
        byte == data_byte_of(value as int),
        byte < 128,
{
    if value < 0 {
        (value as i16 + 128) as u8
    } else {
        value as u8
    }
}

/// The message that a controller sent by the plugin means.
pub open spec fn legacy_message(control: u8, channel: i8, value: i8, value2: i8) -> Option<
    MidiData,
> {
    let channel = channel_of(channel as int);
    let value = data_byte_of(value as int);
    if control <= 127 {
        Some(MidiData::ControlChange { channel, controller: control, value })
    } else if control == CTRL_AFTERTOUCH {
        Some(MidiData::ChannelAftertouch { channel, pressure: value })
    } else if control == CTRL_PITCH_BEND {
        Some(
            MidiData::PitchBend {
                channel,
                value: (value + 128 * data_byte_of(value2 as int)) as u16,
            },
        )
    } else if control == CTRL_PROGRAM_CHANGE {
        Some(MidiData::ProgramChange { channel, program: value })
    } else {
        None
    }
}

/// The message that a controller sent by the plugin means, where it means one.
#[must_use]
pub fn legacy_midi_cc_to_rack(control: u8, channel: i8, value: i8, value2: i8) -> (body: Option<
    EventBody,
>)
    ensures
        match body {
            Some(b) => legacy_message(control, channel, value, value2) is Some && b
                == EventBody::Midi(legacy_message(control, channel, value, value2)->0),
            None => legacy_message(control, channel, value, value2) is None,
        },
{
    let channel: u8 = midi_channel(channel as i16);
    let value: u8 = midi_data_byte(value);
    if control <= 127 {
        Some(EventBody::Midi(MidiData::ControlChange { channel, controller: control, value }))
    } else if control == CTRL_AFTERTOUCH {
        Some(EventBody::Midi(MidiData::ChannelAftertouch { channel, pressure: value }))
    } else if control == CTRL_PITCH_BEND {
        let msb: u16 = midi_data_byte(value2) as u16;
        Some(EventBody::Midi(MidiData::PitchBend { channel, value: value as u16 + 128 * msb }))
    } else if control == CTRL_PROGRAM_CHANGE {
        Some(EventBody::Midi(MidiData::ProgramChange { channel, program: value }))
    } else {
        None
    }
}

/// The event that a plugin's event becomes. Offsets before the block count as
/// its start.
pub open spec fn from_vst3(event: Vst3Event) -> Option<Event> {
    let sample_offset = if event.sample_offset < 0 {
        0u32
    } else {
        event.sample_offset as u32
    };
    match event.body {
        Vst3Body::NoteOn { channel, pitch, velocity } => Some(
            Event {
                sample_offset,
                body: EventBody::Midi(
                    MidiData::NoteOn {
                        channel: channel_of(channel as int),
                        note: note_of(pitch as int),
                        velocity,
                    },
                ),
            },
        ),
        Vst3Body::NoteOff { channel, pitch, velocity } => Some(
            Event {
                sample_offset,
                body: EventBody::Midi(
                    MidiData::NoteOff {
                        channel: channel_of(channel as int),
                        note: note_of(pitch as int),
                        velocity,
                    },
                ),
            },
        ),
        Vst3Body::PolyPressure { channel, pitch, pressure } => Some(
            Event {
                sample_offset,
                body: EventBody::Midi(
                    MidiData::PolyAftertouch {
                        channel: channel_of(channel as int),
                        note: note_of(pitch as int),
                        pressure,
                    },
                ),
            },
        ),
        Vst3Body::LegacyCc { control, channel, value, value2 } => match legacy_message(
            control,
            channel,
            value,
            value2,
        ) {
            Some(data) => Some(Event { sample_offset, body: EventBody::Midi(data) }),
            None => None,
        },
        Vst3Body::Other => None,
    }
}

/// The event that a plugin's event becomes, where it becomes one.
#[must_use]
pub fn rack_event_from_vst3(event: &Vst3Event) -> (out: Option<Event>)
    ensures
        out == from_vst3(*event),
{
    let sample_offset: u32 = if event.sample_offset < 0 {
        0
    } else {
        event.sample_offset as u32
    };
    let body = match event.body {
        Vst3Body::NoteOn { channel, pitch, velocity } => EventBody::Midi(
            MidiData::NoteOn { channel: midi_channel(channel), note: midi_note(pitch), velocity },
        ),
        Vst3Body::NoteOff { channel, pitch, velocity } => EventBody::Midi(
            MidiData::NoteOff { channel: midi_channel(channel), note: midi_note(pitch), velocity },
        ),
        Vst3Body::PolyPressure { channel, pitch, pressure } => EventBody::Midi(
            MidiData::PolyAftertouch {
                channel: midi_channel(channel),
                note: midi_note(pitch),
                pressure,
            },
        ),
        Vst3Body::LegacyCc { control, channel, value, value2 } => match legacy_midi_cc_to_rack(
            control,
            channel,
            value,
            value2,
        ) {
            Some(body) => body,
            None => return None,
        },
        Vst3Body::Other => return None,
    };
    Some(Event { sample_offset, body })
}

/// The events that a plugin's events become, in order.
pub open spec fn all_from_vst3(events: Seq<Vst3Event>) -> Seq<Event>
    decreases events.len(),
{
    if events.len() == 0 {
        Seq::empty()
    } else {
        match from_vst3(events.last()) {
            Some(e) => all_from_vst3(events.drop_last()).push(e),
            None => all_from_vst3(events.drop_last()),
        }
    }
}

/// Appends to `out` the events that a plugin's events become.
pub fn drain_vst3_output_events(events: &[Vst3Event], out: &mut EventList)
    ensures
        final(out)@ == old(out)@ + all_from_vst3(events@),
{
    let ghost first = out@;
    let mut i: usize = 0;
    assert(first + all_from_vst3(events@.take(0)) =~= first);
    while i < events.len()
        invariant
            i <= events.len(),
            out@ == first + all_from_vst3(events@.take(i as int)),
        decreases events.len() - i,
    {
        let ghost before = all_from_vst3(events@.take(i as int));
        proof {
            assert(events@.take(i + 1).drop_last() =~= events@.take(i as int));
            assert(events@.take(i + 1).last() == events@[i as int]);
        }
        if let Some(e) = rack_event_from_vst3(&events[i]) {
            out.push(e);
            assert((first + before).push(e) =~= first + before.push(e));
        }
        i += 1;
    }
    assert(events@.take(i as int) =~= events@);
}

/// Which payload an event carries.
#[derive(Clone, Copy, Debug, PartialEq, Eq, Structural)]
pub enum Payload {
    /// Note on.
    NoteOn,
    /// Note off.
    NoteOff,
    /// Key pressure.
    PolyPressure,
    /// Controller.
    LegacyCc,
    /// One that the host does not read.
    Other,
}

/// The payload that an event of this type carries.
#[must_use]
pub fn payload_of(event_type: u16) -> (payload: Payload)
    ensures
        payload == (if event_type == NOTE_ON_EVENT {
            Payload::NoteOn
        } else if event_type == NOTE_OFF_EVENT {
            Payload::NoteOff
        } else if event_type == POLY_PRESSURE_EVENT {
            Payload::PolyPressure
        } else if event_type == LEGACY_MIDI_CC_OUT_EVENT {
            Payload::LegacyCc
        } else {
            Payload::Other
        }),
{
    if event_type == NOTE_ON_EVENT {
        Payload::NoteOn
    } else if event_type == NOTE_OFF_EVENT {
        Payload::NoteOff
    } else if event_type == POLY_PRESSURE_EVENT {
        Payload::PolyPressure
    } else if event_type == LEGACY_MIDI_CC_OUT_EVENT {
        Payload::LegacyCc
    } else {
        Payload::Other
    }
}

/// Notes and key pressure whose numbers are in MIDI's range come back from VST3
/// as they went, within the offsets that VST3 can state.
pub proof fn notes_round_trip(event: Event)
    requires
        event.sample_offset <= i32::MAX,
        event.body matches EventBody::Midi(m) && (match m {
            MidiData::NoteOn { channel, note, .. } => channel < 16 && note < 128,
            MidiData::NoteOff { channel, note, .. } => channel < 16 && note < 128,
            MidiData::PolyAftertouch { channel, note, .. } => channel < 16 && note < 128,
            _ => false,
        }),
    ensures
        to_vst3(event) is Some,
        from_vst3(to_vst3(event)->0) == Some(event),
{
}

/// The two data bytes of a controller's value: its numerator's low seven bits and
/// the seven above them.
pub open spec fn value_bytes(value: Amount) -> (int, int) {
    match value {
        Amount::Fraction { numerator, .. } => (numerator as int % 128, numerator as int / 128),
        Amount::Bits(_) => (0, 0),
    }
}

/// A controller change names the controller and the channel of its message, and
/// its value is the message's share of the largest: of 127 for control changes and
/// channel pressure, which is controller 128, and of 16383 for pitch bend, which
/// is controller 129.
pub proof fn controllers_are_named(event: Event)
    ensures
        event.body matches EventBody::Midi(MidiData::ControlChange { channel, controller, value })
            ==> (channel < 16 && controller < 128 && value < 128 ==> (controller_change(
            event,
        ) matches Some(change) && change.control == controller && change.channel == channel && (
        change.value matches Amount::Fraction { numerator, denominator } && numerator == value
            && denominator == 127))),
        event.body matches EventBody::Midi(MidiData::ChannelAftertouch { channel, pressure })
            ==> (channel < 16 && pressure < 128 ==> (controller_change(event) matches Some(change)
            && change.control == 128 && change.channel == channel && (
        change.value matches Amount::Fraction { numerator, denominator } && numerator == pressure
            && denominator == 127))),
        event.body matches EventBody::Midi(MidiData::PitchBend { channel, value }) ==> (channel < 16
            && value < 16384 ==> (controller_change(event) matches Some(change) && change.control
            == 129 && change.channel == channel && (
        change.value matches Amount::Fraction { numerator, denominator } && numerator == value
            && denominator == 16383))),
        controller_change(event) is Some <==> (event.body matches EventBody::Midi(m) && (
        m is ControlChange || m is ChannelAftertouch || m is PitchBend)),
{
}

/// A controller change that comes back as a legacy controller event, with the same
/// controller, channel and value, is the message that was sent.
pub proof fn controllers_round_trip(event: Event, control: u8, channel: i8, value: i8, value2: i8)
    requires
        event.body matches EventBody::Midi(m) && crate::lv2::midi::channel_voice_in_range(m),
        controller_change(event) matches Some(change) && control == change.control && channel
            == change.channel && value == value_bytes(change.value).0 && value2 == value_bytes(
            change.value,
        ).1,
    ensures
        event.body == EventBody::Midi(legacy_message(control, channel, value, value2)->0),
        legacy_message(control, channel, value, value2) is Some,
{
}

/// Of a channel only the low four bits count, of a data byte the low seven, and of
/// a pitch bend the low fourteen.
pub proof fn only_low_bits_control(offset: u32, channel: u8, a: u8, b: u8, bend: u16)
    ensures
        controller_change(
            Event {
                sample_offset: offset,
                body: EventBody::Midi(
                    MidiData::ControlChange { channel, controller: a, value: b },
                ),
            },
        ) == controller_change(
            Event {
                sample_offset: offset,
                body: EventBody::Midi(
                    MidiData::ControlChange {
                        channel: channel % 16,
                        controller: a % 128,
                        value: b % 128,
                    },
                ),
            },
        ),
        controller_change(
            Event {
                sample_offset: offset,
                body: EventBody::Midi(MidiData::ChannelAftertouch { channel, pressure: a }),
            },
        ) == controller_change(
            Event {
                sample_offset: offset,
                body: EventBody::Midi(
                    MidiData::ChannelAftertouch { channel: channel % 16, pressure: a % 128 },
                ),
            },
        ),
        controller_change(
            Event {
                sample_offset: offset,
                body: EventBody::Midi(MidiData::PitchBend { channel, value: bend }),
            },
        ) == controller_change(
            Event {
                sample_offset: offset,
                body: EventBody::Midi(
                    MidiData::PitchBend { channel: channel % 16, value: bend % 16384 },
                ),
            },
        ),
{
}

/// A legacy controller event means the message of its controller: below 128 a
/// control change, 128 channel pressure, 129 pitch bend with the low seven bits
/// first, 130 a program change, and nothing else.
pub proof fn legacy_controllers_mean_midi(control: u8, channel: i8, value: i8, value2: i8)
    requires
        0 <= channel < 16,
        0 <= value,
        0 <= value2,
    ensures
        match legacy_message(control, channel, value, value2) {
            Some(MidiData::ControlChange { channel: c, controller, value: v }) => control < 128 && c
                == channel && controller == control && v == value,
            Some(MidiData::ChannelAftertouch { channel: c, pressure }) => control == 128 && c
                == channel && pressure == value,
            Some(MidiData::PitchBend { channel: c, value: v }) => control == 129 && c == channel
                && v == value + 128 * value2,
            Some(MidiData::ProgramChange { channel: c, program }) => control == 130 && c == channel
                && program == value,
            Some(_) => false,
            None => control > 130,
        },
{
}

/// Notes and key pressure travel as what they are, with the same channel, key and
/// amount, at the same offset where VST3 can state it.
pub proof fn notes_are_sent_as_they_are(event: Event)
    ensures
        match (event.body, to_vst3(event)) {
            (EventBody::Midi(MidiData::NoteOn { channel, note, velocity }), Some(sent)) => (
            sent.body matches Vst3Body::NoteOn { channel: c, pitch, velocity: v } && c == channel
                && pitch == note && v == velocity),
            (EventBody::Midi(MidiData::NoteOff { channel, note, velocity }), Some(sent)) => (
            sent.body matches Vst3Body::NoteOff { channel: c, pitch, velocity: v } && c == channel
                && pitch == note && v == velocity),
            (EventBody::Midi(MidiData::PolyAftertouch { channel, note, pressure }), Some(sent)) => (
            sent.body matches Vst3Body::PolyPressure { channel: c, pitch, pressure: p } && c
                == channel && pitch == note && p == pressure),
            (EventBody::Midi(m), None) => !(m is NoteOn || m is NoteOff || m is PolyAftertouch),
            (_, None) => true,
            (_, Some(_)) => false,
        },
        to_vst3(event) matches Some(sent) ==> (event.sample_offset < 0x8000_0000 ==> sent.sample_offset
            == event.sample_offset),
        to_vst3(event) matches Some(sent) ==> (event.sample_offset >= 0x8000_0000
            ==> sent.sample_offset == 0x7FFF_FFFF),
{
}

/// Notes and key pressure that a plugin sends stay what they are. Channels keep
/// their low four bits, keys the nearest of 0 to 127, and what comes before the
/// block counts as its start.
pub proof fn received_notes_stay_what_they_are(event: Vst3Event)
    ensures
        match (event.body, from_vst3(event)) {
            (Vst3Body::NoteOn { channel, pitch, velocity }, Some(e)) => (
            e.body matches EventBody::Midi(MidiData::NoteOn { channel: c, note, velocity: v }) && v
                == velocity && (0 <= channel < 16 ==> c == channel) && (0 <= pitch < 128 ==> note
                == pitch) && (pitch < 0 ==> note == 0) && (pitch > 127 ==> note == 127)),
            (Vst3Body::NoteOff { channel, pitch, velocity }, Some(e)) => (
            e.body matches EventBody::Midi(MidiData::NoteOff { channel: c, note, velocity: v }) && v
                == velocity && (0 <= channel < 16 ==> c == channel) && (0 <= pitch < 128 ==> note
                == pitch) && (pitch < 0 ==> note == 0) && (pitch > 127 ==> note == 127)),
            (Vst3Body::PolyPressure { channel, pitch, pressure }, Some(e)) => (
            e.body matches EventBody::Midi(MidiData::PolyAftertouch { channel: c, note, pressure: p })
                && p == pressure && (0 <= channel < 16 ==> c == channel) && (0 <= pitch < 128
                ==> note == pitch) && (pitch < 0 ==> note == 0) && (pitch > 127 ==> note == 127)),
            (Vst3Body::LegacyCc { control, channel, value, value2 }, out) => out is Some
                == legacy_message(control, channel, value, value2) is Some && (out matches Some(e)
                ==> e.body == EventBody::Midi(
                legacy_message(control, channel, value, value2)->0,
            )),
            (Vst3Body::Other, out) => out is None,
            (_, None) => false,
        },
        from_vst3(event) matches Some(e) ==> e.sample_offset == (if event.sample_offset < 0 {
            0
        } else {
            event.sample_offset as int
        }),
{
}

/// A plugin's events are taken in the order in which they come, each as it would be
/// alone.
pub proof fn events_are_taken_in_order(a: Seq<Vst3Event>, event: Vst3Event, b: Seq<Vst3Event>)
    ensures
        all_from_vst3(a + seq![event] + b) == all_from_vst3(a) + (match from_vst3(event) {
            Some(e) => seq![e],
            None => Seq::empty(),
        }) + all_from_vst3(b),
        all_from_vst3(Seq::empty()) == Seq::<Event>::empty(),
    decreases b.len(),
{
    let whole = a + seq![event] + b;
    let one = match from_vst3(event) {
        Some(e) => seq![e],
        None => Seq::empty(),
    };
    if b.len() == 0 {
        assert(whole.drop_last() =~= a);
        assert(all_from_vst3(whole) =~= all_from_vst3(a) + one + all_from_vst3(b));
    } else {
        events_are_taken_in_order(a, event, b.drop_last());
        assert(whole.drop_last() =~= a + seq![event] + b.drop_last());
        assert(whole.last() == b.last());
        assert(all_from_vst3(whole) =~= all_from_vst3(a) + one + all_from_vst3(b));
    }
}

/// An event keeps its offset, as far as VST3 can state it, and has the largest one
/// otherwise.
pub proof fn offsets_are_kept(sample_offset: u32)
    ensures
        sample_offset < 0x8000_0000 ==> offset_of(sample_offset) == sample_offset,
        sample_offset >= 0x8000_0000 ==> offset_of(sample_offset) == 0x7FFF_FFFF,
{
}

/// A data byte has the low seven bits of the number that stands for it.
pub proof fn data_bytes_are_low_bits(value: i8)
    ensures
        data_byte_of(value as int) == (value as u8) & 0x7F,
        data_byte_of(value as int) < 128,
        value >= 0 ==> data_byte_of(value as int) == value,
{
    assert(value < 0 ==> (value as u8) & 0x7F == value + 128) by (bit_vector);
    assert(value >= 0 ==> (value as u8) & 0x7F == value) by (bit_vector);
}

} // verus!
