//! Events on their way to the plugin.
//!
//! Every source of MIDI puts its events into one queue, which is emptied into
//! the plugin's events at the start of each block.

use crate::events::{Event, EventBody, EventList};
use vstd::prelude::*;

verus! {

/// Events that wait for the next block.
#[derive(Debug)]
pub struct MidiQueue {
    /// The events in order.
    pub waiting: Vec<Event>,
}

/// An event at the start of a block.
pub open spec fn at_start(body: EventBody) -> Event {
    Event { sample_offset: 0, body }
}

impl MidiQueue {
    /// An empty queue.
    #[must_use]
    pub fn new() -> (queue: Self)
        ensures
            queue.waiting@ == Seq::<Event>::empty(),
    {
        MidiQueue { waiting: Vec::new() }
    }
}

/// Puts an event into the queue, for the start of the next block.
pub fn enqueue(queue: &mut MidiQueue, body: EventBody)
    ensures
        final(queue).waiting@ == old(queue).waiting@.push(at_start(body)),
{
    queue.waiting.push(Event { sample_offset: 0, body });
}

/// Empties the queue into `events`.
pub fn drain_into(queue: &mut MidiQueue, events: &mut EventList)
    ensures
        final(queue).waiting@ == Seq::<Event>::empty(),
        final(events)@ == old(events)@ + old(queue).waiting@,
{
    let ghost first = events@;
    let ghost all = queue.waiting@;
    let mut i: usize = 0;
    while i < queue.waiting.len()
        invariant
            i <= queue.waiting.len(),
            queue.waiting@ == all,
            events@ =~= first + all.take(i as int),
        decreases queue.waiting.len() - i,
    {
        events.push(queue.waiting[i]);
        i += 1;
    }
    assert(all.take(i as int) =~= all);
    queue.waiting.clear();
}

/// The events that `bodies` become in the queue.
pub open spec fn all_at_start(bodies: Seq<EventBody>) -> Seq<Event> {
    Seq::new(bodies.len(), |i: int| at_start(bodies[i]))
}

/// Events leave the queue in the order in which they came, each once, and in the
/// order of their samples.
pub proof fn queue_keeps_order(waiting: Seq<Event>, bodies: Seq<EventBody>, body: EventBody)
    requires
        waiting == all_at_start(bodies),
    ensures
        waiting.push(at_start(body)) == all_at_start(bodies.push(body)),
        crate::events::in_sample_order(waiting),
{
    assert(waiting.push(at_start(body)) =~= all_at_start(bodies.push(body)));
}

} // verus!
