//! Planar audio buffer of one block.
//!
//! Channels are flat across buses; a range per bus cuts the bus's channels out
//! of them. Bus 0 is the main bus, higher ones are sidechains and auxiliaries.

use vstd::prelude::*;

verus! {

/// One channel of input audio.
pub type InputChannel<'a, S> = &'a [S];

/// One channel of output audio.
pub type OutputChannel<'a, S> = &'a mut [S];

/// The channels of one bus within the flat channels.
#[derive(Debug, Clone, Copy, PartialEq, Eq, Structural)]
pub struct BusRange {
    /// First channel.
    start: usize,
    /// Number of channels.
    len: usize,
}

impl BusRange {
    /// First channel.
    pub closed spec fn first(self) -> int {
        self.start as int
    }

    /// Number of channels.
    pub closed spec fn count(self) -> int {
        self.len as int
    }

    /// The range of `len` channels from `start`.
    #[must_use]
    pub fn new(start: usize, len: usize) -> (range: Self)
        ensures
            range.first() == start,
            range.count() == len,
    {
        BusRange { start, len }
    }
}

/// Whether a bus lies within `channels` channels.
pub open spec fn within(range: BusRange, channels: int) -> bool {
    0 <= range.first() && 0 <= range.count() && range.first() + range.count() <= channels
}

/// Whether a channel is one of a bus.
pub open spec fn owns(range: BusRange, channel: int) -> bool {
    range.first() <= channel < range.first() + range.count()
}

/// Whether a channel is one of some bus.
pub open spec fn has_bus(ranges: Seq<BusRange>, channel: int) -> bool {
    exists|i: int| 0 <= i < ranges.len() && #[trigger] owns(ranges[i], channel)
}

/// Whether `ranges` cut up `channels` channels: each channel is one of a bus, and
/// of no other.
pub open spec fn partition(ranges: Seq<BusRange>, channels: int) -> bool {
    &&& forall|i: int| 0 <= i < ranges.len() ==> within(#[trigger] ranges[i], channels)
    &&& forall|c: int| 0 <= c < channels ==> #[trigger] has_bus(ranges, c)
    &&& forall|i: int, j: int, c: int|
        #![trigger owns(ranges[i], c), owns(ranges[j], c)]
        0 <= i < j < ranges.len() ==> !(owns(ranges[i], c) && owns(ranges[j], c))
}

/// The number of channels of `ranges` together.
pub open spec fn covered(ranges: Seq<BusRange>) -> int
    decreases ranges.len(),
{
    if ranges.len() == 0 {
        0
    } else {
        covered(ranges.drop_last()) + ranges.last().count()
    }
}

/// Buses that cut up the channels lie within them.
pub proof fn buses_fit(ranges: Seq<BusRange>, channels: int, i: int)
    requires
        partition(ranges, channels),
        0 <= i < ranges.len(),
    ensures
        within(ranges[i], channels),
{
}

/// No bus that has a channel shares it with another: one of the two ends before
/// the other starts.
pub proof fn buses_are_disjoint(ranges: Seq<BusRange>, channels: int, i: int, j: int)
    requires
        partition(ranges, channels),
        0 <= i < ranges.len(),
        0 <= j < ranges.len(),
        i != j,
        ranges[i].count() > 0,
        ranges[j].count() > 0,
    ensures
        ranges[i].first() + ranges[i].count() <= ranges[j].first() || ranges[j].first()
            + ranges[j].count() <= ranges[i].first(),
{
    let a = ranges[i];
    let b = ranges[j];
    if a.first() <= b.first() {
        assert(owns(b, b.first()));
        assert(!owns(a, b.first()));
    } else {
        assert(owns(a, a.first()));
        assert(!owns(b, a.first()));
    }
}

/// The channels of the first `n` buses.
spec fn owned(ranges: Seq<BusRange>, n: int) -> Set<int> {
    Set::new(|c: int| exists|i: int| 0 <= i < n && #[trigger] owns(ranges[i], c))
}

proof fn owned_counts(ranges: Seq<BusRange>, channels: int, n: int)
    requires
        partition(ranges, channels),
        0 <= n <= ranges.len(),
    ensures
        owned(ranges, n).finite(),
        owned(ranges, n).len() == covered(ranges.take(n)),
    decreases n,
{
    if n == 0 {
        assert(owned(ranges, 0) =~= Set::empty());
    } else {
        owned_counts(ranges, channels, n - 1);
        let range = ranges[n - 1];
        let before = owned(ranges, n - 1);
        let own = vstd::set_lib::set_int_range(range.first(), range.first() + range.count());
        assert(within(range, channels));
        vstd::set_lib::lemma_int_range(range.first(), range.first() + range.count());
        assert forall|c: int| own.contains(c) == owns(range, c) by {
        }
        assert(before.disjoint(own)) by {
            assert forall|c: int| before.contains(c) implies !own.contains(c) by {
                let i = choose|i: int| 0 <= i < n - 1 && #[trigger] owns(ranges[i], c);
                assert(owns(ranges[i], c));
                assert(!owns(ranges[n - 1], c));
            }
        }
        assert(owned(ranges, n) =~= before + own) by {
            assert forall|c: int| owned(ranges, n).contains(c) == (before + own).contains(c) by {
                if owns(range, c) {
                    assert(owns(ranges[n - 1], c));
                }
            }
        }
        vstd::set_lib::lemma_set_disjoint_lens(before, own);
        assert(ranges.take(n).drop_last() =~= ranges.take(n - 1));
    }
}

/// Buses that cut up the channels have as many together as there are.
pub proof fn buses_add_up(ranges: Seq<BusRange>, channels: int)
    requires
        partition(ranges, channels),
        0 <= channels,
    ensures
        covered(ranges) == channels,
{
    owned_counts(ranges, channels, ranges.len() as int);
    vstd::set_lib::lemma_int_range(0, channels);
    assert(owned(ranges, ranges.len() as int) =~= vstd::set_lib::set_int_range(0, channels)) by {
        assert forall|c: int| owned(ranges, ranges.len() as int).contains(c) implies 0 <= c
            < channels by {
            let i = choose|i: int| 0 <= i < ranges.len() && #[trigger] owns(ranges[i], c);
            assert(within(ranges[i], channels));
        }
        assert forall|c: int| 0 <= c < channels implies owned(
            ranges,
            ranges.len() as int,
        ).contains(c) by {
            assert(has_bus(ranges, c));
        }
    }
    assert(ranges.take(ranges.len() as int) =~= ranges);
}

/// The number of samples of output channel `i`.
pub open spec fn output_len<S>(outputs: Seq<&mut [S]>, i: int) -> nat {
    outputs[i]@.len()
}

/// Planar audio of one block, with samples of type `S`.
pub struct AudioBuffer<'a, S> {
    inputs: &'a [&'a [S]],
    outputs: &'a mut [&'a mut [S]],
    num_frames: usize,
    bus_inputs: &'a [BusRange],
    bus_outputs: &'a [BusRange],
}

impl<'a, S> AudioBuffer<'a, S> {
    /// The input channels.
    pub closed spec fn ins(self) -> Seq<&'a [S]> {
        self.inputs@
    }

    /// The output channels.
    pub closed spec fn outs(self) -> Seq<&'a mut [S]> {
        self.outputs@
    }

    /// The number of frames.
    pub closed spec fn frames(self) -> int {
        self.num_frames as int
    }

    /// The input buses.
    pub closed spec fn in_buses(self) -> Seq<BusRange> {
        self.bus_inputs@
    }

    /// The output buses.
    pub closed spec fn out_buses(self) -> Seq<BusRange> {
        self.bus_outputs@
    }

    /// Whether the buses cut up the channels, as those of every new buffer do.
    pub open spec fn wf(self) -> bool {
        &&& partition(self.in_buses(), self.ins().len() as int)
        &&& partition(self.out_buses(), self.outs().len() as int)
    }

    /// A buffer of `num_frames` frames. Every channel holds as many at least, and
    /// the buses cut up the channels.
    #[must_use]
    pub fn new(
        inputs: &'a [&'a [S]],
        outputs: &'a mut [&'a mut [S]],
        num_frames: usize,
        bus_inputs: &'a [BusRange],
        bus_outputs: &'a [BusRange],
    ) -> (buffer: Self)
        requires
            forall|i: int| 0 <= i < inputs@.len() ==> (#[trigger] inputs@[i])@.len() >= num_frames,
            forall|i: int|
                0 <= i < old(outputs)@.len() ==> #[trigger] output_len(old(outputs)@, i)
                    >= num_frames,
            partition(bus_inputs@, inputs@.len() as int),
            partition(bus_outputs@, old(outputs)@.len() as int),
        ensures
            buffer.ins() == inputs@,
            buffer.outs() == old(outputs)@,
            buffer.frames() == num_frames,
            buffer.in_buses() == bus_inputs@,
            buffer.out_buses() == bus_outputs@,
            buffer.wf(),
    {
        AudioBuffer { inputs, outputs, num_frames, bus_inputs, bus_outputs }
    }

    /// Block length in frames.
    #[must_use]
    pub fn num_frames(&self) -> (n: usize)
        ensures
            n == self.frames(),
    {
        self.num_frames
    }

    /// Number of input buses.
    #[must_use]
    pub fn num_input_buses(&self) -> (n: usize)
        ensures
            n == self.in_buses().len(),
    {
        self.bus_inputs.len()
    }

    /// Number of output buses.
    #[must_use]
    pub fn num_output_buses(&self) -> (n: usize)
        ensures
            n == self.out_buses().len(),
    {
        self.bus_outputs.len()
    }

    /// Input channels across every bus.
    #[must_use]
    pub fn total_input_channels(&self) -> (n: usize)
        ensures
            n == self.ins().len(),
    {
        self.inputs.len()
    }

    /// Output channels across every bus.
    #[must_use]
    pub fn total_output_channels(&self) -> (n: usize)
        ensures
            n == self.outs().len(),
    {
        self.outputs.len()
    }

    /// The input channels of every bus, in order.
    #[must_use]
    pub fn all_inputs(&self) -> (channels: &[&'a [S]])
        ensures
            channels@ == self.ins(),
    {
        self.inputs
    }

    /// The output channels of every bus, in order.
    pub fn all_outputs(&mut self) -> (channels: &mut [&'a mut [S]])
        ensures
            channels@ == old(self).outs(),
            final(self).outs() == final(channels)@,
            final(self).ins() == old(self).ins(),
            final(self).frames() == old(self).frames(),
            final(self).in_buses() == old(self).in_buses(),
            final(self).out_buses() == old(self).out_buses(),
            old(self).wf() && final(channels)@.len() == channels@.len() ==> final(self).wf(),
    {
        self.outputs
    }

    /// The input channels of one bus.
    #[must_use]
    pub fn bus_inputs(&self, bus_index: usize) -> (channels: &[&'a [S]])
        requires
            self.wf(),
            bus_index < self.in_buses().len(),
        ensures
            channels@ == self.ins().subrange(
                self.in_buses()[bus_index as int].first(),
                self.in_buses()[bus_index as int].first()
                    + self.in_buses()[bus_index as int].count(),
            ),
    {
        let range = self.bus_inputs[bus_index];
        let channels: usize = self.inputs.len();
        proof {
            buses_fit(self.in_buses(), self.ins().len() as int, bus_index as int);
        }
        assert(range.start + range.len <= channels);
        vstd::slice::slice_subrange(self.inputs, range.start, range.start + range.len)
    }

    /// The output channels of one bus.
    pub fn bus_outputs(&mut self, bus_index: usize) -> (channels: &mut [&'a mut [S]])
        requires
            old(self).wf(),
            bus_index < old(self).out_buses().len(),
        ensures
            ({
                let range = old(self).out_buses()[bus_index as int];
                let from = range.first();
                let to = range.first() + range.count();
                &&& channels@ == old(self).outs().subrange(from, to)
                &&& final(self).outs() == old(self).outs().take(from) + final(channels)@
                    + old(self).outs().skip(to)
            }),
            final(self).ins() == old(self).ins(),
            final(self).frames() == old(self).frames(),
            final(self).in_buses() == old(self).in_buses(),
            final(self).out_buses() == old(self).out_buses(),
            final(channels)@.len() == channels@.len() ==> final(self).wf(),
    {
        let range = self.bus_outputs[bus_index];
        proof {
            buses_fit(self.out_buses(), self.outs().len() as int, bus_index as int);
        }
        let (_, tail) = self.outputs.split_at_mut(range.start);
        let (channels, _) = tail.split_at_mut(range.len);
        channels
    }

    /// The input channels of the main bus, or none where there is no bus.
    #[must_use]
    pub fn main_inputs(&self) -> (channels: &[&'a [S]])
        requires
            self.wf(),
        ensures
            channels@ == (if self.in_buses().len() == 0 {
                Seq::empty()
            } else {
                self.ins().subrange(
                    self.in_buses()[0].first(),
                    self.in_buses()[0].first() + self.in_buses()[0].count(),
                )
            }),
    {
        if self.bus_inputs.len() == 0 {
            vstd::slice::slice_subrange(self.inputs, 0, 0)
        } else {
            self.bus_inputs(0)
        }
    }

    /// The output channels of the main bus.
    pub fn main_outputs(&mut self) -> (channels: &mut [&'a mut [S]])
        requires
            old(self).wf(),
            old(self).out_buses().len() > 0,
        ensures
            ({
                let range = old(self).out_buses()[0];
                let from = range.first();
                let to = range.first() + range.count();
                &&& channels@ == old(self).outs().subrange(from, to)
                &&& final(self).outs() == old(self).outs().take(from) + final(channels)@
                    + old(self).outs().skip(to)
            }),
            final(self).ins() == old(self).ins(),
            final(self).frames() == old(self).frames(),
            final(self).in_buses() == old(self).in_buses(),
            final(self).out_buses() == old(self).out_buses(),
            final(channels)@.len() == channels@.len() ==> final(self).wf(),
    {
        self.bus_outputs(0)
    }
}

} // verus!
