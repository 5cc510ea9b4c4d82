//! Bus topology declaration.
//!
//! A [`BusLayout`] describes one of the audio bus configurations a plugin can
//! operate in. Plugins advertise layouts; the host picks one before activation.

use vstd::prelude::*;
use vstd::string::StringExecFns;

verus! {

/// Channel count and grouping for one bus.
#[derive(Clone, Copy, Debug, PartialEq, Eq, Structural)]
pub enum ChannelConfig {
    /// 1 channel.
    Mono,
    /// 2 channels (L, R).
    Stereo,
    /// 6 channels (L, R, C, LFE, Ls, Rs).
    Surround5_1,
    /// 8 channels (L, R, C, LFE, Ls, Rs, Lb, Rb).
    Surround7_1,
    /// Any other channel count.
    Discrete(u32),
}

impl ChannelConfig {
    /// Number of channels that a config carries.
    pub open spec fn channels(self) -> u32 {
        match self {
            ChannelConfig::Mono => 1,
            ChannelConfig::Stereo => 2,
            ChannelConfig::Surround5_1 => 6,
            ChannelConfig::Surround7_1 => 8,
            ChannelConfig::Discrete(n) => n,
        }
    }

    /// Number of channels this config carries.
    #[must_use]
    pub fn count(self) -> (n: u32)
        ensures
            n == self.channels(),
    {
        match self {
            ChannelConfig::Mono => 1,
            ChannelConfig::Stereo => 2,
            ChannelConfig::Surround5_1 => 6,
            ChannelConfig::Surround7_1 => 8,
            ChannelConfig::Discrete(n) => n,
        }
    }
}

/// What a bus carries.
#[derive(Clone, Copy, Debug, PartialEq, Eq, Structural)]
pub enum BusKind {
    /// Main audio path.
    Main,
    /// Sidechain or additional auxiliary input.
    Sidechain,
    /// Auxiliary output beyond the main bus.
    Auxiliary,
}

/// One bus's declaration: name, kind, channel config.
#[derive(Debug)]
pub struct Bus {
    /// Display name for the host UI.
    pub name: String,
    /// Bus role.
    pub kind: BusKind,
    /// Channel grouping.
    pub channels: ChannelConfig,
}

/// A bus with its name as text.
pub struct BusView {
    /// Display name.
    pub name: Seq<char>,
    /// Bus role.
    pub kind: BusKind,
    /// Channel grouping.
    pub channels: ChannelConfig,
}

impl View for Bus {
    type V = BusView;

    open spec fn view(&self) -> BusView {
        BusView { name: self.name@, kind: self.kind, channels: self.channels }
    }
}

impl Clone for Bus {
    fn clone(&self) -> (bus: Self)
        ensures
            bus@ == self@,
    {
        Bus { name: self.name.clone(), kind: self.kind, channels: self.channels }
    }
}

impl Bus {
    /// A main bus.
    #[must_use]
    pub fn main(name: &str, channels: ChannelConfig) -> (bus: Self)
        ensures
            bus@ == (BusView { name: name@, kind: BusKind::Main, channels }),
    {
        Bus { name: String::from_str(name), kind: BusKind::Main, channels }
    }

    /// A sidechain bus.
    #[must_use]
    pub fn sidechain(name: &str, channels: ChannelConfig) -> (bus: Self)
        ensures
            bus@ == (BusView { name: name@, kind: BusKind::Sidechain, channels }),
    {
        Bus { name: String::from_str(name), kind: BusKind::Sidechain, channels }
    }

    /// An auxiliary bus.
    #[must_use]
    pub fn auxiliary(name: &str, channels: ChannelConfig) -> (bus: Self)
        ensures
            bus@ == (BusView { name: name@, kind: BusKind::Auxiliary, channels }),
    {
        Bus { name: String::from_str(name), kind: BusKind::Auxiliary, channels }
    }
}

/// A `smallvec::SmallVec` of buses with two inline slots.
#[verifier::external_body]
#[derive(Debug)]
pub struct BusVec {
    inner: smallvec::SmallVec<[Bus; 2]>,
}

/// The buses that a small vector holds, in order.
pub uninterp spec fn bus_items(v: BusVec) -> Seq<Bus>;

impl View for BusVec {
    type V = Seq<BusView>;

    open spec fn view(&self) -> Seq<BusView> {
        Seq::new(bus_items(*self).len(), |i: int| bus_items(*self)[i]@)
    }
}

impl BusVec {
    /// Calls `SmallVec::new`, which makes a vector without items.
    #[verifier::external_body]
    pub(crate) fn new() -> (v: BusVec)
        ensures
            bus_items(v) == Seq::<Bus>::empty(),
    {
        BusVec { inner: smallvec::SmallVec::new() }
    }

    /// Calls `SmallVec::push`, which appends one item.
    #[verifier::external_body]
    pub(crate) fn push(&mut self, bus: Bus)
        ensures
            bus_items(*final(self)) == bus_items(*old(self)).push(bus),
    {
        self.inner.push(bus)
    }

    /// Calls `SmallVec::as_slice`, which lends the items in order.
    #[verifier::external_body]
    pub(crate) fn as_slice(&self) -> (buses: &[Bus])
        ensures
            buses@ == bus_items(*self),
    {
        self.inner.as_slice()
    }

    /// The buses in order.
    #[must_use]
    pub fn buses(&self) -> (buses: &[Bus])
        ensures
            buses@.len() == self@.len(),
            forall|i: int| 0 <= i < buses@.len() ==> (#[trigger] buses@[i])@ == self@[i],
    {
        self.as_slice()
    }

    /// Appends a bus.
    pub fn append_bus(&mut self, bus: Bus)
        ensures
            final(self)@ == old(self)@.push(bus@),
    {
        self.push(bus);
        assert(self@ =~= old(self)@.push(bus@));
    }
}

impl Clone for BusVec {
    fn clone(&self) -> (v: Self)
        ensures
            v@ == self@,
    {
        let buses = self.as_slice();
        let mut v = BusVec::new();
        let mut i: usize = 0;
        assert(v@ =~= self@.take(0));
        while i < buses.len()
            invariant
                i <= buses.len(),
                buses@ == bus_items(*self),
                v@ == self@.take(i as int),
            decreases buses.len() - i,
        {
            v.append_bus(buses[i].clone());
            assert(v@ =~= self@.take(i + 1));
            i += 1;
        }
        assert(v@ =~= self@);
        v
    }
}

/// One complete I/O topology that a plugin supports.
#[derive(Debug)]
pub struct BusLayout {
    /// Input buses in declaration order, the main input first.
    pub inputs: BusVec,
    /// Output buses in declaration order, the main output first.
    pub outputs: BusVec,
}

/// A layout as sequences of buses.
pub struct LayoutView {
    /// Input buses.
    pub inputs: Seq<BusView>,
    /// Output buses.
    pub outputs: Seq<BusView>,
}

impl View for BusLayout {
    type V = LayoutView;

    open spec fn view(&self) -> LayoutView {
        LayoutView { inputs: self.inputs@, outputs: self.outputs@ }
    }
}

/// The bus that carries the main audio path.
pub open spec fn main_bus(name: Seq<char>, channels: ChannelConfig) -> BusView {
    BusView { name, kind: BusKind::Main, channels }
}

/// The channels of all buses together.
pub open spec fn total_channels(buses: Seq<BusView>) -> nat
    decreases buses.len(),
{
    if buses.len() == 0 {
        0
    } else {
        total_channels(buses.drop_last()) + buses.last().channels.channels() as nat
    }
}

/// Adding buses never lowers the number of channels.
proof fn total_channels_grows(buses: Seq<BusView>, i: int)
    requires
        0 <= i <= buses.len(),
    ensures
        total_channels(buses.take(i)) <= total_channels(buses),
    decreases buses.len() - i,
{
    if i == buses.len() {
        assert(buses.take(i) =~= buses);
    } else {
        total_channels_grows(buses, i + 1);
        assert(buses.take(i + 1).drop_last() =~= buses.take(i));
    }
}

/// The channels of all buses together.
fn count_channels(v: &BusVec) -> (n: u32)
    requires
        total_channels(v@) <= u32::MAX,
    ensures
        n == total_channels(v@),
{
    let buses = v.as_slice();
    let mut n: u32 = 0;
    let mut i: usize = 0;
    while i < buses.len()
        invariant
            i <= buses.len(),
            buses@ == bus_items(*v),
            total_channels(v@) <= u32::MAX,
            n == total_channels(v@.take(i as int)),
        decreases buses.len() - i,
    {
        proof {
            assert(v@.take(i + 1).drop_last() =~= v@.take(i as int));
            assert(v@.take(i + 1).last() == buses@[i as int]@);
            total_channels_grows(v@, i + 1);
        }
        n = n + buses[i].channels.count();
        i += 1;
    }
    assert(v@.take(i as int) =~= v@);
    n
}

impl BusLayout {
    /// A layout without audio buses.
    #[must_use]
    pub fn new() -> (layout: Self)
        ensures
            layout@ == (LayoutView { inputs: Seq::empty(), outputs: Seq::empty() }),
    {
        let layout = BusLayout { inputs: BusVec::new(), outputs: BusVec::new() };
        assert(layout.inputs@ =~= Seq::<BusView>::empty());
        assert(layout.outputs@ =~= Seq::<BusView>::empty());
        layout
    }

    /// One main bus of `channels` each way.
    fn symmetric(channels: ChannelConfig) -> (layout: Self)
        ensures
            layout@ == (LayoutView {
                inputs: seq![main_bus("Input"@, channels)],
                outputs: seq![main_bus("Output"@, channels)],
            }),
    {
        let mut layout = BusLayout::new();
        layout.inputs.append_bus(Bus::main("Input", channels));
        layout.outputs.append_bus(Bus::main("Output", channels));
        assert(layout.inputs@ =~= seq![main_bus("Input"@, channels)]);
        assert(layout.outputs@ =~= seq![main_bus("Output"@, channels)]);
        layout
    }

    /// Mono in, mono out.
    #[must_use]
    pub fn mono() -> (layout: Self)
        ensures
            layout@ == (LayoutView {
                inputs: seq![main_bus("Input"@, ChannelConfig::Mono)],
                outputs: seq![main_bus("Output"@, ChannelConfig::Mono)],
            }),
    {
        BusLayout::symmetric(ChannelConfig::Mono)
    }

    /// Stereo in, stereo out.
    #[must_use]
    pub fn stereo() -> (layout: Self)
        ensures
            layout@ == (LayoutView {
                inputs: seq![main_bus("Input"@, ChannelConfig::Stereo)],
                outputs: seq![main_bus("Output"@, ChannelConfig::Stereo)],
            }),
    {
        BusLayout::symmetric(ChannelConfig::Stereo)
    }

    /// Stereo and a stereo sidechain in, stereo out.
    #[must_use]
    pub fn stereo_with_sidechain(sidechain_name: &str) -> (layout: Self)
        ensures
            layout@ == (LayoutView {
                inputs: seq![
                    main_bus("Input"@, ChannelConfig::Stereo),
                    BusView {
                        name: sidechain_name@,
                        kind: BusKind::Sidechain,
                        channels: ChannelConfig::Stereo,
                    },
                ],
                outputs: seq![main_bus("Output"@, ChannelConfig::Stereo)],
            }),
    {
        let mut layout = BusLayout::symmetric(ChannelConfig::Stereo);
        layout.inputs.append_bus(Bus::sidechain(sidechain_name, ChannelConfig::Stereo));
        assert(layout.inputs@ =~= seq![
            main_bus("Input"@, ChannelConfig::Stereo),
            BusView {
                name: sidechain_name@,
                kind: BusKind::Sidechain,
                channels: ChannelConfig::Stereo,
            },
        ]);
        layout
    }

    /// Input channels of all buses together.
    #[must_use]
    pub fn total_input_channels(&self) -> (n: u32)
        requires
            total_channels(self@.inputs) <= u32::MAX,
        ensures
            n == total_channels(self@.inputs),
    {
        count_channels(&self.inputs)
    }

    /// Output channels of all buses together.
    #[must_use]
    pub fn total_output_channels(&self) -> (n: u32)
        requires
            total_channels(self@.outputs) <= u32::MAX,
        ensures
            n == total_channels(self@.outputs),
    {
        count_channels(&self.outputs)
    }
}

impl Clone for BusLayout {
    fn clone(&self) -> (layout: Self)
        ensures
            layout@ == self@,
    {
        BusLayout { inputs: self.inputs.clone(), outputs: self.outputs.clone() }
    }
}

impl Default for BusLayout {
    fn default() -> (layout: Self)
        ensures
            layout@ == (LayoutView { inputs: Seq::empty(), outputs: Seq::empty() }),
    {
        BusLayout::new()
    }
}

/// The channels of a layout add up bus by bus: one more bus adds its channels.
pub proof fn total_channels_adds_up(buses: Seq<BusView>, bus: BusView)
    ensures
        total_channels(buses.push(bus)) == total_channels(buses) + bus.channels.channels(),
{
    assert(buses.push(bus).drop_last() =~= buses);
}

/// The channels of two lists of buses add up.
pub proof fn channels_add_up(a: Seq<BusView>, b: Seq<BusView>)
    ensures
        total_channels(a + b) == total_channels(a) + total_channels(b),
    decreases b.len(),
{
    if b.len() == 0 {
        assert(a + b =~= a);
    } else {
        channels_add_up(a, b.drop_last());
        assert((a + b).drop_last() =~= a + b.drop_last());
    }
}

/// The groupings have the channels that their names say: stereo has two for one of
/// mono, surround has five or seven and one more, and a discrete one has its number.
pub proof fn groupings_have_their_channels(n: u32)
    ensures
        ChannelConfig::Mono.channels() == 1,
        ChannelConfig::Stereo.channels() == 2 * ChannelConfig::Mono.channels(),
        ChannelConfig::Surround5_1.channels() == 5 + 1,
        ChannelConfig::Surround7_1.channels() == 7 + 1,
        ChannelConfig::Discrete(n).channels() == n,
{
}

} // verus!
