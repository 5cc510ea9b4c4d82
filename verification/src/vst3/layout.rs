//! Bus layouts of VST3 plugins.

use crate::bus::{self, Bus, BusKind, BusLayout, BusVec, BusView, ChannelConfig, LayoutView};
use crate::text;
use crate::vst3::ids::{self, string128_to_string};
use vstd::prelude::*;
use vstd::string::StringExecFns;

verus! {

/// What a plugin says of one of its buses.
pub struct BusFacts {
    /// Number of channels.
    pub channel_count: i32,
    /// Name, in a fixed array.
    pub name: [u16; 128],
}

/// The grouping of `count` channels, where there are any.
pub open spec fn config_of(count: int) -> Option<ChannelConfig> {
    if count == 1 {
        Some(ChannelConfig::Mono)
    } else if count == 2 {
        Some(ChannelConfig::Stereo)
    } else if count > 0 {
        Some(ChannelConfig::Discrete(count as u32))
    } else {
        None
    }
}

/// The grouping of `count` channels, where there are any.
#[must_use]
pub fn channel_config_for_count(count: i32) -> (config: Option<ChannelConfig>)
    ensures
        config == config_of(count as int),
{
    if count == 1 {
        Some(ChannelConfig::Mono)
    } else if count == 2 {
        Some(ChannelConfig::Stereo)
    } else if count > 0 {
        Some(ChannelConfig::Discrete(count as u32))
    } else {
        None
    }
}

/// The set of the first `channels` speakers, of 64 there are, one bit each.
pub open spec fn arrangement(channels: u32) -> u64 {
    if channels == 0 {
        0
    } else if channels >= 64 {
        u64::MAX
    } else {
        ((1u64 << (channels as u64)) - 1) as u64
    }
}

/// The set of the first `channels` speakers, one bit each.
#[must_use]
pub fn speaker_arrangement_for_channels(channels: u32) -> (speakers: u64)
    ensures
        speakers == arrangement(channels),
{
    if channels == 0 {
        0
    } else if channels >= 64 {
        u64::MAX
    } else {
        let n: u64 = channels as u64;
        assert(1u64 << n >= 1u64) by (bit_vector)
            requires
                n < 64u64,
        ;
        (1u64 << n) - 1
    }
}

/// Speaker `i` is in the arrangement of `channels` channels just where it is one
/// of the first that many.
pub proof fn arrangement_holds_first_speakers(channels: u32, i: u64)
    requires
        i < 64,
    ensures
        (arrangement(channels) >> i) & 1u64 == (if i < channels {
            1u64
        } else {
            0u64
        }),
{
    let n = channels as u64;
    if channels == 0 {
        assert((0u64 >> i) & 1u64 == 0u64) by (bit_vector);
    } else if channels >= 64 {
        assert((0xFFFF_FFFF_FFFF_FFFFu64 >> i) & 1u64 == 1u64) by (bit_vector)
            requires
                i < 64u64,
        ;
    } else {
        let set = ((1u64 << n) - 1) as u64;
        assert((set >> i) & 1u64 == (if i < n {
            1u64
        } else {
            0u64
        })) by (bit_vector)
            requires
                i < 64u64,
                0u64 < n,
                n < 64u64,
                set == ((1u64 << n) - 1) as u64,
        ;
    }
}

/// What a bus without a name is called: its direction and its number.
pub open spec fn default_name(is_input: bool, index: int) -> Seq<char> {
    (if is_input {
        "Input "@
    } else {
        "Output "@
    }) + text::decimal((index + 1) as nat)
}

/// What a bus is by its place in a layout: the first of a direction is the main
/// bus; later ones are sidechains where they are inputs, and auxiliary where they
/// are outputs.
pub open spec fn kind_of(is_input: bool, first: bool) -> BusKind {
    if first {
        BusKind::Main
    } else if is_input {
        BusKind::Sidechain
    } else {
        BusKind::Auxiliary
    }
}

/// The bus with this name and these properties. `index` is its place among the
/// plugin's buses, and `first` tells whether it is the first of a layout.
pub open spec fn named_bus_of(
    name: Seq<char>,
    channel_count: int,
    is_input: bool,
    index: int,
    first: bool,
) -> Option<BusView> {
    match config_of(channel_count) {
        None => None,
        Some(channels) => Some(
            BusView {
                name: if name.len() == 0 {
                    default_name(is_input, index)
                } else {
                    name
                },
                kind: kind_of(is_input, first),
                channels,
            },
        ),
    }
}

/// The bus with this name and these properties, where it has channels.
#[must_use]
pub fn named_bus(
    raw: String,
    channel_count: i32,
    is_input: bool,
    index: usize,
    first: bool,
) -> (bus: Option<Bus>)
    requires
        index < i32::MAX,
    ensures
        match bus {
            Some(b) => named_bus_of(raw@, channel_count as int, is_input, index as int, first)
                == Some(b@),
            None => named_bus_of(
                raw@,
                channel_count as int,
                is_input,
                index as int,
                first,
            ) is None,
        },
{
    let channels = match channel_config_for_count(channel_count) {
        Some(channels) => channels,
        None => return None,
    };
    let name = if raw.as_str().is_empty() {
        let mut name = if is_input {
            String::from_str("Input ")
        } else {
            String::from_str("Output ")
        };
        text::push_decimal(&mut name, index as u64 + 1);
        name
    } else {
        raw
    };
    let kind = if first {
        BusKind::Main
    } else if is_input {
        BusKind::Sidechain
    } else {
        BusKind::Auxiliary
    };
    Some(Bus { name, kind, channels })
}

/// The bus that a plugin's bus becomes.
pub open spec fn bus_of(facts: BusFacts, is_input: bool, index: int, first: bool) -> Option<
    BusView,
> {
    named_bus_of(
        text::lossy_utf16(ids::units_before_nul(facts.name@)),
        facts.channel_count as int,
        is_input,
        index,
        first,
    )
}

/// The bus that a plugin's bus becomes, where it has channels.
#[must_use]
pub fn query_audio_bus(facts: &BusFacts, is_input: bool, index: usize, first: bool) -> (bus: Option<
    Bus,
>)
    requires
        index < i32::MAX,
    ensures
        match bus {
            Some(b) => bus_of(*facts, is_input, index as int, first) == Some(b@),
            None => bus_of(*facts, is_input, index as int, first) is None,
        },
{
    let name = string128_to_string(&facts.name);
    named_bus(name, facts.channel_count, is_input, index, first)
}

/// The buses of one direction, where the plugin described them (`None` where it
/// did not), in order.
pub open spec fn buses_of(facts: Seq<Option<BusFacts>>, is_input: bool) -> Seq<BusView>
    decreases facts.len(),
{
    if facts.len() == 0 {
        Seq::empty()
    } else {
        let before = buses_of(facts.drop_last(), is_input);
        match facts.last() {
            Some(f) => match bus_of(f, is_input, facts.len() - 1, before.len() == 0) {
                Some(b) => before.push(b),
                None => before,
            },
            None => before,
        }
    }
}

/// The buses of one direction, in order.
fn append_audio_buses(buses: &mut BusVec, facts: &[Option<BusFacts>], is_input: bool)
    requires
        facts@.len() <= i32::MAX,
        old(buses)@.len() == 0,
    ensures
        final(buses)@ == buses_of(facts@, is_input),
{
    let mut i: usize = 0;
    assert(buses@ =~= buses_of(facts@.take(0), is_input));
    while i < facts.len()
        invariant
            i <= facts.len() <= i32::MAX,
            buses@ == buses_of(facts@.take(i as int), is_input),
        decreases facts.len() - i,
    {
        proof {
            assert(facts@.take(i + 1).drop_last() =~= facts@.take(i as int));
            assert(facts@.take(i + 1).last() == facts@[i as int]);
        }
        let first: bool = buses.buses().len() == 0;
        if let Some(f) = &facts[i] {
            if let Some(bus) = query_audio_bus(f, is_input, i, first) {
                buses.append_bus(bus);
            }
        }
        i += 1;
    }
    assert(facts@.take(i as int) =~= facts@);
}

/// The layout of a plugin with these buses. A plugin without audio outputs gets
/// one stereo output.
#[must_use]
pub fn discover_audio_layout(inputs: &[Option<BusFacts>], outputs: &[Option<BusFacts>]) -> (layout:
    BusLayout)
    requires
        inputs@.len() <= i32::MAX,
        outputs@.len() <= i32::MAX,
    ensures
        layout@ == (LayoutView {
            inputs: buses_of(inputs@, true),
            outputs: outputs_of(outputs@),
        }),
{
    let mut layout = BusLayout::new();
    append_audio_buses(&mut layout.inputs, inputs, true);
    append_audio_buses(&mut layout.outputs, outputs, false);
    assert(layout.inputs@ =~= buses_of(inputs@, true));
    assert(layout.outputs@ =~= buses_of(outputs@, false));
    if layout.outputs.buses().len() == 0 {
        layout.outputs.append_bus(Bus::main("Output", ChannelConfig::Stereo));
        assert(layout.outputs@ =~= seq![bus::main_bus("Output"@, ChannelConfig::Stereo)]);
    }
    layout
}

/// In each direction the first bus is the main one, and no other is: later inputs
/// are sidechains, and later outputs auxiliary.
pub proof fn the_first_bus_is_the_main_one(facts: Seq<Option<BusFacts>>, is_input: bool, i: int)
    requires
        0 <= i < buses_of(facts, is_input).len(),
    ensures
        buses_of(facts, is_input)[i].kind == kind_of(is_input, i == 0),
        buses_of(facts, is_input)[i].kind == BusKind::Main <==> i == 0,
    decreases facts.len(),
{
    if facts.len() > 0 {
        let before = buses_of(facts.drop_last(), is_input);
        if i < before.len() {
            the_first_bus_is_the_main_one(facts.drop_last(), is_input, i);
        }
    }
}

/// The output buses of a layout: those of the plugin, or one stereo output where
/// it has none.
pub open spec fn outputs_of(facts: Seq<Option<BusFacts>>) -> Seq<BusView> {
    if buses_of(facts, false).len() == 0 {
        seq![bus::main_bus("Output"@, ChannelConfig::Stereo)]
    } else {
        buses_of(facts, false)
    }
}

/// Every VST3 layout has just one main output bus, and it is the first.
pub proof fn layouts_have_an_output(outputs: Seq<Option<BusFacts>>)
    ensures
        outputs_of(outputs).len() > 0,
        forall|i: int|
            0 <= i < outputs_of(outputs).len() ==> ((#[trigger] outputs_of(outputs)[i]).kind
                == BusKind::Main <==> i == 0),
{
    assert forall|i: int| 0 <= i < outputs_of(outputs).len() implies ((
    #[trigger] outputs_of(outputs)[i]).kind == BusKind::Main <==> i == 0) by {
        if buses_of(outputs, false).len() > 0 {
            the_first_bus_is_the_main_one(outputs, false, i);
        }
    }
}

/// A bus has the channels that the plugin says, and there is one just where it has
/// any. One and two channels are mono and stereo, and any more are discrete.
pub proof fn buses_have_their_channels(count: i32)
    ensures
        config_of(count as int) is Some <==> count > 0,
        config_of(count as int) matches Some(config) ==> config.channels() == count && (config
            == ChannelConfig::Mono <==> count == 1) && (config == ChannelConfig::Stereo <==> count
            == 2),
{
}

/// A bus keeps its name. One without a name is called by its direction and its number,
/// counted from 1, so that no two of them are called the same.
pub proof fn buses_are_told_apart(
    name: Seq<char>,
    channel_count: int,
    is_input: bool,
    index: int,
    other: int,
    first: bool,
)
    requires
        channel_count > 0,
        0 <= index,
        0 <= other,
    ensures
        named_bus_of(name, channel_count, is_input, index, first) matches Some(b) && (name.len() > 0
            ==> b.name == name) && (name.len() == 0 ==> b.name == (if is_input {
            "Input "@
        } else {
            "Output "@
        }) + text::decimal((index + 1) as nat)),
        default_name(is_input, index) == default_name(is_input, other) ==> index == other,
{
    if default_name(is_input, index) == default_name(is_input, other) {
        let prefix = if is_input {
            "Input "@
        } else {
            "Output "@
        };
        let n = prefix.len() as int;
        let a = text::decimal((index + 1) as nat);
        let b = text::decimal((other + 1) as nat);
        assert(default_name(is_input, index).skip(n) =~= a);
        assert(default_name(is_input, other).skip(n) =~= b);
        text::decimals_are_digits((index + 1) as nat);
        text::decimals_are_digits((other + 1) as nat);
    }
}

/// A bus that a plugin describes after others comes after them, unless it has no
/// channels; one that it does not describe changes nothing.
pub proof fn buses_come_in_order(facts: Seq<Option<BusFacts>>, next: BusFacts, is_input: bool)
    ensures
        buses_of(facts.push(None), is_input) == buses_of(facts, is_input),
        next.channel_count <= 0 ==> buses_of(facts.push(Some(next)), is_input) == buses_of(
            facts,
            is_input,
        ),
        next.channel_count > 0 ==> {
            let before = buses_of(facts, is_input);
            let after = buses_of(facts.push(Some(next)), is_input);
            &&& after.len() == before.len() + 1
            &&& after.take(before.len() as int) == before
            &&& after.last().channels.channels() == next.channel_count
            &&& after.last().kind == (if before.len() == 0 {
                BusKind::Main
            } else if is_input {
                BusKind::Sidechain
            } else {
                BusKind::Auxiliary
            })
        },
{
    assert(facts.push(None).drop_last() =~= facts);
    assert(facts.push(Some(next)).drop_last() =~= facts);
    let before = buses_of(facts, is_input);
    if next.channel_count > 0 {
        assert(buses_of(facts.push(Some(next)), is_input).take(before.len() as int) =~= before);
    }
}

} // verus!
