//! Ports: what a plugin declares, and what each port is connected to.

use crate::bus::{self, Bus, BusLayout, ChannelConfig, LayoutView};
use crate::info::{PluginCategory, PluginInfo, PluginInfoView};
use vstd::prelude::*;
use vstd::string::StringExecFns;

verus! {

/// What the plugin's description says of one port.
#[derive(Clone, Copy, Debug, PartialEq, Eq, Structural)]
pub struct PortFacts {
    /// Whether the description has the port.
    pub present: bool,
    /// Whether it is an input port.
    pub is_input: bool,
    /// Whether it is an output port.
    pub is_output: bool,
    /// Whether it is an audio port.
    pub is_audio: bool,
    /// Whether it is a control port.
    pub is_control: bool,
    /// Whether it is an atom port.
    pub is_atom: bool,
    /// Bit pattern of the single-precision default value.
    pub default_bits: u32,
}

/// What a port carries.
#[derive(Clone, Copy, Debug, PartialEq, Eq, Structural)]
pub enum PortKind {
    /// One plane of audio.
    Audio,
    /// One single-precision number.
    Control {
        /// Bit pattern of the value it starts with.
        default_bits: u32,
    },
    /// An atom sequence.
    AtomSequence,
    /// Anything else.
    Other,
}

/// A classified port.
#[derive(Clone, Copy, Debug, PartialEq, Eq, Structural)]
pub struct PortInfo {
    /// The port's index.
    pub index: u32,
    /// What it carries.
    pub kind: PortKind,
    /// Whether it is an input port.
    pub is_input: bool,
}

/// All ports of a plugin.
pub struct PortTable {
    /// The ports in index order.
    pub ports: Vec<PortInfo>,
    /// Number of audio inputs.
    pub audio_in: usize,
    /// Number of audio outputs.
    pub audio_out: usize,
    /// For each port, its place among the control values, or `usize::MAX`.
    pub control_offsets: Vec<usize>,
    /// The control values' bit patterns, in port order.
    pub control_values: Vec<u32>,
}

/// Whether a single-precision bit pattern is a finite number: its exponent is
/// not all ones.
pub open spec fn is_finite(bits: u32) -> bool {
    (bits / 0x80_0000) % 0x100 != 0xFF
}

/// What a port carries, by what the description says of it. Audio comes before
/// control, and control before atoms; a default that is no finite number counts
/// as zero.
pub open spec fn kind_of(f: PortFacts) -> PortKind {
    if !f.present {
        PortKind::Other
    } else if f.is_audio {
        PortKind::Audio
    } else if f.is_control {
        PortKind::Control {
            default_bits: if is_finite(f.default_bits) {
                f.default_bits
            } else {
                0
            },
        }
    } else if f.is_atom {
        PortKind::AtomSequence
    } else {
        PortKind::Other
    }
}

/// How many of the ports are audio inputs.
pub open spec fn audio_inputs(facts: Seq<PortFacts>) -> nat
    decreases facts.len(),
{
    if facts.len() == 0 {
        0
    } else {
        audio_inputs(facts.drop_last()) + (if kind_of(facts.last()) is Audio
            && facts.last().is_input {
            1nat
        } else {
            0
        })
    }
}

/// How many of the ports are audio outputs: outputs that are not inputs too.
pub open spec fn audio_outputs(facts: Seq<PortFacts>) -> nat
    decreases facts.len(),
{
    if facts.len() == 0 {
        0
    } else {
        audio_outputs(facts.drop_last()) + (if kind_of(facts.last()) is Audio
            && !facts.last().is_input && facts.last().is_output {
            1nat
        } else {
            0
        })
    }
}

/// The values that the control ports start with, in port order.
pub open spec fn control_defaults(facts: Seq<PortFacts>) -> Seq<u32>
    decreases facts.len(),
{
    if facts.len() == 0 {
        Seq::empty()
    } else {
        match kind_of(facts.last()) {
            PortKind::Control { default_bits } => control_defaults(facts.drop_last()).push(
                default_bits,
            ),
            _ => control_defaults(facts.drop_last()),
        }
    }
}

impl PortTable {
    /// Whether the table is what `facts` describe.
    pub open spec fn describes(&self, facts: Seq<PortFacts>) -> bool {
        &&& self.ports@.len() == facts.len()
        &&& self.control_offsets@.len() == facts.len()
        &&& self.audio_in == audio_inputs(facts)
        &&& self.audio_out == audio_outputs(facts)
        &&& self.control_values@ == control_defaults(facts)
        &&& forall|i: int|
            0 <= i < facts.len() ==> (#[trigger] self.ports@[i]) == (PortInfo {
                index: i as u32,
                kind: kind_of(facts[i]),
                is_input: facts[i].present && facts[i].is_input,
            })
        &&& forall|i: int|
            0 <= i < facts.len() ==> #[trigger] self.control_offsets@[i] == (if kind_of(
                facts[i],
            ) is Control {
                control_defaults(facts.take(i)).len() as usize
            } else {
                usize::MAX
            })
    }
}

/// There are at most as many audio ports and control values as ports.
proof fn counts_are_bounded(facts: Seq<PortFacts>)
    ensures
        audio_inputs(facts) <= facts.len(),
        audio_outputs(facts) <= facts.len(),
        control_defaults(facts).len() <= facts.len(),
    decreases facts.len(),
{
    if facts.len() > 0 {
        counts_are_bounded(facts.drop_last());
    }
}

/// Classifies the ports that a plugin's description lists.
pub fn classify_ports(facts: &[PortFacts]) -> (table: PortTable)
    requires
        facts.len() <= u32::MAX,
    ensures
        table.describes(facts@),
{
    let mut table = PortTable {
        ports: Vec::new(),
        audio_in: 0,
        audio_out: 0,
        control_offsets: Vec::new(),
        control_values: Vec::new(),
    };
    let mut i: usize = 0;
    assert(table.describes(facts@.take(0)));
    while i < facts.len()
        invariant
            i <= facts.len() <= u32::MAX,
            table.describes(facts@.take(i as int)),
        decreases facts.len() - i,
    {
        let f = facts[i];
        let ghost before = facts@.take(i as int);
        let ghost after = facts@.take(i + 1);
        proof {
            assert(after.drop_last() =~= before);
            assert(after.last() == f);
            counts_are_bounded(before);
            assert forall|j: int| 0 <= j <= i implies #[trigger] after.take(j) == before.take(
                j,
            ) by {
                assert(after.take(j) =~= before.take(j));
            }
        }
        let kind = if !f.present {
            PortKind::Other
        } else if f.is_audio {
            if f.is_input {
                table.audio_in += 1;
            } else if f.is_output {
                table.audio_out += 1;
            }
            PortKind::Audio
        } else if f.is_control {
            let default_bits: u32 = if (f.default_bits / 0x80_0000) % 0x100 != 0xFF {
                f.default_bits
            } else {
                0
            };
            PortKind::Control { default_bits }
        } else if f.is_atom {
            PortKind::AtomSequence
        } else {
            PortKind::Other
        };
        match kind {
            PortKind::Control { default_bits } => {
                let place: usize = table.control_values.len();
                table.control_offsets.push(place);
                table.control_values.push(default_bits);
                assert(after.take(i as int) =~= before);
            },
            _ => {
                table.control_offsets.push(usize::MAX);
            },
        }
        table.ports.push(PortInfo { index: i as u32, kind, is_input: f.present && f.is_input });
        assert(table.describes(after));
        i += 1;
    }
    assert(facts@.take(i as int) =~= facts@);
    table
}

/// The grouping of `n` channels.
pub open spec fn config_of(n: nat) -> ChannelConfig {
    if n == 1 {
        ChannelConfig::Mono
    } else if n == 2 {
        ChannelConfig::Stereo
    } else if n == 6 {
        ChannelConfig::Surround5_1
    } else if n == 8 {
        ChannelConfig::Surround7_1
    } else if n <= u32::MAX {
        ChannelConfig::Discrete(n as u32)
    } else {
        ChannelConfig::Discrete(0)
    }
}

/// The grouping of `n` channels.
#[must_use]
pub fn channel_config(n: usize) -> (config: ChannelConfig)
    ensures
        config == config_of(n as nat),
{
    if n == 1 {
        ChannelConfig::Mono
    } else if n == 2 {
        ChannelConfig::Stereo
    } else if n == 6 {
        ChannelConfig::Surround5_1
    } else if n == 8 {
        ChannelConfig::Surround7_1
    } else if n as u64 <= u32::MAX as u64 {
        ChannelConfig::Discrete(n as u32)
    } else {
        ChannelConfig::Discrete(0)
    }
}

/// A grouping carries the channels it was made for.
pub proof fn config_carries_its_channels(n: nat)
    requires
        n <= u32::MAX,
    ensures
        config_of(n).channels() == n,
{
}

/// The one main bus of `n` channels, or none.
pub open spec fn main_buses(name: Seq<char>, n: nat) -> Seq<bus::BusView> {
    if n > 0 {
        seq![bus::main_bus(name, config_of(n))]
    } else {
        Seq::empty()
    }
}

/// A layout with the audio ports of each direction on one bus.
#[must_use]
pub fn audio_layout(in_count: usize, out_count: usize) -> (layout: BusLayout)
    ensures
        layout@ == (LayoutView {
            inputs: main_buses("Input"@, in_count as nat),
            outputs: main_buses("Output"@, out_count as nat),
        }),
{
    let mut layout = BusLayout::new();
    if in_count > 0 {
        layout.inputs.append_bus(Bus::main("Input", channel_config(in_count)));
    }
    if out_count > 0 {
        layout.outputs.append_bus(Bus::main("Output", channel_config(out_count)));
    }
    assert(layout.inputs@ =~= main_buses("Input"@, in_count as nat));
    assert(layout.outputs@ =~= main_buses("Output"@, out_count as nat));
    layout
}

// ---------------------------------------------------------------------------
// Connecting ports for one block
// ---------------------------------------------------------------------------

/// What a port is connected to.
#[derive(Clone, Copy, Debug, PartialEq, Eq, Structural)]
pub enum Connection {
    /// A plane of the host's input.
    InputPlane(usize),
    /// A plane of the host's output.
    OutputPlane(usize),
    /// A control value.
    ControlValue(usize),
    /// The sequence that carries MIDI to the plugin.
    MidiIn,
    /// The sequence that carries MIDI from the plugin.
    MidiOut,
    /// Nothing.
    Unconnected,
}

/// How many of the ports are audio ports of the given direction.
pub open spec fn audio_ports(ports: Seq<PortInfo>, inputs: bool) -> nat
    decreases ports.len(),
{
    if ports.len() == 0 {
        0
    } else {
        audio_ports(ports.drop_last(), inputs) + (if ports.last().kind is Audio
            && ports.last().is_input == inputs {
            1nat
        } else {
            0
        })
    }
}

/// What port `i` is connected to, where the host has `ins` input planes and
/// `outs` output planes. The k-th audio port of a direction gets the k-th plane
/// of that direction.
pub open spec fn connection(table: PortTable, ins: nat, outs: nat, i: int) -> Connection {
    let port = table.ports@[i];
    let k = audio_ports(table.ports@.take(i), port.is_input);
    match port.kind {
        PortKind::Audio => if port.is_input {
            if k < ins {
                Connection::InputPlane(k as usize)
            } else {
                Connection::Unconnected
            }
        } else {
            if k < outs {
                Connection::OutputPlane(k as usize)
            } else {
                Connection::Unconnected
            }
        },
        PortKind::Control { .. } => {
            let off = table.control_offsets@[i];
            if off == usize::MAX {
                Connection::Unconnected
            } else {
                Connection::ControlValue(off)
            }
        },
        PortKind::AtomSequence => if port.is_input {
            Connection::MidiIn
        } else {
            Connection::MidiOut
        },
        PortKind::Other => Connection::Unconnected,
    }
}

proof fn audio_ports_bounded(ports: Seq<PortInfo>, inputs: bool)
    ensures
        audio_ports(ports, inputs) <= ports.len(),
    decreases ports.len(),
{
    if ports.len() > 0 {
        audio_ports_bounded(ports.drop_last(), inputs);
    }
}

/// What every port is connected to for one block.
#[must_use]
pub fn connections(table: &PortTable, ins: usize, outs: usize) -> (all: Vec<Connection>)
    requires
        table.control_offsets@.len() == table.ports@.len(),
    ensures
        all@.len() == table.ports@.len(),
        forall|i: int|
            0 <= i < all@.len() ==> #[trigger] all@[i] == connection(
                *table,
                ins as nat,
                outs as nat,
                i,
            ),
{
    let mut all: Vec<Connection> = Vec::new();
    let mut next_in: usize = 0;
    let mut next_out: usize = 0;
    let mut i: usize = 0;
    while i < table.ports.len()
        invariant
            i <= table.ports@.len(),
            table.control_offsets@.len() == table.ports@.len(),
            next_in == audio_ports(table.ports@.take(i as int), true),
            next_out == audio_ports(table.ports@.take(i as int), false),
            all@.len() == i,
            forall|j: int|
                0 <= j < i ==> #[trigger] all@[j] == connection(
                    *table,
                    ins as nat,
                    outs as nat,
                    j,
                ),
        decreases table.ports@.len() - i,
    {
        let port = table.ports[i];
        proof {
            assert(table.ports@.take(i + 1).drop_last() =~= table.ports@.take(i as int));
            assert(table.ports@.take(i + 1).last() == port);
            audio_ports_bounded(table.ports@.take(i as int), true);
            audio_ports_bounded(table.ports@.take(i as int), false);
        }
        let data = match port.kind {
            PortKind::Audio => {
                if port.is_input {
                    let plane: usize = next_in;
                    next_in += 1;
                    if plane < ins {
                        Connection::InputPlane(plane)
                    } else {
                        Connection::Unconnected
                    }
                } else {
                    let plane: usize = next_out;
                    next_out += 1;
                    if plane < outs {
                        Connection::OutputPlane(plane)
                    } else {
                        Connection::Unconnected
                    }
                }
            },
            PortKind::Control { .. } => {
                let off: usize = table.control_offsets[i];
                if off == usize::MAX {
                    Connection::Unconnected
                } else {
                    Connection::ControlValue(off)
                }
            },
            PortKind::AtomSequence => {
                if port.is_input {
                    Connection::MidiIn
                } else {
                    Connection::MidiOut
                }
            },
            PortKind::Other => Connection::Unconnected,
        };
        all.push(data);
        i += 1;
    }
    all
}

/// Every control port of a classified plugin is connected to the value that
/// stands for it, which starts as the port's default.
pub proof fn control_ports_keep_their_values(
    table: PortTable,
    facts: Seq<PortFacts>,
    ins: nat,
    outs: nat,
    i: int,
)
    requires
        table.describes(facts),
        facts.len() <= u32::MAX,
        0 <= i < facts.len(),
        kind_of(facts[i]) is Control,
    ensures
        connection(table, ins, outs, i) matches Connection::ControlValue(off) && off
            < table.control_values@.len() && kind_of(facts[i]) == (PortKind::Control {
            default_bits: table.control_values@[off as int],
        }),
{
    let off = control_defaults(facts.take(i)).len();
    assert(table.ports@[i].kind == kind_of(facts[i]));
    counts_are_bounded(facts.take(i));
    assert(table.control_offsets@[i] == off);
    assert(facts.take(i + 1).drop_last() =~= facts.take(i));
    control_defaults_prefix(facts, i + 1);
}

/// The control values of the first ports come first.
proof fn control_defaults_prefix(facts: Seq<PortFacts>, n: int)
    requires
        0 <= n <= facts.len(),
    ensures
        control_defaults(facts.take(n)).len() <= control_defaults(facts).len(),
        forall|j: int|
            0 <= j < control_defaults(facts.take(n)).len() ==> control_defaults(facts)[j]
                == control_defaults(facts.take(n))[j],
    decreases facts.len() - n,
{
    if n == facts.len() {
        assert(facts.take(n) =~= facts);
    } else {
        control_defaults_prefix(facts, n + 1);
        assert(facts.take(n + 1).drop_last() =~= facts.take(n));
    }
}

/// No two ports share a control value.
pub proof fn control_values_are_not_shared(
    table: PortTable,
    facts: Seq<PortFacts>,
    i: int,
    j: int,
)
    requires
        table.describes(facts),
        facts.len() <= u32::MAX,
        0 <= i < j < facts.len(),
        kind_of(facts[i]) is Control,
        kind_of(facts[j]) is Control,
    ensures
        table.control_offsets@[i] < table.control_offsets@[j],
{
    counts_are_bounded(facts.take(i));
    counts_are_bounded(facts.take(j));
    assert(table.control_offsets@[i] == control_defaults(facts.take(i)).len());
    assert(table.control_offsets@[j] == control_defaults(facts.take(j)).len());
    assert(facts.take(i + 1).drop_last() =~= facts.take(i));
    assert(facts.take(j).take(i + 1) =~= facts.take(i + 1));
    control_defaults_prefix(facts.take(j), i + 1);
}

// ---------------------------------------------------------------------------
// Catalog entries
// ---------------------------------------------------------------------------

/// Whether one of the ports takes atoms in.
pub open spec fn takes_atoms(facts: Seq<PortFacts>) -> bool {
    exists|i: int|
        0 <= i < facts.len() && (#[trigger] facts[i]).present && !facts[i].is_audio
            && facts[i].is_input && facts[i].is_atom
}

/// The catalog entry of a plugin: an instrument where it has audio outputs and
/// no audio inputs, an effect otherwise.
pub open spec fn entry(
    uri: Seq<char>,
    name: Seq<char>,
    vendor: Seq<char>,
    facts: Seq<PortFacts>,
    has_editor: bool,
) -> PluginInfoView {
    PluginInfoView {
        name,
        vendor,
        version: 0,
        category: if audio_inputs(facts) == 0 && audio_outputs(facts) > 0 {
            PluginCategory::Instrument
        } else {
            PluginCategory::Effect
        },
        path: Seq::empty(),
        unique_id: uri,
        format: super::FORMAT@,
        has_editor,
        accepts_midi: takes_atoms(facts),
    }
}

/// The catalog entry of the plugin that `uri`, `name` and `vendor` name and
/// whose ports `facts` describe.
#[must_use]
pub fn plugin_to_info(
    uri: &str,
    name: &str,
    vendor: &str,
    facts: &[PortFacts],
    has_editor: bool,
) -> (info: PluginInfo)
    ensures
        info@ == entry(uri@, name@, vendor@, facts@, has_editor),
{
    let mut has_in: bool = false;
    let mut has_out: bool = false;
    let mut accepts_midi: bool = false;
    let mut i: usize = 0;
    while i < facts.len()
        invariant
            i <= facts.len(),
            has_in == (audio_inputs(facts@.take(i as int)) > 0),
            has_out == (audio_outputs(facts@.take(i as int)) > 0),
            accepts_midi == takes_atoms(facts@.take(i as int)),
        decreases facts.len() - i,
    {
        let f = facts[i];
        let ghost before = facts@.take(i as int);
        let ghost after = facts@.take(i + 1);
        proof {
            assert(after.drop_last() =~= before);
            assert(after.last() == f);
            assert(forall|j: int| 0 <= j < i ==> after[j] == before[j]);
        }
        if f.present {
            if f.is_audio {
                if f.is_input {
                    has_in = true;
                } else if f.is_output {
                    has_out = true;
                }
            } else if f.is_input && f.is_atom {
                accepts_midi = true;
                assert(after[i as int].is_atom);
            }
        }
        proof {
            if takes_atoms(before) {
                let j = choose|j: int|
                    0 <= j < before.len() && (#[trigger] before[j]).present && !before[j].is_audio
                        && before[j].is_input && before[j].is_atom;
                assert(after[j].is_atom);
            }
            if takes_atoms(after) {
                let j = choose|j: int|
                    0 <= j < after.len() && (#[trigger] after[j]).present && !after[j].is_audio
                        && after[j].is_input && after[j].is_atom;
                assert(j == i || before[j].is_atom);
            }
        }
        i += 1;
    }
    assert(facts@.take(i as int) =~= facts@);
    let category = if !has_in && has_out {
        PluginCategory::Instrument
    } else {
        PluginCategory::Effect
    };
    PluginInfo {
        name: String::from_str(name),
        vendor: String::from_str(vendor),
        version: 0,
        category,
        path: String::new(),
        unique_id: String::from_str(uri),
        format: super::FORMAT,
        has_editor,
        accepts_midi,
    }
}

// ---------------------------------------------------------------------------
// What descriptions mean
// ---------------------------------------------------------------------------

/// A default is a finite number just where not all bits of its exponent are set.
pub proof fn finite_defaults_have_an_exponent(bits: u32)
    ensures
        is_finite(bits) <==> bits & 0x7F80_0000 != 0x7F80_0000,
{
    assert(((bits / 0x80_0000) % 0x100 != 0xFF) == (bits & 0x7F80_0000 != 0x7F80_0000))
        by (bit_vector);
}

/// What a port carries is what its description says: audio before control, control
/// before atoms. A control port starts with its default, or with zero where that is no
/// finite number.
pub proof fn ports_carry_what_they_declare(f: PortFacts)
    ensures
        kind_of(f) is Audio <==> f.present && f.is_audio,
        kind_of(f) is Control <==> f.present && !f.is_audio && f.is_control,
        kind_of(f) is AtomSequence <==> f.present && !f.is_audio && !f.is_control && f.is_atom,
        kind_of(f) matches PortKind::Control { default_bits } ==> default_bits == (if
            f.default_bits & 0x7F80_0000 != 0x7F80_0000 {
            f.default_bits
        } else {
            0
        }),
{
    finite_defaults_have_an_exponent(f.default_bits);
}

/// Ports are counted one by one: an audio input counts as one input, an audio output
/// that is no input as one output, and no port as both; what a list of ports has, its
/// two parts have together.
pub proof fn audio_ports_are_counted(a: Seq<PortFacts>, b: Seq<PortFacts>, f: PortFacts)
    ensures
        audio_inputs(a + b) == audio_inputs(a) + audio_inputs(b),
        audio_outputs(a + b) == audio_outputs(a) + audio_outputs(b),
        control_defaults(a + b) == control_defaults(a) + control_defaults(b),
        audio_inputs(seq![f]) == (if f.present && f.is_audio && f.is_input {
            1int
        } else {
            0
        }),
        audio_outputs(seq![f]) == (if f.present && f.is_audio && f.is_output && !f.is_input {
            1int
        } else {
            0
        }),
        audio_inputs(seq![f]) + audio_outputs(seq![f]) <= 1,
    decreases b.len(),
{
    reveal_with_fuel(audio_inputs, 2);
    reveal_with_fuel(audio_outputs, 2);
    assert(seq![f].drop_last() =~= Seq::<PortFacts>::empty());
    if b.len() == 0 {
        assert(a + b =~= a);
        assert(control_defaults(a) + control_defaults(b) =~= control_defaults(a));
    } else {
        audio_ports_are_counted(a, b.drop_last(), f);
        assert((a + b).drop_last() =~= a + b.drop_last());
        assert((a + b).last() == b.last());
        assert(control_defaults(a + b) =~= control_defaults(a) + control_defaults(b));
    }
}

/// There are no audio inputs just where no port is one, and no audio outputs just
/// where no port is one that is no input.
pub proof fn counts_tell_what_there_is(facts: Seq<PortFacts>)
    ensures
        audio_inputs(facts) > 0 <==> exists|i: int|
            0 <= i < facts.len() && (#[trigger] facts[i]).present && facts[i].is_audio
                && facts[i].is_input,
        audio_outputs(facts) > 0 <==> exists|i: int|
            0 <= i < facts.len() && (#[trigger] facts[i]).present && facts[i].is_audio
                && facts[i].is_output && !facts[i].is_input,
    decreases facts.len(),
{
    if facts.len() > 0 {
        let less = facts.drop_last();
        counts_tell_what_there_is(less);
        let n = facts.len() - 1;
        if audio_inputs(less) > 0 {
            let i = choose|i: int|
                0 <= i < less.len() && (#[trigger] less[i]).present && less[i].is_audio
                    && less[i].is_input;
            assert(facts[i] == less[i]);
        }
        if audio_outputs(less) > 0 {
            let i = choose|i: int|
                0 <= i < less.len() && (#[trigger] less[i]).present && less[i].is_audio
                    && less[i].is_output && !less[i].is_input;
            assert(facts[i] == less[i]);
        }
        assert(facts[n] == facts.last());
        assert forall|i: int| 0 <= i < n implies less[i] == #[trigger] facts[i] by {}
    }
}

/// A plugin that gives audio and takes none is an instrument, and every other one an
/// effect; it takes MIDI just where one of its inputs takes atoms.
pub proof fn instruments_take_no_audio(
    uri: Seq<char>,
    name: Seq<char>,
    vendor: Seq<char>,
    facts: Seq<PortFacts>,
    has_editor: bool,
)
    ensures
        ({
            let info = entry(uri, name, vendor, facts, has_editor);
            let takes = exists|i: int|
                0 <= i < facts.len() && (#[trigger] facts[i]).present && facts[i].is_audio
                    && facts[i].is_input;
            let gives = exists|i: int|
                0 <= i < facts.len() && (#[trigger] facts[i]).present && facts[i].is_audio
                    && facts[i].is_output && !facts[i].is_input;
            &&& info.category == PluginCategory::Instrument <==> gives && !takes
            &&& info.category == PluginCategory::Effect <==> !(gives && !takes)
            &&& info.accepts_midi <==> exists|i: int|
                0 <= i < facts.len() && (#[trigger] facts[i]).present && !facts[i].is_audio
                    && facts[i].is_input && facts[i].is_atom
            &&& info.unique_id == uri && info.name == name && info.vendor == vendor
            &&& info.has_editor == has_editor
        }),
{
    counts_tell_what_there_is(facts);
}

/// A bus carries the channels that it was made for. The usual groupings have their
/// names, and any other number of channels is discrete.
pub proof fn groupings_have_their_names(name: Seq<char>, n: nat)
    requires
        n <= u32::MAX,
    ensures
        config_of(n) is Discrete <==> n != 1 && n != 2 && n != 6 && n != 8,
        bus::total_channels(main_buses(name, n)) == n,
        main_buses(name, n).len() == (if n == 0 {
            0int
        } else {
            1
        }),
        n > 0 ==> main_buses(name, n)[0].name == name && main_buses(name, n)[0].kind
            == bus::BusKind::Main,
{
    reveal_with_fuel(bus::total_channels, 2);
    if n > 0 {
        assert(main_buses(name, n).drop_last() =~= Seq::<bus::BusView>::empty());
    }
}

/// Ports are connected by what they carry: audio inputs to input planes, audio
/// outputs to output planes, controls to control values, and atoms to the sequence of
/// their direction.
pub proof fn ports_are_connected_by_kind(table: PortTable, ins: nat, outs: nat, i: int)
    requires
        0 <= i < table.ports@.len(),
    ensures
        ({
            let port = table.ports@[i];
            match connection(table, ins, outs, i) {
                Connection::InputPlane(p) => port.kind is Audio && port.is_input,
                Connection::OutputPlane(p) => port.kind is Audio && !port.is_input,
                Connection::ControlValue(off) => port.kind is Control && off
                    == table.control_offsets@[i] && off != usize::MAX,
                Connection::MidiIn => port.kind is AtomSequence && port.is_input,
                Connection::MidiOut => port.kind is AtomSequence && !port.is_input,
                Connection::Unconnected => !(port.kind is AtomSequence),
            }
        }),
{
}

/// The first audio port of a direction gets the first plane, and each one after it the
/// next plane, as long as there are any.
pub proof fn planes_are_handed_out_in_order(table: PortTable, ins: nat, outs: nat, i: int, j: int)
    requires
        0 <= i < j < table.ports@.len(),
        table.ports@[i].kind is Audio,
        table.ports@[j].kind is Audio,
        table.ports@[i].is_input == table.ports@[j].is_input,
        forall|k: int|
            i < k < j ==> !((#[trigger] table.ports@[k]).kind is Audio && table.ports@[k].is_input
                == table.ports@[j].is_input),
        ins <= usize::MAX,
        outs <= usize::MAX,
    ensures
        match connection(table, ins, outs, i) {
            Connection::InputPlane(p) => connection(table, ins, outs, j) == (if p + 1 < ins {
                Connection::InputPlane((p + 1) as usize)
            } else {
                Connection::Unconnected
            }),
            Connection::OutputPlane(p) => connection(table, ins, outs, j) == (if p + 1 < outs {
                Connection::OutputPlane((p + 1) as usize)
            } else {
                Connection::Unconnected
            }),
            _ => connection(table, ins, outs, j) == Connection::Unconnected,
        },
{
    let ports = table.ports@;
    let d = ports[j].is_input;
    assert(ports.take(i + 1).drop_last() =~= ports.take(i));
    assert(ports.take(i + 1).last() == ports[i]);
    audio_ports_between(ports, d, i + 1, j);
}

/// Ports that are no audio ports of a direction do not count.
proof fn audio_ports_between(ports: Seq<PortInfo>, inputs: bool, from: int, to: int)
    requires
        0 <= from <= to <= ports.len(),
        forall|k: int|
            from <= k < to ==> !((#[trigger] ports[k]).kind is Audio && ports[k].is_input == inputs),
    ensures
        audio_ports(ports.take(to), inputs) == audio_ports(ports.take(from), inputs),
    decreases to - from,
{
    if from < to {
        audio_ports_between(ports, inputs, from, to - 1);
        assert(ports.take(to).drop_last() =~= ports.take(to - 1));
        assert(ports.take(to).last() == ports[to - 1]);
    }
}

/// An audio port with none of its direction before it gets the first plane of that
/// direction, where there is one.
pub proof fn the_first_port_gets_the_first_plane(table: PortTable, ins: nat, outs: nat, i: int)
    requires
        0 <= i < table.ports@.len(),
        table.ports@[i].kind is Audio,
        forall|k: int|
            0 <= k < i ==> !((#[trigger] table.ports@[k]).kind is Audio && table.ports@[k].is_input
                == table.ports@[i].is_input),
    ensures
        connection(table, ins, outs, i) == (if table.ports@[i].is_input {
            if ins > 0 {
                Connection::InputPlane(0)
            } else {
                Connection::Unconnected
            }
        } else if outs > 0 {
            Connection::OutputPlane(0)
        } else {
            Connection::Unconnected
        }),
{
    audio_ports_between(table.ports@, table.ports@[i].is_input, 0, i);
    assert(table.ports@.take(0) =~= Seq::<PortInfo>::empty());
}

} // verus!
