//! Hardware MIDI input: which ports and channels reach the plugin, and what
//! their messages mean.

use crate::events::{EventBody, MidiData};
use crate::lv2::midi as message;
use crate::standalone::device;
use crate::text;
use vstd::prelude::*;
use vstd::string::StringExecFns;

verus! {

// ---------------------------------------------------------------------------
// Channels
// ---------------------------------------------------------------------------

/// Which MIDI channels reach the plugin.
///
/// Users count channels from 1; `Only` counts from 0, as status bytes do.
#[derive(Clone, Copy, PartialEq, Eq, Debug, Structural)]
pub enum MidiChannel {
    /// Every channel.
    Omni,
    /// Only this channel.
    Only(u8),
}

/// The number that stands for every channel.
pub const OMNI: u8 = 0x10;

impl Default for MidiChannel {
    fn default() -> (channel: Self)
        ensures
            channel == MidiChannel::Omni,
    {
        MidiChannel::Omni
    }
}

/// The channels that `spec` names: `omni` or `all`, or a number from 1 to 16.
/// Case and surrounding white space do not matter.
pub open spec fn channel_of(spec: Seq<char>) -> Option<MidiChannel> {
    let s = text::ascii_lower(text::trimmed(spec));
    if s == "omni"@ || s == "all"@ {
        Some(MidiChannel::Omni)
    } else {
        match text::number_up_to(s, 10, u8::MAX as nat) {
            Some(n) => if 1 <= n <= 16 {
                Some(MidiChannel::Only((n - 1) as u8))
            } else {
                None
            },
            None => None,
        }
    }
}

impl MidiChannel {
    /// The channels that `spec` names, where it names any.
    #[must_use]
    pub fn parse(spec: &str) -> (channel: Option<MidiChannel>)
        ensures
            channel == channel_of(spec@),
    {
        let chars = text::chars_of(spec);
        let lowered = text::lower(text::trim(chars.as_slice()));
        let s = lowered.as_slice();
        if text::is_text(s, "omni") || text::is_text(s, "all") {
            return Some(MidiChannel::Omni);
        }
        match text::parse_number(s, 10, u8::MAX as u64) {
            Some(n) => {
                if 1 <= n && n <= 16 {
                    Some(MidiChannel::Only((n - 1) as u8))
                } else {
                    None
                }
            },
            None => None,
        }
    }

    /// Whether a message with this status byte passes. Only channel-voice
    /// messages have a channel; all others pass.
    pub open spec fn passes(self, status: u8) -> bool {
        match self {
            MidiChannel::Omni => true,
            MidiChannel::Only(c) => !(0x80 <= status <= 0xEF) || status % 16 == c,
        }
    }

    /// Whether a message with this status byte passes.
    #[must_use]
    pub fn accepts(self, status: u8) -> (passes: bool)
        ensures
            passes == self.passes(status),
    {
        match self {
            MidiChannel::Omni => true,
            MidiChannel::Only(c) => !(0x80 <= status && status <= 0xEF) || status % 16 == c,
        }
    }

    /// The number that stands for these channels.
    pub open spec fn code(self) -> u8 {
        match self {
            MidiChannel::Omni => OMNI,
            MidiChannel::Only(c) => c,
        }
    }

    /// The number that stands for these channels: the channel, or one that is no
    /// channel.
    #[must_use]
    pub fn encode(self) -> (code: u8)
        ensures
            code == self.code(),
    {
        match self {
            MidiChannel::Omni => OMNI,
            MidiChannel::Only(c) => c,
        }
    }

    /// The channels that a number stands for; one that is no channel stands for
    /// all.
    pub open spec fn of_code(code: u8) -> MidiChannel {
        if code < 16 {
            MidiChannel::Only(code)
        } else {
            MidiChannel::Omni
        }
    }

    /// The channels that a number stands for.
    #[must_use]
    pub fn decode(v: u8) -> (channel: MidiChannel)
        ensures
            channel == MidiChannel::of_code(v),
    {
        if v < 16 {
            MidiChannel::Only(v)
        } else {
            MidiChannel::Omni
        }
    }
}

/// Every choice of channels comes back from its number.
pub proof fn channels_round_trip(channel: MidiChannel)
    requires
        channel matches MidiChannel::Only(c) ==> c < 16,
    ensures
        MidiChannel::of_code(channel.code()) == channel,
{
}

/// What `parse` gives can be told by a number.
pub proof fn parsed_channels_exist(spec: Seq<char>)
    ensures
        channel_of(spec) matches Some(MidiChannel::Only(c)) ==> c < 16,
{
}

/// System messages pass every filter, and a channel-voice message passes just
/// the filters of all channels and of its own.
pub proof fn filters_look_at_voice_messages(channel: MidiChannel, status: u8)
    ensures
        status >= 0xF0 ==> channel.passes(status),
        0x80 <= status < 0xF0 ==> (channel.passes(status) <==> channel == MidiChannel::Omni
            || channel == MidiChannel::Only((status % 16) as u8)),
{
}

// ---------------------------------------------------------------------------
// Settings
// ---------------------------------------------------------------------------

/// MIDI input choices.
#[derive(Debug)]
pub struct MidiConfig {
    /// Part of the names of the ports to open, whatever its case; all of them
    /// where there is none.
    pub input: Option<String>,
    /// The channels that reach the plugin.
    pub channel: MidiChannel,
}

impl Default for MidiConfig {
    fn default() -> (config: Self)
        ensures
            config.input is None,
            config.channel == MidiChannel::Omni,
    {
        MidiConfig { input: None, channel: MidiChannel::Omni }
    }
}

/// A string with the same text, where there is one.
fn copy_of(s: &Option<String>) -> (copy: Option<String>)
    ensures
        device::text_of(copy) == device::text_of(*s),
{
    match s {
        Some(s) => Some(s.clone()),
        None => None,
    }
}

impl Clone for MidiConfig {
    fn clone(&self) -> (config: Self)
        ensures
            device::text_of(config.input) == device::text_of(self.input),
            config.channel == self.channel,
    {
        MidiConfig { input: copy_of(&self.input), channel: self.channel }
    }
}

/// The settings that a running host shares: the choices it was started with, and
/// the number of the channels that pass now.
#[derive(Debug)]
pub struct MidiSettings {
    /// The choices, once they were made.
    pub chosen: Option<MidiConfig>,
    /// The channels' number.
    pub live: u8,
}

impl MidiSettings {
    /// Settings before any choice was made.
    #[must_use]
    pub fn new() -> (settings: Self)
        ensures
            settings.chosen is None,
            settings.live == OMNI,
    {
        MidiSettings { chosen: None, live: OMNI }
    }
}

/// Makes the choices, whose channels then pass. Only the first ones count: later
/// ones change nothing.
pub fn set_config(settings: &mut MidiSettings, config: MidiConfig)
    ensures
        final(settings).live == (if old(settings).chosen is Some {
            old(settings).live as int
        } else {
            config.channel.code() as int
        }),
        final(settings).chosen == (if old(settings).chosen is Some {
            old(settings).chosen
        } else {
            Some(config)
        }),
{
    if settings.chosen.is_none() {
        settings.live = config.channel.encode();
        settings.chosen = Some(config);
    }
}

/// The choices that apply: those that were made, or all ports and channels.
#[must_use]
pub fn config(settings: &MidiSettings) -> (config: MidiConfig)
    ensures
        match settings.chosen {
            Some(c) => device::text_of(config.input) == device::text_of(c.input) && config.channel
                == c.channel,
            None => config.input is None && config.channel == MidiChannel::Omni,
        },
{
    match &settings.chosen {
        Some(config) => config.clone(),
        None => MidiConfig::default(),
    }
}

/// The channels that pass now.
#[must_use]
pub fn live_channel(settings: &MidiSettings) -> (channel: MidiChannel)
    ensures
        channel == MidiChannel::of_code(settings.live),
{
    MidiChannel::decode(settings.live)
}

/// Changes the channels that pass.
pub fn set_live_channel(settings: &mut MidiSettings, channel: MidiChannel)
    ensures
        final(settings).live == channel.code(),
        final(settings).chosen == old(settings).chosen,
{
    settings.live = channel.encode();
}

// ---------------------------------------------------------------------------
// Ports
// ---------------------------------------------------------------------------

/// Whether a port is to be opened: all are where none is asked for, and
/// otherwise those whose name holds `wanted`, whatever the case of either.
pub open spec fn port_wanted(name: Option<String>, wanted: Option<Seq<char>>) -> bool {
    match (name, wanted) {
        (_, None) => true,
        (Some(n), Some(w)) => text::contains_text(text::ascii_lower(n@), text::ascii_lower(w)),
        (None, Some(_)) => false,
    }
}

/// The indices of the ports to open, in order.
pub open spec fn wanted_ports(names: Seq<Option<String>>, wanted: Option<Seq<char>>) -> Seq<usize>
    decreases names.len(),
{
    if names.len() == 0 {
        Seq::empty()
    } else {
        let before = wanted_ports(names.drop_last(), wanted);
        if port_wanted(names.last(), wanted) {
            before.push((names.len() - 1) as usize)
        } else {
            before
        }
    }
}

/// Which ports to open.
pub struct PortChoice {
    /// Their indices.
    pub ports: Vec<usize>,
    /// What to warn of, where ports were asked for and there are none such.
    pub warning: Option<String>,
}

fn lowered(s: &str) -> (out: Vec<char>)
    ensures
        out@ == text::ascii_lower(s@),
{
    text::lower(text::chars_of(s).as_slice())
}

/// Which of the ports with these names to open. A port may have no name.
#[must_use]
pub fn choose_ports(names: &[Option<String>], wanted: Option<&str>) -> (choice: PortChoice)
    ensures
        ({
            let want = match wanted {
                Some(w) => Some(w@),
                None => None,
            };
            &&& choice.ports@ == wanted_ports(names@, want)
            &&& match wanted {
                Some(w) if wanted_ports(names@, want).len() == 0 => choice.warning matches Some(
                    line,
                ) && line@ == "[truce-rack-standalone] no MIDI input matching "@ + text::quoted(
                    w@,
                ),
                _ => choice.warning is None,
            }
        }),
{
    let ghost want = match wanted {
        Some(w) => Some(w@),
        None => None,
    };
    let needle: Vec<char> = match wanted {
        Some(w) => lowered(w),
        None => Vec::new(),
    };
    let all: bool = wanted.is_none();
    let mut ports: Vec<usize> = Vec::new();
    let mut i: usize = 0;
    while i < names.len()
        invariant
            i <= names.len(),
            all == want is None,
            want matches Some(w) ==> needle@ == text::ascii_lower(w),
            ports@ == wanted_ports(names@.take(i as int), want),
        decreases names.len() - i,
    {
        proof {
            assert(names@.take(i + 1).drop_last() =~= names@.take(i as int));
            assert(names@.take(i + 1).last() == names@[i as int]);
        }
        let open: bool = if all {
            true
        } else {
            match &names[i] {
                Some(name) => text::contains(
                    lowered(name.as_str()).as_slice(),
                    needle.as_slice(),
                ),
                None => false,
            }
        };
        if open {
            ports.push(i);
        }
        i += 1;
    }
    assert(names@.take(i as int) =~= names@);
    let mut warning: Option<String> = None;
    if let Some(w) = wanted {
        if ports.len() == 0 {
            let mut line = String::from_str("[truce-rack-standalone] no MIDI input matching ");
            line.append(text::quote(w).as_str());
            warning = Some(line);
        }
    }
    PortChoice { ports, warning }
}

/// The MIDI input that a running host has chosen.
#[derive(Debug)]
pub struct MidiController {
    /// Part of the names of the open ports; all of them where there is none.
    pub input: Option<String>,
}

impl MidiController {
    /// A controller with the choices that apply.
    #[must_use]
    pub fn start(settings: &MidiSettings) -> (controller: Self)
        ensures
            device::text_of(controller.input) == (match settings.chosen {
                Some(c) => device::text_of(c.input),
                None => None,
            }),
    {
        MidiController { input: config(settings).input }
    }

    /// Part of the names of the open ports; all of them where there is none.
    #[must_use]
    pub fn input(&self) -> (input: Option<&str>)
        ensures
            match input {
                Some(s) => device::text_of(self.input) == Some(s@),
                None => self.input is None,
            },
    {
        match &self.input {
            Some(s) => Some(s.as_str()),
            None => None,
        }
    }

    /// Chooses other ports. The channels that pass stay as they are.
    pub fn set_input(&mut self, input: Option<String>)
        ensures
            final(self).input == input,
    {
        self.input = input;
    }

    /// Changes the channels that pass. The open ports stay as they are.
    pub fn set_channel(&self, settings: &mut MidiSettings, channel: MidiChannel)
        ensures
            final(settings).live == channel.code(),
            final(settings).chosen == old(settings).chosen,
    {
        set_live_channel(settings, channel);
    }
}

// ---------------------------------------------------------------------------
// Messages
// ---------------------------------------------------------------------------

/// What a message means. A Note On with velocity 0 is a Note Off; what is no
/// channel-voice message of the right length is kept as raw bytes, up to eight.
pub fn parse_midi(bytes: &[u8]) -> (body: Option<EventBody>)
    ensures
        match body {
            Some(b) => message::midi_message(bytes@) matches Some(data) && b == EventBody::Midi(
                data,
            ),
            None => message::midi_message(bytes@) is None,
        },
{
    message::decode_midi_atom(bytes)
}

/// What to queue of a message that came in.
pub open spec fn incoming(channel: MidiChannel, bytes: Seq<u8>) -> Option<MidiData> {
    if bytes.len() > 0 && !channel.passes(bytes[0]) {
        None
    } else {
        message::midi_message(bytes)
    }
}

/// What to queue of a message that came in: what it means, where its channel
/// passes.
pub fn receive(settings: &MidiSettings, bytes: &[u8]) -> (body: Option<EventBody>)
    ensures
        match body {
            Some(b) => incoming(MidiChannel::of_code(settings.live), bytes@) matches Some(data)
                && b == EventBody::Midi(data),
            None => incoming(MidiChannel::of_code(settings.live), bytes@) is None,
        },
{
    if bytes.len() > 0 && !live_channel(settings).accepts(bytes[0]) {
        return None;
    }
    parse_midi(bytes)
}

/// A channel that is written as a number is read as that channel, counted from 1:
/// 1 to 16 are channels, and no other number is.
pub proof fn written_channels_are_read(n: nat)
    ensures
        channel_of(text::decimal(n)) == (if 1 <= n <= 16 {
            Some(MidiChannel::Only((n - 1) as u8))
        } else {
            None
        }),
        channel_of("omni"@) == Some(MidiChannel::Omni),
        channel_of("all"@) == Some(MidiChannel::Omni),
{
    reveal_strlit("omni");
    reveal_strlit("all");
    text::decimals_are_digits(n);
    text::decimals_stay_as_they_are(n);
    let d = text::decimal(n);
    assert('0' <= d[0] <= '9');
    assert(text::trimmed("omni"@) == "omni"@);
    assert(text::trimmed("all"@) == "all"@);
    assert(text::ascii_lower("omni"@) =~= "omni"@);
    assert(text::ascii_lower("all"@) =~= "all"@);
}

/// Of what comes in, a filter takes out just the channel-voice messages of other
/// channels; what passes means what its bytes say.
pub proof fn filters_take_out_other_channels(channel: MidiChannel, bytes: Seq<u8>)
    ensures
        channel == MidiChannel::Omni ==> incoming(channel, bytes) == message::midi_message(bytes),
        channel matches MidiChannel::Only(c) ==> (if bytes.len() > 0 && 0x80 <= bytes[0] < 0xF0
            && bytes[0] % 16 != c {
            incoming(channel, bytes) is None
        } else {
            incoming(channel, bytes) == message::midi_message(bytes)
        }),
{
}

/// A port is opened just where it is wanted, each once and in order.
pub proof fn wanted_ports_are_opened(names: Seq<Option<String>>, wanted: Option<Seq<char>>)
    requires
        names.len() <= usize::MAX,
    ensures
        forall|i: int|
            #![trigger names[i]]
            0 <= i < names.len() ==> (wanted_ports(names, wanted).contains(i as usize)
                <==> port_wanted(names[i], wanted)),
        forall|j: int|
            0 <= j < wanted_ports(names, wanted).len() ==> (#[trigger] wanted_ports(
                names,
                wanted,
            )[j]) < names.len(),
        forall|j: int, k: int|
            0 <= j < k < wanted_ports(names, wanted).len() ==> (#[trigger] wanted_ports(
                names,
                wanted,
            )[j]) < (#[trigger] wanted_ports(names, wanted)[k]),
    decreases names.len(),
{
    if names.len() > 0 {
        let less = names.drop_last();
        let last = names.len() - 1;
        wanted_ports_are_opened(less, wanted);
        let before = wanted_ports(less, wanted);
        let all = wanted_ports(names, wanted);
        assert forall|i: int|
            #![trigger names[i]]
            0 <= i < names.len() implies (all.contains(i as usize) <==> port_wanted(
            names[i],
            wanted,
        )) by {
            if i < last {
                assert(less[i] == names[i]);
                if before.contains(i as usize) {
                    let j = choose|j: int| 0 <= j < before.len() && before[j] == i as usize;
                    assert(all[j] == i as usize);
                }
                if all.contains(i as usize) {
                    let j = choose|j: int| 0 <= j < all.len() && all[j] == i as usize;
                    assert(before[j] == i as usize);
                }
            } else {
                if port_wanted(names[i], wanted) {
                    assert(all[before.len() as int] == i as usize);
                }
                if before.contains(i as usize) {
                    let j = choose|j: int| 0 <= j < before.len() && before[j] == i as usize;
                    assert(before[j] < less.len());
                }
            }
        }
    }
}

/// Without a wish every port is wanted; with one, those whose name holds it,
/// whatever the case of either, and no port without a name.
pub proof fn ports_are_wanted_by_name(before: Seq<char>, wish: Seq<char>, name: String)
    ensures
        forall|n: Option<String>| #[trigger] port_wanted(n, None),
        !port_wanted(None, Some(wish)),
        text::contains_text(text::ascii_lower(name@), text::ascii_lower(wish)) == port_wanted(
            Some(name),
            Some(wish),
        ),
        name@ == before + wish ==> port_wanted(Some(name), Some(wish)),
{
    if name@ == before + wish {
        let low = text::ascii_lower(name@);
        assert(low =~= text::ascii_lower(before) + text::ascii_lower(wish) + Seq::empty());
        text::texts_are_found_where_they_are(
            text::ascii_lower(before),
            text::ascii_lower(wish),
            Seq::empty(),
        );
    }
}

} // verus!
