//! A loaded Audio Unit: what the host keeps of it and decides about it.
//!
//! Calls into the unit are made elsewhere. They are told what to do next, and
//! report back what happened.

use crate::au::ids::{self, parse_unique_id, ComponentId};
use crate::bus::{self, BusLayout, ChannelConfig, LayoutView};
use crate::clap::catalog;
use crate::clap::host::{self, saturate_u32};
use crate::error::{Error, ErrorView};
use crate::events::{Event, EventBody, EventList, MidiData};
use crate::info::{
    flags_hold_what_they_were_made_of, ParameterFlags, PluginInfo, PluginInfoView, PresetInfo,
    AUTOMATABLE, BYPASS, ENUMERATED, HIDDEN, READ_ONLY,
};
use crate::lv2::midi::{self, midi_bytes};
use crate::plugin::ProcessStatus;
use crate::text;
use crate::vst3::ids::{self as fixed, char8_array_to_string};
use vstd::prelude::*;
use vstd::string::StringExecFns;

verus! {

// ---------------------------------------------------------------------------
// Loading
// ---------------------------------------------------------------------------

/// The component to look up for a plugin. No plugin has an id that names none.
pub fn component_to_load(info: &PluginInfo) -> (result: Result<ComponentId, Error>)
    ensures
        match result {
            Ok(id) => ids::component_of(info@.unique_id) == Some(id),
            Err(e) => ids::component_of(info@.unique_id) is None && e@ == ErrorView::PluginNotFound(
                info@.unique_id,
            ),
        },
{
    match parse_unique_id(info.unique_id.as_str()) {
        Some(id) => Ok(id),
        None => Err(Error::plugin_not_found(info.unique_id.as_str())),
    }
}

/// Whether a component with the plugin's id was found.
pub fn component_answered(info: &PluginInfo, found: bool) -> (result: Result<(), Error>)
    ensures
        match result {
            Ok(_) => found,
            Err(e) => !found && e@ == ErrorView::PluginNotFound(info@.unique_id),
        },
{
    if found {
        Ok(())
    } else {
        Err(Error::plugin_not_found(info.unique_id.as_str()))
    }
}

/// Whether an instance was made: the call succeeded and gave one.
pub fn instance_answered(info: &PluginInfo, status: i32, is_null: bool) -> (result: Result<
    (),
    Error,
>)
    ensures
        match result {
            Ok(_) => status == 0 && !is_null,
            Err(e) => (status != 0 || is_null) && e@ == (ErrorView::LoadFailed {
                path: info@.path,
                reason: "AudioComponentInstanceNew failed with OSStatus "@ + text::signed_decimal(
                    status as int,
                ),
            }),
        },
{
    if status != 0 || is_null {
        let mut reason = String::from_str("AudioComponentInstanceNew failed with OSStatus ");
        text::push_signed_decimal(&mut reason, status as i64);
        Err(Error::load_failed(info.path.as_str(), reason.as_str()))
    } else {
        Ok(())
    }
}

/// How many parameter ids to make room for, where the unit has a list of them.
pub open spec fn slots_of(status: i32, size: u32) -> Option<usize> {
    if status != 0 || size == 0 {
        None
    } else {
        Some((size / 4) as usize)
    }
}

/// How many parameter ids to make room for, where the unit has a list of them.
#[must_use]
pub fn parameter_slots(status: i32, size: u32) -> (slots: Option<usize>)
    ensures
        slots == slots_of(status, size),
{
    if status != 0 || size == 0 {
        None
    } else {
        Some((size / 4) as usize)
    }
}

/// The ids that the unit filled in: as many as it says, and none where the call
/// failed.
pub open spec fn filled_ids(status: i32, ids: Seq<u32>, size: u32) -> Seq<u32> {
    if status != 0 {
        Seq::empty()
    } else if size / 4 < ids.len() {
        ids.take(size as int / 4)
    } else {
        ids
    }
}

/// The ids that the unit filled in.
#[must_use]
pub fn parameter_ids(status: i32, slots: Vec<u32>, size: u32) -> (ids: Vec<u32>)
    ensures
        ids@ == filled_ids(status, slots@, size),
{
    if status != 0 {
        return Vec::new();
    }
    let mut ids = slots;
    let n: usize = (size / 4) as usize;
    if n < ids.len() {
        ids.truncate(n);
    }
    ids
}

/// Whether a unit has a Cocoa view: it describes one with room for a location
/// and a class name.
#[must_use]
pub fn has_cocoa_ui(status: i32, size: u32, pointer_size: usize) -> (has: bool)
    ensures
        has == (status == 0 && size >= 2 * pointer_size),
{
    status == 0 && (size / 2) as usize >= pointer_size
}

/// The text of a parameter's name: its string where it has one, and otherwise
/// what stands in its fixed array.
#[must_use]
pub fn parameter_name(string: Option<String>, array: &[i8]) -> (name: String)
    ensures
        match string {
            Some(s) => name@ == s@,
            None => name@ == text::lossy_utf8(catalog::before_nul(fixed::bytes_of(array@))),
        },
{
    match string {
        Some(s) => s,
        None => char8_array_to_string(array),
    }
}

/// A parameter's flags. It can be automated unless it is a meter; it is hidden
/// where it is left out of presets.
pub open spec fn flags_of(meter_read_only: bool, omit_from_presets: bool) -> ParameterFlags {
    ParameterFlags::of(false, !meter_read_only, omit_from_presets, meter_read_only, false)
}

/// A parameter's flags. It can be automated unless it is a meter; it is hidden
/// where it is left out of presets.
#[must_use]
pub fn au_param_flags_to_rack(meter_read_only: bool, omit_from_presets: bool) -> (flags:
    ParameterFlags)
    ensures
        flags == flags_of(meter_read_only, omit_from_presets),
{
    ParameterFlags::new(false, !meter_read_only, omit_from_presets, meter_read_only, false)
}

// ---------------------------------------------------------------------------
// Answers
// ---------------------------------------------------------------------------

/// A call that answers with a status.
#[derive(Clone, Copy, Debug, PartialEq, Eq, Structural)]
pub enum AuCall {
    /// Describe a parameter.
    ParameterInfo,
    /// Read a parameter.
    GetParameter,
    /// Set a parameter.
    SetParameter,
    /// Choose a preset.
    SetPreset,
    /// Read the state.
    GetState,
    /// Set the state.
    SetState,
    /// Initialise the unit.
    Initialize,
    /// Read the description of the Cocoa view.
    GetCocoaUi,
}

/// What is said of a call that failed, before its status.
pub open spec fn call_text(call: AuCall) -> Seq<char> {
    match call {
        AuCall::ParameterInfo => "kAudioUnitProperty_ParameterInfo failed: OSStatus "@,
        AuCall::GetParameter => "AudioUnitGetParameter failed: OSStatus "@,
        AuCall::SetParameter => "AudioUnitSetParameter failed: OSStatus "@,
        AuCall::SetPreset => "AudioUnitSetProperty(PresentPreset) failed: OSStatus "@,
        AuCall::GetState => "kAudioUnitProperty_ClassInfo failed: OSStatus "@,
        AuCall::SetState => "AudioUnitSetProperty(ClassInfo) failed: OSStatus "@,
        AuCall::Initialize => "AudioUnitInitialize failed: OSStatus "@,
        AuCall::GetCocoaUi => "kAudioUnitProperty_CocoaUI get failed: OSStatus "@,
    }
}

/// What a call's answer means. Reading the state must also give one.
pub fn call_answered(call: AuCall, status: i32, is_null: bool) -> (result: Result<(), Error>)
    ensures
        match result {
            Ok(_) => status == 0 && !is_null,
            Err(e) => (status != 0 || is_null) && e@ == ErrorView::Other(
                call_text(call) + text::signed_decimal(status as int),
            ),
        },
{
    if status == 0 && !is_null {
        return Ok(());
    }
    let mut message = String::from_str(
        match call {
            AuCall::ParameterInfo => "kAudioUnitProperty_ParameterInfo failed: OSStatus ",
            AuCall::GetParameter => "AudioUnitGetParameter failed: OSStatus ",
            AuCall::SetParameter => "AudioUnitSetParameter failed: OSStatus ",
            AuCall::SetPreset => "AudioUnitSetProperty(PresentPreset) failed: OSStatus ",
            AuCall::GetState => "kAudioUnitProperty_ClassInfo failed: OSStatus ",
            AuCall::SetState => "AudioUnitSetProperty(ClassInfo) failed: OSStatus ",
            AuCall::Initialize => "AudioUnitInitialize failed: OSStatus ",
            AuCall::GetCocoaUi => "kAudioUnitProperty_CocoaUI get failed: OSStatus ",
        },
    );
    text::push_signed_decimal(&mut message, status as i64);
    Err(Error::Other(message))
}

/// A step that turns state into bytes or bytes into state.
#[derive(Clone, Copy, Debug, PartialEq, Eq, Structural)]
pub enum StateStep {
    /// There are bytes to load.
    Bytes,
    /// The bytes became data.
    Data,
    /// The data became a property list.
    ListFromData,
    /// The property list became data.
    DataFromList,
    /// The data has a length.
    Length,
}

/// What is said of a step that failed.
pub open spec fn state_step_text(step: StateStep) -> Seq<char> {
    match step {
        StateStep::Bytes => "empty AU state"@,
        StateStep::Data => "CFData::new returned null"@,
        StateStep::ListFromData => "CFPropertyListCreateWithData returned null"@,
        StateStep::DataFromList => "CFPropertyListCreateData returned null"@,
        StateStep::Length => "CFData length negative"@,
    }
}

/// What a step's outcome means.
pub fn state_step(step: StateStep, ok: bool) -> (result: Result<(), Error>)
    ensures
        match result {
            Ok(_) => ok,
            Err(e) => !ok && e@ == ErrorView::Other(state_step_text(step)),
        },
{
    if ok {
        return Ok(());
    }
    Err(
        Error::other(
            match step {
                StateStep::Bytes => "empty AU state",
                StateStep::Data => "CFData::new returned null",
                StateStep::ListFromData => "CFPropertyListCreateWithData returned null",
                StateStep::DataFromList => "CFPropertyListCreateData returned null",
                StateStep::Length => "CFData length negative",
            },
        ),
    )
}

// ---------------------------------------------------------------------------
// Presets
// ---------------------------------------------------------------------------

/// A preset as the unit lists it: its number and its name, where it has one.
pub type ListedPreset = (i32, Option<String>);

/// A preset with its name as text.
pub struct PresetView {
    /// Index in the unit's list.
    pub index: usize,
    /// Name.
    pub name: Seq<char>,
    /// Number.
    pub preset_number: i32,
}

impl View for PresetInfo {
    type V = PresetView;

    open spec fn view(&self) -> PresetView {
        PresetView {
            index: self.index,
            name: self.name@,
            preset_number: self.preset_number,
        }
    }
}

/// A listed preset's name, which is made of its number where it has none.
pub open spec fn preset_name(preset: ListedPreset) -> Seq<char> {
    match preset.1 {
        Some(name) => name@,
        None => "Preset "@ + text::signed_decimal(preset.0 as int),
    }
}

/// The presets of a list, each with its place in it; empty places are left out.
pub open spec fn presets_of(listed: Seq<Option<ListedPreset>>) -> Seq<PresetView>
    decreases listed.len(),
{
    if listed.len() == 0 {
        Seq::empty()
    } else {
        let before = presets_of(listed.drop_last());
        match listed.last() {
            Some(preset) => before.push(
                PresetView {
                    index: (listed.len() - 1) as usize,
                    name: preset_name(preset),
                    preset_number: preset.0,
                },
            ),
            None => before,
        }
    }
}

/// The presets with text.
pub open spec fn preset_views(presets: Seq<PresetInfo>) -> Seq<PresetView> {
    Seq::new(presets.len(), |i: int| presets[i]@)
}

/// The presets of a list.
#[must_use]
pub fn fetch_factory_presets(listed: &[Option<ListedPreset>]) -> (presets: Vec<PresetInfo>)
    ensures
        preset_views(presets@) == presets_of(listed@),
{
    let mut presets: Vec<PresetInfo> = Vec::new();
    let mut i: usize = 0;
    assert(preset_views(presets@) =~= presets_of(listed@.take(0)));
    while i < listed.len()
        invariant
            i <= listed.len(),
            preset_views(presets@) == presets_of(listed@.take(i as int)),
        decreases listed.len() - i,
    {
        proof {
            assert(listed@.take(i + 1).drop_last() =~= listed@.take(i as int));
            assert(listed@.take(i + 1).last() == listed@[i as int]);
        }
        if let Some((number, name)) = &listed[i] {
            let name = match name {
                Some(name) => name.clone(),
                None => {
                    let mut name = String::from_str("Preset ");
                    text::push_signed_decimal(&mut name, *number as i64);
                    name
                },
            };
            let ghost before = presets@;
            let preset = PresetInfo { index: i, name, preset_number: *number };
            presets.push(preset);
            assert(preset_views(presets@) =~= preset_views(before).push(preset@));
        }
        i += 1;
    }
    assert(listed@.take(i as int) =~= listed@);
    presets
}

/// The preset with this index. The unit may have no list, which is an error too.
pub fn preset_info(presets: &Option<Vec<PresetInfo>>, index: usize) -> (result: Result<
    &PresetInfo,
    Error,
>)
    ensures
        match result {
            Ok(preset) => presets matches Some(p) && index < p@.len() && *preset
                == p@[index as int],
            Err(e) => match presets {
                None => e@ == ErrorView::Other("kAudioUnitProperty_FactoryPresets failed"@),
                Some(p) => index >= p@.len() && e@ == ErrorView::InvalidParameter(index),
            },
        },
{
    match presets {
        None => Err(Error::other("kAudioUnitProperty_FactoryPresets failed")),
        Some(p) => {
            if index < p.len() {
                Ok(&p[index])
            } else {
                Err(Error::InvalidParameter(index))
            }
        },
    }
}

// ---------------------------------------------------------------------------
// MIDI
// ---------------------------------------------------------------------------

/// The status and the two data bytes that a unit is sent for an event; nothing
/// for events that are no MIDI message. Of raw bytes the first three are sent.
pub open spec fn midi_event(event: Event) -> Option<(u32, u32, u32)> {
    match event.body {
        EventBody::Midi(MidiData::Raw { len, data }) => if len >= 1 {
            Some(
                (
                    data[0] as u32,
                    if len >= 2 {
                        data[1] as u32
                    } else {
                        0
                    },
                    if len >= 3 {
                        data[2] as u32
                    } else {
                        0
                    },
                ),
            )
        } else {
            None
        },
        body => match midi::midi_triple(body) {
            Some((status, d1, d2, _)) => Some((status as u32, d1 as u32, d2 as u32)),
            None => None,
        },
    }
}

/// The status and the two data bytes that a unit is sent for an event, where it
/// is a MIDI message.
#[must_use]
pub fn send_midi(event: &Event) -> (message: Option<(u32, u32, u32)>)
    ensures
        message == midi_event(*event),
{
    match event.body {
        EventBody::Midi(MidiData::Raw { len, data }) => {
            if len == 0 {
                return None;
            }
            let d1: u32 = if len >= 2 {
                data[1] as u32
            } else {
                0
            };
            let d2: u32 = if len >= 3 {
                data[2] as u32
            } else {
                0
            };
            Some((data[0] as u32, d1, d2))
        },
        _ => match midi_bytes(&event.body) {
            Some((status, d1, d2, _)) => Some((status as u32, d1 as u32, d2 as u32)),
            None => None,
        },
    }
}

/// Channel-voice messages are sent with a status byte that names their channel
/// and data bytes below 128.
pub proof fn voice_messages_are_well_formed(event: Event)
    requires
        event.body matches EventBody::Midi(m) && !(m is Raw),
    ensures
        midi_event(event) matches Some((status, d1, d2)) && 0x80 <= status < 0xF0 && d1 < 128
            && d2 < 128,
{
}

/// What a unit is sent for a channel-voice message whose fields are in range is a
/// message of MIDI 1.0 that means the same; a Note On with velocity 0 means a Note
/// Off. Program changes and channel pressure have one data byte, and 0 as the
/// other.
pub proof fn sent_messages_mean_what_they_were(event: Event, data: MidiData)
    requires
        event.body == EventBody::Midi(data),
        midi::channel_voice_in_range(data),
    ensures
        midi_event(event) matches Some((status, d1, d2)) && status < 256 && d1 < 128 && d2 < 128 && (
        data is ProgramChange || data is ChannelAftertouch ==> d2 == 0) && midi::midi_message(
            seq![status as u8, d1 as u8, d2 as u8].take(
                if data is ProgramChange || data is ChannelAftertouch {
                    2
                } else {
                    3
                },
            ),
        ) == Some(
            match data {
                MidiData::NoteOn { channel, note, velocity: 0 } => MidiData::NoteOff {
                    channel,
                    note,
                    velocity: 0,
                },
                _ => data,
            },
        ),
{
    midi::decoding_undoes_encoding(data);
}

/// The status that a unit is sent tells the kind of the message and its channel:
/// 0x80 for Note Off, 0x90 for Note On, and so on up to 0xE0 for pitch bend.
pub proof fn statuses_tell_the_kind(event: Event)
    requires
        event.body matches EventBody::Midi(m) && !(m is Raw),
    ensures
        midi_event(event) matches Some((status, d1, d2)) && (match event.body {
            EventBody::Midi(MidiData::NoteOff { channel, note, velocity }) => status == 0x80
                + channel % 16 && d1 == note % 128 && d2 == velocity % 128,
            EventBody::Midi(MidiData::NoteOn { channel, note, velocity }) => status == 0x90
                + channel % 16 && d1 == note % 128 && d2 == velocity % 128,
            EventBody::Midi(MidiData::PolyAftertouch { channel, note, pressure }) => status == 0xA0
                + channel % 16 && d1 == note % 128 && d2 == pressure % 128,
            EventBody::Midi(MidiData::ControlChange { channel, controller, value }) => status
                == 0xB0 + channel % 16 && d1 == controller % 128 && d2 == value % 128,
            EventBody::Midi(MidiData::ProgramChange { channel, program }) => status == 0xC0
                + channel % 16 && d1 == program % 128 && d2 == 0,
            EventBody::Midi(MidiData::ChannelAftertouch { channel, pressure }) => status == 0xD0
                + channel % 16 && d1 == pressure % 128 && d2 == 0,
            EventBody::Midi(MidiData::PitchBend { channel, value }) => status == 0xE0 + channel % 16
                && d1 < 128 && d2 < 128 && d1 + 128 * d2 == value % 16384,
            _ => false,
        }),
{
}

/// Raw bytes are sent as they are, the first three of them, with 0 in place of
/// those that are not there; without any, and for what is no MIDI, nothing is
/// sent.
pub proof fn raw_bytes_are_sent_as_they_are(event: Event)
    ensures
        event.body matches EventBody::Midi(MidiData::Raw { len, data }) ==> (match midi_event(
            event,
        ) {
            Some((status, d1, d2)) => len >= 1 && status == data[0] && d1 == (if len >= 2 {
                data[1]
            } else {
                0
            }) && d2 == (if len >= 3 {
                data[2]
            } else {
                0
            }),
            None => len == 0,
        }),
        !(event.body is Midi) ==> midi_event(event) is None,
{
}

// ---------------------------------------------------------------------------
// The loaded unit
// ---------------------------------------------------------------------------

/// The number of channels that units are run with.
pub const CHANNELS: u32 = 2;

/// The shape of the sample data that units are run with: one plane of packed
/// single-precision numbers per channel.
#[derive(Clone, Copy, Debug, PartialEq, Eq, Structural)]
pub struct StreamFormat {
    /// Bytes per packet.
    pub bytes_per_packet: u32,
    /// Frames per packet.
    pub frames_per_packet: u32,
    /// Bytes per frame.
    pub bytes_per_frame: u32,
    /// Channels.
    pub channels: u32,
    /// Bits per sample.
    pub bits_per_channel: u32,
}

/// The shape of the sample data that units are run with.
pub open spec fn sample_format() -> StreamFormat {
    StreamFormat {
        bytes_per_packet: 4,
        frames_per_packet: 1,
        bytes_per_frame: 4,
        channels: CHANNELS,
        bits_per_channel: 32,
    }
}

/// The shape of the sample data that units are run with.
#[must_use]
pub fn stream_format() -> (format: StreamFormat)
    ensures
        format == sample_format(),
{
    StreamFormat {
        bytes_per_packet: 4,
        frames_per_packet: 1,
        bytes_per_frame: 4,
        channels: CHANNELS,
        bits_per_channel: 32,
    }
}

/// The number of bytes of a list of `buffers` buffers; there is room for one at
/// least.
pub open spec fn buffer_list_size(buffers: nat, list_size: nat, buffer_size: nat) -> nat {
    list_size + (if buffers > 1 {
        (buffers - 1) as nat
    } else {
        0
    }) * buffer_size
}

/// Zeroed room for a list of `buffers` buffers, where a list of one takes
/// `list_size` bytes and each further buffer `buffer_size`.
#[must_use]
pub fn alloc_audio_buffer_list(buffers: usize, list_size: usize, buffer_size: usize) -> (bytes: Vec<
    u8,
>)
    requires
        buffer_list_size(buffers as nat, list_size as nat, buffer_size as nat) <= usize::MAX,
    ensures
        bytes@ == Seq::new(
            buffer_list_size(buffers as nat, list_size as nat, buffer_size as nat),
            |i: int| 0u8,
        ),
{
    let further: usize = if buffers > 1 {
        buffers - 1
    } else {
        0
    };
    let ghost total = further as int * buffer_size as int;
    assert(total >= 0) by (nonlinear_arith)
        requires
            total == further as int * buffer_size as int,
    ;
    let mut bytes: Vec<u8> = Vec::new();
    bytes.resize(list_size + further * buffer_size, 0);
    assert(bytes@ =~= Seq::new(
        buffer_list_size(buffers as nat, list_size as nat, buffer_size as nat),
        |i: int| 0u8,
    ));
    bytes
}

/// One loaded Audio Unit.
pub struct AuPlugin {
    /// Its catalog entry.
    pub info: PluginInfo,
    /// The one layout it supports.
    pub layout: BusLayout,
    /// The layout it is active with.
    pub active_layout: Option<BusLayout>,
    /// Its parameters' ids in order.
    pub param_ids: Vec<u32>,
    /// Frames rendered since it became active.
    pub sample_time: i64,
    /// Input channels.
    pub input_channels: u32,
    /// Output channels.
    pub output_channels: u32,
    /// Whether its view is open.
    pub has_view: bool,
}

/// For each of `wanted` channels, which of the `available` ones it takes: its
/// own where there is one.
pub open spec fn planes(available: nat, wanted: nat) -> Seq<Option<usize>> {
    Seq::new(
        wanted,
        |i: int|
            if i < available {
                Some(i as usize)
            } else {
                None
            },
    )
}

/// For each of `wanted` channels, which of the `available` ones it takes.
#[must_use]
pub fn channel_planes(available: usize, wanted: u32) -> (out: Vec<Option<usize>>)
    ensures
        out@ == planes(available as nat, wanted as nat),
{
    let mut out: Vec<Option<usize>> = Vec::new();
    let mut i: u32 = 0;
    while i < wanted
        invariant
            i <= wanted,
            out@ =~= planes(available as nat, i as nat),
        decreases wanted - i,
    {
        if (i as usize) < available {
            out.push(Some(i as usize));
        } else {
            out.push(None);
        }
        i += 1;
    }
    out
}

/// The bytes of one plane of `frames` samples, or 0 where they are too many to
/// count.
pub open spec fn plane_bytes_spec(frames: nat) -> u32 {
    if 4 * frames <= u32::MAX {
        (4 * frames) as u32
    } else {
        0
    }
}

/// The bytes of one plane of `frames` samples.
#[must_use]
pub fn plane_bytes(frames: usize) -> (bytes: u32)
    ensures
        bytes == plane_bytes_spec(frames as nat),
{
    if frames as u64 <= 0x3FFF_FFFF {
        (frames as u32) * 4
    } else {
        0
    }
}

/// What a buffer that the unit asks to be filled gets.
#[derive(Clone, Copy, Debug, PartialEq, Eq, Structural)]
pub enum Fill {
    /// This input plane.
    Plane(usize),
    /// Silence.
    Silence,
}

/// What buffer `i` gets: the block's input plane, where there is one and the
/// unit asks for as many frames as the block has.
pub open spec fn fill_of(planes: Seq<Option<usize>>, block: nat, frames: nat, i: int) -> Fill {
    if i < planes.len() && planes[i] is Some && frames == block {
        Fill::Plane(planes[i]->0)
    } else {
        Fill::Silence
    }
}

/// What each of `buffers` buffers gets that the unit asks to be filled with
/// `frames` frames in a block of `block` frames.
#[must_use]
pub fn render_input(
    planes: &[Option<usize>],
    block: usize,
    frames: u32,
    buffers: u32,
) -> (fills: Vec<Fill>)
    ensures
        fills@ == Seq::new(
            buffers as nat,
            |i: int| fill_of(planes@, block as nat, frames as nat, i),
        ),
{
    let mut fills: Vec<Fill> = Vec::new();
    let mut i: u32 = 0;
    while i < buffers
        invariant
            i <= buffers,
            fills@ =~= Seq::new(
                i as nat,
                |j: int| fill_of(planes@, block as nat, frames as nat, j),
            ),
        decreases buffers - i,
    {
        let mut fill = Fill::Silence;
        if (i as usize) < planes.len() {
            if let Some(plane) = planes[i as usize] {
                if frames as usize == block {
                    fill = Fill::Plane(plane);
                }
            }
        }
        fills.push(fill);
        i += 1;
    }
    fills
}

/// A unit that asks for as many frames as the block has gets each of the block's
/// channels as it is, and silence for those that the block does not have. One
/// that asks for more or fewer gets silence.
pub proof fn inputs_reach_their_channels(available: nat, wanted: nat, block: nat, frames: nat, i: int)
    requires
        0 <= i < wanted,
    ensures
        fill_of(planes(available, wanted), block, frames, i) == (if i < available && frames == block {
            Fill::Plane(i as usize)
        } else {
            Fill::Silence
        }),
{
}

impl AuPlugin {
    /// A unit that was just loaded.
    pub fn load_from(info: &PluginInfo, param_ids: Vec<u32>, has_editor: bool) -> (plugin: AuPlugin)
        ensures
            plugin.info@ == (PluginInfoView { has_editor, ..info@ }),
            plugin.layout@ == (LayoutView {
                inputs: seq![bus::main_bus("Input"@, ChannelConfig::Stereo)],
                outputs: seq![bus::main_bus("Output"@, ChannelConfig::Stereo)],
            }),
            plugin.active_layout is None,
            plugin.param_ids == param_ids,
            plugin.sample_time == 0,
            plugin.input_channels == 0,
            plugin.output_channels == 0,
            !plugin.has_view,
    {
        let mut info = info.clone();
        info.has_editor = has_editor;
        AuPlugin {
            info,
            layout: BusLayout::stereo(),
            active_layout: None,
            param_ids,
            sample_time: 0,
            input_channels: 0,
            output_channels: 0,
            has_view: false,
        }
    }

    /// Whether the unit is active.
    #[must_use]
    pub fn is_active(&self) -> (active: bool)
        ensures
            active == self.active_layout is Some,
    {
        self.active_layout.is_some()
    }

    /// The id of the parameter with this index.
    pub fn parameter_id(&self, index: usize) -> (result: Result<u32, Error>)
        ensures
            match result {
                Ok(id) => index < self.param_ids@.len() && id == self.param_ids@[index as int],
                Err(e) => index >= self.param_ids@.len() && e@ == ErrorView::InvalidParameter(
                    index,
                ),
            },
    {
        if index < self.param_ids.len() {
            Ok(self.param_ids[index])
        } else {
            Err(Error::InvalidParameter(index))
        }
    }

    /// Whether parameter values may be asked for and set, which only an active
    /// unit allows.
    pub fn values_ready(&self) -> (result: Result<(), Error>)
        ensures
            match result {
                Ok(_) => self.active_layout is Some,
                Err(e) => self.active_layout is None && e@ == ErrorView::NotActivated,
            },
    {
        if self.is_active() {
            Ok(())
        } else {
            Err(Error::NotActivated)
        }
    }

    /// The longest slice that the unit is told of.
    #[must_use]
    pub fn max_frames(max_block_size: usize) -> (frames: u32)
        ensures
            frames == host::at_most_u32(max_block_size as nat),
    {
        saturate_u32(max_block_size)
    }

    /// Takes the unit's answer to its initialisation and, where it succeeded, its
    /// parameters' ids, which may have changed.
    pub fn activate_answered(&mut self, status: i32, param_ids: Vec<u32>, layout: BusLayout) -> (
        result: Result<(), Error>)
        ensures
            match result {
                Ok(_) => status == 0 && *final(self) == (AuPlugin {
                    param_ids,
                    input_channels: CHANNELS,
                    output_channels: CHANNELS,
                    sample_time: 0,
                    active_layout: Some(layout),
                    ..*old(self)
                }),
                Err(e) => status != 0 && *final(self) == *old(self) && e@ == ErrorView::Other(
                    call_text(AuCall::Initialize) + text::signed_decimal(status as int),
                ),
            },
    {
        match call_answered(AuCall::Initialize, status, false) {
            Ok(_) => {
                self.param_ids = param_ids;
                self.input_channels = CHANNELS;
                self.output_channels = CHANNELS;
                self.sample_time = 0;
                self.active_layout = Some(layout);
                Ok(())
            },
            Err(e) => Err(e),
        }
    }

    /// Makes the unit inactive and tells whether to uninitialise it.
    pub fn deactivate(&mut self) -> (uninitialize: bool)
        ensures
            uninitialize == old(self).active_layout is Some,
            *final(self) == (AuPlugin { active_layout: None, ..*old(self) }),
    {
        let uninitialize: bool = self.is_active();
        self.active_layout = None;
        uninitialize
    }

    /// The input and output planes of a block with these main channels. The block
    /// starts with no events in `output`.
    pub fn begin_process(&self, inputs: usize, outputs: usize, output: &mut EventList) -> (result:
        Result<(Vec<Option<usize>>, Vec<Option<usize>>), Error>)
        ensures
            match result {
                Ok((ins, outs)) => self.active_layout is Some && ins@ == planes(
                    inputs as nat,
                    self.input_channels as nat,
                ) && outs@ == planes(outputs as nat, self.output_channels as nat) && final(output)@
                    == Seq::<Event>::empty(),
                Err(e) => self.active_layout is None && e@ == ErrorView::NotActivated
                    && final(output)@ == old(output)@,
            },
    {
        if !self.is_active() {
            return Err(Error::NotActivated);
        }
        output.clear();
        Ok(
            (
                channel_planes(inputs, self.input_channels),
                channel_planes(outputs, self.output_channels),
            ),
        )
    }

    /// Takes the unit's status after a block of `frames` frames, which counts as
    /// rendered either way.
    pub fn end_process(&mut self, frames: usize, status: i32) -> (out: ProcessStatus)
        ensures
            *final(self) == (AuPlugin {
                sample_time: host::time_after(old(self).sample_time, frames as nat),
                ..*old(self)
            }),
            out == (if status == 0 {
                ProcessStatus::Continue
            } else {
                ProcessStatus::Error
            }),
    {
        self.sample_time = host::advance(self.sample_time, frames);
        if status == 0 {
            ProcessStatus::Continue
        } else {
            ProcessStatus::Error
        }
    }
}

// ---------------------------------------------------------------------------
// The editor
// ---------------------------------------------------------------------------

/// What happened while the editor is being opened.
pub enum OpenEvent {
    /// The host asks for it to be opened.
    Start {
        /// Whether the parent is a Cocoa view.
        is_ns_view: bool,
        /// Whether the parent is NULL.
        is_null: bool,
    },
    /// The size of the view's description was asked for.
    Described {
        /// Status.
        status: i32,
        /// Size.
        size: u32,
        /// Size that a description has at least.
        least: u32,
    },
    /// The description was read.
    Read(i32),
    /// The bundle was found, or not.
    Bundle(bool),
    /// The factory's class was found.
    ClassFound,
    /// The factory's class of this name was not found.
    ClassMissing(String),
    /// The factory was made, or not.
    FactoryMade(bool),
    /// The factory was retained, or not.
    FactoryRetained(bool),
    /// The factory can make views, or not.
    MethodFound(bool),
    /// The view was made, or not.
    ViewMade(bool),
    /// The view was retained, or not.
    ViewRetained(bool),
}

/// What to do next.
#[derive(Clone, Copy, Debug, PartialEq, Eq, Structural)]
pub enum OpenAction {
    /// Ask for the size of the view's description.
    Describe,
    /// Read the description.
    Read,
    /// Find the bundle.
    FindBundle,
    /// Find the factory's class.
    FindClass,
    /// Make the factory.
    MakeFactory,
    /// Retain the factory.
    RetainFactory,
    /// See whether the factory can make views.
    FindMethod,
    /// Make the view.
    MakeView,
    /// Retain the view.
    RetainView,
    /// Add the view to its parent.
    AddView,
    /// Nothing: it is open.
    Done,
}

fn step(ok: bool, next: OpenAction, message: &str) -> (result: Result<OpenAction, Error>)
    ensures
        match result {
            Ok(action) => ok && action == next,
            Err(e) => !ok && e@ == ErrorView::Other(message@),
        },
{
    if ok {
        Ok(next)
    } else {
        Err(Error::other(message))
    }
}

/// `next` where `ok`, and otherwise the error with this message.
pub open spec fn next_or(ok: bool, next: OpenAction, message: Seq<char>) -> Result<
    OpenAction,
    ErrorView,
> {
    if ok {
        Ok(next)
    } else {
        Err(ErrorView::Other(message))
    }
}

/// What follows `event` while the editor is being opened.
pub open spec fn open_step_spec(has_view: bool, event: OpenEvent) -> Result<OpenAction, ErrorView> {
    match event {
        OpenEvent::Start { is_ns_view, is_null } => if !is_ns_view {
            Err(ErrorView::Other("AU editor requires an NSView parent"@))
        } else if is_null {
            Err(ErrorView::Other("AU editor: parent NSView is null"@))
        } else if has_view {
            Ok(OpenAction::Done)
        } else {
            Ok(OpenAction::Describe)
        },
        OpenEvent::Described { status, size, least } => next_or(
            status == 0 && size >= least,
            OpenAction::Read,
            "kAudioUnitProperty_CocoaUI not advertised (status "@ + text::signed_decimal(
                status as int,
            ) + ", size "@ + text::decimal(size as nat) + ")"@,
        ),
        OpenEvent::Read(status) => next_or(
            status == 0,
            OpenAction::FindBundle,
            call_text(AuCall::GetCocoaUi) + text::signed_decimal(status as int),
        ),
        OpenEvent::Bundle(found) => next_or(
            found,
            OpenAction::FindClass,
            "NSBundle bundleWithURL: returned nil"@,
        ),
        OpenEvent::ClassFound => Ok(OpenAction::MakeFactory),
        OpenEvent::ClassMissing(name) => Err(
            ErrorView::Other("view factory class not found in bundle: "@ + name@),
        ),
        OpenEvent::FactoryMade(ok) => next_or(
            ok,
            OpenAction::RetainFactory,
            "AU view factory init returned nil"@,
        ),
        OpenEvent::FactoryRetained(ok) => next_or(
            ok,
            OpenAction::FindMethod,
            "could not retain AU view factory"@,
        ),
        OpenEvent::MethodFound(found) => next_or(
            found,
            OpenAction::MakeView,
            "AU view factory has no uiViewForAudioUnit:withSize: method"@,
        ),
        OpenEvent::ViewMade(ok) => next_or(
            ok,
            OpenAction::RetainView,
            "uiViewForAudioUnit:withSize: returned nil"@,
        ),
        OpenEvent::ViewRetained(ok) => next_or(
            ok,
            OpenAction::AddView,
            "could not retain AU NSView"@,
        ),
    }
}

impl AuPlugin {
    /// Decides what follows `event` while the editor is being opened. The view
    /// is kept once it was retained.
    pub fn open_step(&mut self, event: OpenEvent) -> (result: Result<OpenAction, Error>)
        ensures
            match result {
                Ok(action) => open_step_spec(old(self).has_view, event) == Ok::<
                    OpenAction,
                    ErrorView,
                >(action),
                Err(e) => open_step_spec(old(self).has_view, event) == Err::<
                    OpenAction,
                    ErrorView,
                >(e@),
            },
            *final(self) == (if event == OpenEvent::ViewRetained(true) {
                AuPlugin { has_view: true, ..*old(self) }
            } else {
                *old(self)
            }),
    {
        match event {
            OpenEvent::Start { is_ns_view, is_null } => {
                if !is_ns_view {
                    Err(Error::other("AU editor requires an NSView parent"))
                } else if is_null {
                    Err(Error::other("AU editor: parent NSView is null"))
                } else if self.has_view {
                    Ok(OpenAction::Done)
                } else {
                    Ok(OpenAction::Describe)
                }
            },
            OpenEvent::Described { status, size, least } => {
                if status == 0 && size >= least {
                    Ok(OpenAction::Read)
                } else {
                    let mut message = String::from_str(
                        "kAudioUnitProperty_CocoaUI not advertised (status ",
                    );
                    text::push_signed_decimal(&mut message, status as i64);
                    message.append(", size ");
                    text::push_decimal(&mut message, size as u64);
                    message.append(")");
                    Err(Error::Other(message))
                }
            },
            OpenEvent::Read(status) => match call_answered(AuCall::GetCocoaUi, status, false) {
                Ok(_) => Ok(OpenAction::FindBundle),
                Err(e) => Err(e),
            },
            OpenEvent::Bundle(found) => step(
                found,
                OpenAction::FindClass,
                "NSBundle bundleWithURL: returned nil",
            ),
            OpenEvent::ClassFound => Ok(OpenAction::MakeFactory),
            OpenEvent::ClassMissing(name) => {
                let mut message = String::from_str("view factory class not found in bundle: ");
                message.append(name.as_str());
                Err(Error::Other(message))
            },
            OpenEvent::FactoryMade(ok) => step(
                ok,
                OpenAction::RetainFactory,
                "AU view factory init returned nil",
            ),
            OpenEvent::FactoryRetained(ok) => step(
                ok,
                OpenAction::FindMethod,
                "could not retain AU view factory",
            ),
            OpenEvent::MethodFound(found) => step(
                found,
                OpenAction::MakeView,
                "AU view factory has no uiViewForAudioUnit:withSize: method",
            ),
            OpenEvent::ViewMade(ok) => step(
                ok,
                OpenAction::RetainView,
                "uiViewForAudioUnit:withSize: returned nil",
            ),
            OpenEvent::ViewRetained(ok) => {
                if ok {
                    self.has_view = true;
                }
                step(ok, OpenAction::AddView, "could not retain AU NSView")
            },
        }
    }

    /// Closes the editor and tells whether there is a view to remove.
    pub fn close_editor(&mut self) -> (remove: bool)
        ensures
            remove == old(self).has_view,
            *final(self) == (AuPlugin { has_view: false, ..*old(self) }),
    {
        let remove: bool = self.has_view;
        self.has_view = false;
        remove
    }
}

// ---------------------------------------------------------------------------
// What answers and steps mean
// ---------------------------------------------------------------------------

/// A meter can be read and not automated, any other parameter automated and not only
/// read; one that is left out of presets is hidden.
pub proof fn meters_are_only_read(meter_read_only: bool, omit_from_presets: bool)
    ensures
        ({
            let flags = flags_of(meter_read_only, omit_from_presets);
            &&& flags.has(READ_ONLY) == meter_read_only
            &&& flags.has(AUTOMATABLE) == !meter_read_only
            &&& flags.has(HIDDEN) == omit_from_presets
            &&& !flags.has(BYPASS)
            &&& !flags.has(ENUMERATED)
        }),
{
    flags_hold_what_they_were_made_of(
        false,
        !meter_read_only,
        omit_from_presets,
        meter_read_only,
        false,
    );
}

/// Room is made for as many ids of four bytes as a list of this size holds, and a unit
/// that fills that list gives all of them; one that fills less gives the first ones,
/// and one that fails gives none.
pub proof fn lists_of_ids_are_read(status: i32, size: u32, ids: Seq<u32>, filled: u32)
    ensures
        slots_of(status, size) is Some <==> status == 0 && size > 0,
        slots_of(status, size) matches Some(n) ==> 4 * n <= size && size < 4 * (n + 1),
        status == 0 && 4 * ids.len() <= filled ==> filled_ids(status, ids, filled) == ids,
        status == 0 && filled < 4 * ids.len() ==> {
            let got = filled_ids(status, ids, filled);
            &&& 4 * got.len() <= filled && filled < 4 * (got.len() + 1)
            &&& got == ids.take(got.len() as int)
        },
        status != 0 ==> filled_ids(status, ids, filled).len() == 0,
{
    if status == 0 && 4 * ids.len() <= filled {
        assert(ids.take(ids.len() as int) =~= ids);
    }
}

/// Each preset stands for the place of the list that its index names: it has the
/// number and, where there is one, the name that stand there. Presets come in the
/// order of their places, and none that is listed is left out.
pub proof fn presets_name_their_places(listed: Seq<Option<ListedPreset>>, i: int)
    requires
        0 <= i < listed.len() <= usize::MAX,
    ensures
        listed[i] matches Some((number, name)) ==> presets_of(listed).contains(
            PresetView {
                index: i as usize,
                name: match name {
                    Some(s) => s@,
                    None => "Preset "@ + text::signed_decimal(number as int),
                },
                preset_number: number,
            },
        ),
        forall|k: int|
            0 <= k < presets_of(listed).len() ==> {
                let p = #[trigger] presets_of(listed)[k];
                &&& p.index < listed.len()
                &&& listed[p.index as int] matches Some((number, _)) && number == p.preset_number
            },
        forall|k: int, l: int|
            0 <= k < l < presets_of(listed).len() ==> (#[trigger] presets_of(listed)[k]).index < (
            #[trigger] presets_of(listed)[l]).index,
    decreases listed.len(),
{
    let less = listed.drop_last();
    let before = presets_of(less);
    let all = presets_of(listed);
    if less.len() > 0 {
        presets_name_their_places(
            less,
            if i < less.len() {
                i
            } else {
                0
            },
        );
    }
    assert forall|k: int| 0 <= k < all.len() implies ({
        let p = #[trigger] all[k];
        &&& p.index < listed.len()
        &&& listed[p.index as int] matches Some((number, _)) && number == p.preset_number
    }) by {
        if k < before.len() {
            assert(all[k] == before[k]);
            assert(less[before[k].index as int] == listed[before[k].index as int]);
        }
    }
    assert forall|k: int, l: int| 0 <= k < l < all.len() implies (#[trigger] all[k]).index < (
    #[trigger] all[l]).index by {
        assert(all[k] == before[k]);
        if l < before.len() {
            assert(all[l] == before[l]);
        }
    }
    if let Some((number, name)) = listed[i] {
        let view = PresetView {
            index: i as usize,
            name: match name {
                Some(s) => s@,
                None => "Preset "@ + text::signed_decimal(number as int),
            },
            preset_number: number,
        };
        if i < less.len() {
            assert(less[i] == listed[i]);
            let k = choose|k: int| 0 <= k < before.len() && before[k] == view;
            assert(all[k] == view);
        } else {
            assert(all[before.len() as int] == view);
        }
    }
}

/// A list has room for one buffer at least, and each further one takes its own size.
pub proof fn buffer_lists_grow_by_buffers(buffers: nat, list_size: nat, buffer_size: nat)
    ensures
        buffer_list_size(0, list_size, buffer_size) == list_size,
        buffer_list_size(1, list_size, buffer_size) == list_size,
        buffers >= 1 ==> buffer_list_size(buffers + 1, list_size, buffer_size) == buffer_list_size(
            buffers,
            list_size,
            buffer_size,
        ) + buffer_size,
{
    assert(0 * buffer_size == 0);
    if buffers >= 1 {
        let n = (buffers - 1) as nat;
        assert((n + 1) * buffer_size == n * buffer_size + buffer_size) by (nonlinear_arith);
    }
}

/// Samples are packed numbers of 32 bits, one per frame and plane: a packet is one
/// frame, and a plane has as many bytes as its frames together.
pub proof fn planes_are_packed(a: nat, b: nat)
    requires
        4 * (a + b) <= u32::MAX,
    ensures
        ({
            let f = sample_format();
            &&& 8 * f.bytes_per_frame == f.bits_per_channel
            &&& f.bits_per_channel == 32
            &&& f.bytes_per_packet == f.frames_per_packet * f.bytes_per_frame
            &&& f.frames_per_packet == 1
            &&& f.channels == 2
            &&& plane_bytes_spec(1) == f.bytes_per_frame
        }),
        plane_bytes_spec(0) == 0,
        plane_bytes_spec(a + b) == plane_bytes_spec(a) + plane_bytes_spec(b),
{
}

/// The place of an action in opening the editor.
pub open spec fn open_stage(action: OpenAction) -> int {
    match action {
        OpenAction::Describe => 1,
        OpenAction::Read => 2,
        OpenAction::FindBundle => 3,
        OpenAction::FindClass => 4,
        OpenAction::MakeFactory => 5,
        OpenAction::RetainFactory => 6,
        OpenAction::FindMethod => 7,
        OpenAction::MakeView => 8,
        OpenAction::RetainView => 9,
        OpenAction::AddView => 10,
        OpenAction::Done => 11,
    }
}

/// The place in opening the editor of the action that an event reports on.
pub open spec fn open_reported(event: OpenEvent) -> int {
    match event {
        OpenEvent::Start { .. } => 0,
        OpenEvent::Described { .. } => 1,
        OpenEvent::Read(_) => 2,
        OpenEvent::Bundle(_) => 3,
        OpenEvent::ClassFound => 4,
        OpenEvent::ClassMissing(_) => 4,
        OpenEvent::FactoryMade(_) => 5,
        OpenEvent::FactoryRetained(_) => 6,
        OpenEvent::MethodFound(_) => 7,
        OpenEvent::ViewMade(_) => 8,
        OpenEvent::ViewRetained(_) => 9,
    }
}

/// Whether an event reports a success.
pub open spec fn open_succeeded(event: OpenEvent) -> bool {
    match event {
        OpenEvent::Start { is_ns_view, is_null } => is_ns_view && !is_null,
        OpenEvent::Described { status, size, least } => status == 0 && size >= least,
        OpenEvent::Read(status) => status == 0,
        OpenEvent::Bundle(ok) => ok,
        OpenEvent::ClassFound => true,
        OpenEvent::ClassMissing(_) => false,
        OpenEvent::FactoryMade(ok) => ok,
        OpenEvent::FactoryRetained(ok) => ok,
        OpenEvent::MethodFound(ok) => ok,
        OpenEvent::ViewMade(ok) => ok,
        OpenEvent::ViewRetained(ok) => ok,
    }
}

/// Opening the editor takes one step after the other, or none where it is open, and
/// goes wrong just where a step fails.
pub proof fn opening_takes_its_steps_in_order(has_view: bool, event: OpenEvent)
    ensures
        open_step_spec(has_view, event) is Ok <==> open_succeeded(event),
        open_step_spec(has_view, event) matches Ok(action) ==> open_stage(action) == (if has_view
            && event is Start {
            11
        } else {
            open_reported(event) + 1
        }),
{
}

/// A call that failed is reported with its status at the end, and as one.
pub proof fn failed_calls_are_reported_with_their_status(call: AuCall, status: i32)
    ensures
        text::ends_with_text(
            call_text(call) + text::signed_decimal(status as int),
            text::signed_decimal(status as int),
        ),
        text::ends_with_text(call_text(call), "OSStatus "@),
{
    text::texts_are_found_where_they_are(
        call_text(call),
        text::signed_decimal(status as int),
        Seq::empty(),
    );
    reveal_strlit("OSStatus ");
    reveal_strlit("kAudioUnitProperty_ParameterInfo failed: OSStatus ");
    reveal_strlit("AudioUnitGetParameter failed: OSStatus ");
    reveal_strlit("AudioUnitSetParameter failed: OSStatus ");
    reveal_strlit("AudioUnitSetProperty(PresentPreset) failed: OSStatus ");
    reveal_strlit("kAudioUnitProperty_ClassInfo failed: OSStatus ");
    reveal_strlit("AudioUnitSetProperty(ClassInfo) failed: OSStatus ");
    reveal_strlit("AudioUnitInitialize failed: OSStatus ");
    reveal_strlit("kAudioUnitProperty_CocoaUI get failed: OSStatus ");
    let t = call_text(call);
    assert(t.skip(t.len() - 9) =~= "OSStatus "@);
}

} // verus!
