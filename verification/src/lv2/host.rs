//! A loaded LV2 plugin: what the host keeps of it and decides about it.
//!
//! Calls into the plugin and into the LV2 library are made elsewhere. They are
//! told what to do next, and report back what happened.

use crate::bus::{BusLayout, LayoutView};
use crate::error::{Error, ErrorView};
use crate::events::{Event, EventList};
use crate::info::{PluginInfo, PluginInfoView};
use crate::lv2::atom::{
    self, build_midi_sequence, prep_midi_out, Endian, SequenceUrids, TimePosition, TimeUrids,
    EVENT_SIZE, SEQUENCE_SIZE, TIME_POSITION_MAX_BYTES,
};
use crate::lv2::drain::{self, drain_midi_out};
use crate::lv2::ports::{self, audio_layout, classify_ports, connections, Connection, PortFacts, PortTable};
use crate::lv2::position;
use crate::lv2::urid::{self, UridMap};
use crate::text;
use vstd::prelude::*;
use vstd::string::{StringExecFns, StringSliceAdditionalSpecFns};

verus! {

/// `midi:MidiEvent`.
pub const MIDI_EVENT_URI: &'static str = "http://lv2plug.in/ns/ext/midi#MidiEvent";

/// `atom:Sequence`.
pub const ATOM_SEQUENCE_URI: &'static str = "http://lv2plug.in/ns/ext/atom#Sequence";

/// `time:Position`.
pub const TIME_POSITION_URI: &'static str = "http://lv2plug.in/ns/ext/time#Position";

/// `time:frame`.
pub const TIME_FRAME_URI: &'static str = "http://lv2plug.in/ns/ext/time#frame";

/// `time:speed`.
pub const TIME_SPEED_URI: &'static str = "http://lv2plug.in/ns/ext/time#speed";

/// `time:bar`.
pub const TIME_BAR_URI: &'static str = "http://lv2plug.in/ns/ext/time#bar";

/// `time:barBeat`.
pub const TIME_BAR_BEAT_URI: &'static str = "http://lv2plug.in/ns/ext/time#barBeat";

/// `time:beatsPerBar`.
pub const TIME_BEATS_PER_BAR_URI: &'static str = "http://lv2plug.in/ns/ext/time#beatsPerBar";

/// `time:beatUnit`.
pub const TIME_BEAT_UNIT_URI: &'static str = "http://lv2plug.in/ns/ext/time#beatUnit";

/// `time:beatsPerMinute`.
pub const TIME_BPM_URI: &'static str = "http://lv2plug.in/ns/ext/time#beatsPerMinute";

/// `atom:Long`.
pub const ATOM_LONG_URI: &'static str = "http://lv2plug.in/ns/ext/atom#Long";

/// `atom:Float`.
pub const ATOM_FLOAT_URI: &'static str = "http://lv2plug.in/ns/ext/atom#Float";

/// `atom:Int`.
pub const ATOM_INT_URI: &'static str = "http://lv2plug.in/ns/ext/atom#Int";

/// `atom:Object`.
pub const ATOM_OBJECT_URI: &'static str = "http://lv2plug.in/ns/ext/atom#Object";

// ---------------------------------------------------------------------------
// Mapping the URIs that the host uses
// ---------------------------------------------------------------------------

/// The ids of `uris` in one map, in order.
fn map_all(map: &mut UridMap, uris: &[&str]) -> (ids: Vec<u32>)
    requires
        old(map).wf(),
        old(map)@.len() + uris@.len() < u32::MAX,
    ensures
        final(map).wf(),
        final(map)@.len() <= old(map)@.len() + uris@.len(),
        ids@.len() == uris@.len(),
        forall|i: int|
            0 <= i < uris@.len() ==> final(map)@.contains((#[trigger] uris@[i]).spec_bytes())
                && ids@[i] == urid::id_of(final(map)@, uris@[i].spec_bytes()),
{
    let mut ids: Vec<u32> = Vec::new();
    let mut i: usize = 0;
    while i < uris.len()
        invariant
            i <= uris.len(),
            map.wf(),
            map@.len() <= old(map)@.len() + i,
            old(map)@.len() + uris@.len() < u32::MAX,
            ids@.len() == i,
            forall|j: int|
                0 <= j < i ==> map@.contains((#[trigger] uris@[j]).spec_bytes()) && ids@[j]
                    == urid::id_of(map@, uris@[j].spec_bytes()),
        decreases uris.len() - i,
    {
        let ghost before = map@;
        let id: u32 = map.map_uri(uris[i].as_bytes());
        proof {
            let uri = uris@[i as int].spec_bytes();
            assert(map@.contains(uri)) by {
                if !before.contains(uri) {
                    assert(map@[before.len() as int] == uri);
                }
            }
            assert forall|j: int| 0 <= j < i implies map@.contains(
                (#[trigger] uris@[j]).spec_bytes(),
            ) && ids@[j] == urid::id_of(map@, uris@[j].spec_bytes()) by {
                let earlier = uris@[j].spec_bytes();
                urid::ids_are_stable(before, earlier, uri);
                let k = before.index_of(earlier);
                assert(map@[k] == earlier);
            }
        }
        ids.push(id);
        i += 1;
    }
    ids
}

/// Whether `sequence` and `time` are the ids of the URIs they stand for.
pub open spec fn urids_match(
    known: Seq<Seq<u8>>,
    sequence: SequenceUrids,
    time: TimeUrids,
) -> bool {
    &&& sequence.midi_event == urid::id_of(known, MIDI_EVENT_URI.spec_bytes())
    &&& sequence.sequence == urid::id_of(known, ATOM_SEQUENCE_URI.spec_bytes())
    &&& time.position == urid::id_of(known, TIME_POSITION_URI.spec_bytes())
    &&& time.frame == urid::id_of(known, TIME_FRAME_URI.spec_bytes())
    &&& time.speed == urid::id_of(known, TIME_SPEED_URI.spec_bytes())
    &&& time.bar == urid::id_of(known, TIME_BAR_URI.spec_bytes())
    &&& time.bar_beat == urid::id_of(known, TIME_BAR_BEAT_URI.spec_bytes())
    &&& time.beats_per_bar == urid::id_of(known, TIME_BEATS_PER_BAR_URI.spec_bytes())
    &&& time.beat_unit == urid::id_of(known, TIME_BEAT_UNIT_URI.spec_bytes())
    &&& time.bpm == urid::id_of(known, TIME_BPM_URI.spec_bytes())
    &&& time.atom_long == urid::id_of(known, ATOM_LONG_URI.spec_bytes())
    &&& time.atom_float == urid::id_of(known, ATOM_FLOAT_URI.spec_bytes())
    &&& time.atom_int == urid::id_of(known, ATOM_INT_URI.spec_bytes())
    &&& time.atom_object == urid::id_of(known, ATOM_OBJECT_URI.spec_bytes())
    &&& known.contains(MIDI_EVENT_URI.spec_bytes())
    &&& known.contains(ATOM_SEQUENCE_URI.spec_bytes())
    &&& known.contains(TIME_POSITION_URI.spec_bytes())
    &&& known.contains(TIME_FRAME_URI.spec_bytes())
    &&& known.contains(TIME_SPEED_URI.spec_bytes())
    &&& known.contains(TIME_BAR_URI.spec_bytes())
    &&& known.contains(TIME_BAR_BEAT_URI.spec_bytes())
    &&& known.contains(TIME_BEATS_PER_BAR_URI.spec_bytes())
    &&& known.contains(TIME_BEAT_UNIT_URI.spec_bytes())
    &&& known.contains(TIME_BPM_URI.spec_bytes())
    &&& known.contains(ATOM_LONG_URI.spec_bytes())
    &&& known.contains(ATOM_FLOAT_URI.spec_bytes())
    &&& known.contains(ATOM_INT_URI.spec_bytes())
    &&& known.contains(ATOM_OBJECT_URI.spec_bytes())
}

/// The map of a fresh plugin and the ids that the host uses of it.
fn map_host_uris() -> (mapped: (UridMap, SequenceUrids, TimeUrids))
    ensures
        mapped.0.wf(),
        mapped.0@.len() <= 14,
        urids_match(mapped.0@, mapped.1, mapped.2),
{
    let uris: [&str; 14] = [
        MIDI_EVENT_URI,
        ATOM_SEQUENCE_URI,
        TIME_POSITION_URI,
        TIME_FRAME_URI,
        TIME_SPEED_URI,
        TIME_BAR_URI,
        TIME_BAR_BEAT_URI,
        TIME_BEATS_PER_BAR_URI,
        TIME_BEAT_UNIT_URI,
        TIME_BPM_URI,
        ATOM_LONG_URI,
        ATOM_FLOAT_URI,
        ATOM_INT_URI,
        ATOM_OBJECT_URI,
    ];
    let mut map = UridMap::new();
    let ids = map_all(&mut map, uris.as_slice());
    assert(uris@[0] == MIDI_EVENT_URI && uris@[1] == ATOM_SEQUENCE_URI && uris@[2]
        == TIME_POSITION_URI && uris@[3] == TIME_FRAME_URI && uris@[4] == TIME_SPEED_URI
        && uris@[5] == TIME_BAR_URI && uris@[6] == TIME_BAR_BEAT_URI && uris@[7]
        == TIME_BEATS_PER_BAR_URI && uris@[8] == TIME_BEAT_UNIT_URI && uris@[9] == TIME_BPM_URI
        && uris@[10] == ATOM_LONG_URI && uris@[11] == ATOM_FLOAT_URI && uris@[12] == ATOM_INT_URI
        && uris@[13] == ATOM_OBJECT_URI);
    let sequence = SequenceUrids { midi_event: ids[0], sequence: ids[1] };
    let time = TimeUrids {
        position: ids[2],
        frame: ids[3],
        speed: ids[4],
        bar: ids[5],
        bar_beat: ids[6],
        beats_per_bar: ids[7],
        beat_unit: ids[8],
        bpm: ids[9],
        atom_long: ids[10],
        atom_float: ids[11],
        atom_int: ids[12],
        atom_object: ids[13],
    };
    (map, sequence, time)
}

/// The URIs of MIDI and of objects differ.
proof fn midi_is_no_object()
    ensures
        MIDI_EVENT_URI.spec_bytes() != ATOM_OBJECT_URI.spec_bytes(),
{
    reveal_strlit("http://lv2plug.in/ns/ext/midi#MidiEvent");
    reveal_strlit("http://lv2plug.in/ns/ext/atom#Object");
    vstd::string::is_ascii_spec_bytes(MIDI_EVENT_URI);
    vstd::string::is_ascii_spec_bytes(ATOM_OBJECT_URI);
    assert(MIDI_EVENT_URI.spec_bytes().len() != ATOM_OBJECT_URI.spec_bytes().len());
}

/// MIDI and objects have different ids in the map of a loaded plugin.
pub proof fn objects_are_no_midi(known: Seq<Seq<u8>>, sequence: SequenceUrids, time: TimeUrids)
    requires
        urids_match(known, sequence, time),
    ensures
        time.atom_object != sequence.midi_event,
{
    midi_is_no_object();
    urid::ids_are_distinct(known, MIDI_EVENT_URI.spec_bytes(), ATOM_OBJECT_URI.spec_bytes());
}

// ---------------------------------------------------------------------------
// Loading
// ---------------------------------------------------------------------------

/// Steps of loading, each done outside and reported back.
#[derive(Clone, Copy, Debug, PartialEq, Eq, Structural)]
pub enum LoadStep {
    /// Open a world and read every bundle into it.
    OpenWorld,
    /// Make a node of the plugin's URI.
    MakeUriNode,
    /// Look the plugin up by that node.
    FindPlugin,
    /// Read the plugin's ports and user interfaces.
    Describe,
}

/// What follows a step: the next one, or the error that ends loading.
pub open spec fn load_step_spec(
    info: PluginInfoView,
    done: LoadStep,
    ok: bool,
) -> Result<Option<LoadStep>, ErrorView> {
    let failed = |reason: Seq<char>| ErrorView::LoadFailed { path: info.path, reason };
    match done {
        LoadStep::OpenWorld => if !ok {
            Err(failed("lilv_world_new returned NULL"@))
        } else if info.unique_id.contains('\0') {
            Err(ErrorView::PluginNotFound(info.unique_id))
        } else {
            Ok(Some(LoadStep::MakeUriNode))
        },
        LoadStep::MakeUriNode => if !ok {
            Err(failed("lilv_new_uri failed for "@ + text::quoted(info.unique_id)))
        } else {
            Ok(Some(LoadStep::FindPlugin))
        },
        LoadStep::FindPlugin => if !ok {
            Err(ErrorView::PluginNotFound(info.unique_id))
        } else {
            Ok(Some(LoadStep::Describe))
        },
        LoadStep::Describe => Ok(None),
    }
}

/// Decides what follows the load step `done`, which succeeded or failed.
pub fn load_step(info: &PluginInfo, done: LoadStep, ok: bool) -> (next: Result<
    Option<LoadStep>,
    Error,
>)
    ensures
        match next {
            Ok(step) => load_step_spec(info@, done, ok) == Ok::<Option<LoadStep>, ErrorView>(step),
            Err(e) => load_step_spec(info@, done, ok) == Err::<Option<LoadStep>, ErrorView>(e@),
        },
{
    let id = info.unique_id.as_str();
    match done {
        LoadStep::OpenWorld => {
            if !ok {
                Err(Error::load_failed(info.path.as_str(), "lilv_world_new returned NULL"))
            } else if text::has_char(id, '\0') {
                Err(Error::plugin_not_found(id))
            } else {
                Ok(Some(LoadStep::MakeUriNode))
            }
        },
        LoadStep::MakeUriNode => {
            if !ok {
                let mut reason = String::from_str("lilv_new_uri failed for ");
                reason.append(text::quote(id).as_str());
                Err(Error::load_failed(info.path.as_str(), reason.as_str()))
            } else {
                Ok(Some(LoadStep::FindPlugin))
            }
        },
        LoadStep::FindPlugin => {
            if !ok {
                Err(Error::plugin_not_found(id))
            } else {
                Ok(Some(LoadStep::Describe))
            }
        },
        LoadStep::Describe => Ok(None),
    }
}

/// Loading a plugin whose id holds no NUL takes the four steps in order where
/// each succeeds.
pub proof fn loading_takes_its_steps_in_order(info: PluginInfoView)
    requires
        !info.unique_id.contains('\0'),
    ensures
        load_step_spec(info, LoadStep::OpenWorld, true) == Ok::<_, ErrorView>(
            Some(LoadStep::MakeUriNode),
        ),
        load_step_spec(info, LoadStep::MakeUriNode, true) == Ok::<_, ErrorView>(
            Some(LoadStep::FindPlugin),
        ),
        load_step_spec(info, LoadStep::FindPlugin, true) == Ok::<_, ErrorView>(
            Some(LoadStep::Describe),
        ),
        load_step_spec(info, LoadStep::Describe, true) == Ok::<_, ErrorView>(
            None::<LoadStep>,
        ),
{
}

/// A user interface that a plugin's description lists.
pub struct UiCandidate {
    /// Whether its class is the platform's native one.
    pub is_native: bool,
    /// Its URI.
    pub uri: String,
    /// The directory of its bundle, where that is a file.
    pub bundle_path: Option<String>,
    /// Its binary, where that is a file.
    pub binary_path: Option<String>,
}

impl UiCandidate {
    /// Whether the host can show this user interface.
    pub open spec fn usable(&self) -> bool {
        self.is_native && !self.uri@.contains('\0') && self.bundle_path is Some
            && self.binary_path is Some
    }
}

/// Whether the plugin lists a user interface of the platform's native class.
#[must_use]
pub fn has_native_ui(candidates: &[UiCandidate]) -> (found: bool)
    ensures
        found == exists|i: int| 0 <= i < candidates@.len() && (#[trigger] candidates@[i]).is_native,
{
    let mut i: usize = 0;
    while i < candidates.len()
        invariant
            i <= candidates.len(),
            forall|j: int| 0 <= j < i ==> !(#[trigger] candidates@[j]).is_native,
        decreases candidates.len() - i,
    {
        if candidates[i].is_native {
            return true;
        }
        i += 1;
    }
    false
}

/// Picks the first user interface that the host can show.
#[must_use]
pub fn discover_ui(candidates: &[UiCandidate]) -> (chosen: Option<usize>)
    ensures
        match chosen {
            Some(i) => i < candidates@.len() && candidates@[i as int].usable() && forall|j: int|
                0 <= j < i ==> !(#[trigger] candidates@[j]).usable(),
            None => forall|j: int|
                0 <= j < candidates@.len() ==> !(#[trigger] candidates@[j]).usable(),
        },
{
    let mut i: usize = 0;
    while i < candidates.len()
        invariant
            i <= candidates.len(),
            forall|j: int| 0 <= j < i ==> !(#[trigger] candidates@[j]).usable(),
        decreases candidates.len() - i,
    {
        let c = &candidates[i];
        if c.is_native && !text::has_char(c.uri.as_str(), '\0') && c.bundle_path.is_some()
            && c.binary_path.is_some() {
            return Some(i);
        }
        i += 1;
    }
    None
}

/// The chosen user interface.
pub struct UiBundle {
    /// Its URI.
    pub ui_uri: String,
    /// The directory of its bundle.
    pub bundle_path: String,
    /// Its binary.
    pub binary_path: String,
}

/// A user interface that is open.
pub struct EditorState {
    /// Whether it wants to be called when the host is idle.
    pub has_idle: bool,
    /// Whether it can be resized.
    pub has_resize: bool,
    /// The control values it was last told.
    pub snapshot: Vec<u32>,
}

/// One loaded LV2 plugin.
pub struct Lv2Plugin {
    /// Its catalog entry.
    pub info: PluginInfo,
    /// The one layout it supports.
    pub layout: BusLayout,
    /// The layout it is active with.
    pub active_layout: Option<BusLayout>,
    /// Whether it is instantiated.
    pub has_instance: bool,
    /// Its ports.
    pub table: PortTable,
    /// The URIs that it and its user interface have mapped.
    pub map: UridMap,
    /// Types of sequence atoms.
    pub sequence_urids: SequenceUrids,
    /// Types and keys of transport objects.
    pub time_urids: TimeUrids,
    /// Byte order of the machine.
    pub endian: Endian,
    /// The sequence that carries MIDI to the plugin.
    pub midi_in: Vec<u8>,
    /// The sequence that carries MIDI from the plugin.
    pub midi_out: Vec<u8>,
    /// Its user interface, where the host can show one.
    pub ui: Option<UiBundle>,
    /// The open user interface.
    pub editor: Option<EditorState>,
}

impl Lv2Plugin {
    /// What holds of every loaded plugin.
    pub open spec fn wf(&self) -> bool {
        &&& self.map.wf()
        &&& urids_match(self.map@, self.sequence_urids, self.time_urids)
        &&& self.table.control_offsets@.len() == self.table.ports@.len()
        &&& self.table.ports@.len() <= u32::MAX
        &&& self.editor matches Some(editor) ==> editor.snapshot@.len()
            == self.table.control_values@.len()
        &&& self.info.has_editor == self.ui is Some
    }

    /// A plugin as it stands once `facts` describe its ports and `ui` is the
    /// user interface chosen for it.
    pub fn load_from(
        info: &PluginInfo,
        facts: &[PortFacts],
        ui: Option<UiBundle>,
        endian: Endian,
    ) -> (plugin: Lv2Plugin)
        requires
            facts@.len() <= u32::MAX,
        ensures
            plugin.wf(),
            plugin.info@ == (PluginInfoView { has_editor: ui is Some, ..info@ }),
            plugin.layout@ == (LayoutView {
                inputs: ports::main_buses("Input"@, ports::audio_inputs(facts@)),
                outputs: ports::main_buses("Output"@, ports::audio_outputs(facts@)),
            }),
            plugin.active_layout is None,
            !plugin.has_instance,
            plugin.table.describes(facts@),
            plugin.endian == endian,
            plugin.midi_in@.len() == 0,
            plugin.midi_out@.len() == 0,
            plugin.ui == ui,
            plugin.editor is None,
    {
        let table = classify_ports(facts);
        let (map, sequence_urids, time_urids) = map_host_uris();
        let layout = audio_layout(table.audio_in, table.audio_out);
        let mut info = info.clone();
        info.has_editor = ui.is_some();
        Lv2Plugin {
            info,
            layout,
            active_layout: None,
            has_instance: false,
            table,
            map,
            sequence_urids,
            time_urids,
            endian,
            midi_in: Vec::new(),
            midi_out: Vec::new(),
            ui,
            editor: None,
        }
    }
}

// ---------------------------------------------------------------------------
// Activation and processing
// ---------------------------------------------------------------------------

/// What activation does to the plugin's instance before anything else.
#[derive(Clone, Copy, Debug, PartialEq, Eq, Structural)]
pub struct InstancePlan {
    /// Deactivate and free the instance there is.
    pub free: bool,
    /// Make a new one.
    pub instantiate: bool,
}

/// What activation does to the instance, where there is one or not and the sample rate
/// changed or not.
pub open spec fn instance_plan(has_instance: bool, rate_changed: bool) -> InstancePlan {
    InstancePlan {
        free: has_instance && rate_changed,
        instantiate: !has_instance || rate_changed,
    }
}

/// The size of a sequence buffer for blocks of up to `max_block_size` frames:
/// the header, a transport position and one message per frame.
pub open spec fn sequence_capacity(max_block_size: nat) -> nat {
    SEQUENCE_SIZE as nat + TIME_POSITION_MAX_BYTES as nat + max_block_size * (EVENT_SIZE as nat + 8)
}

/// `buf` at the given length: cut off, or filled up with zeros.
pub open spec fn resized(buf: Seq<u8>, len: nat) -> Seq<u8> {
    Seq::new(
        len,
        |i: int|
            if i < buf.len() {
                buf[i]
            } else {
                0
            },
    )
}

impl Lv2Plugin {
    /// Whether `self` and `other` are loaded from the same plugin: what loading
    /// fixed is the same.
    pub open spec fn same_load(&self, other: &Lv2Plugin) -> bool {
        &&& self.info == other.info
        &&& self.layout == other.layout
        &&& self.table == other.table
        &&& self.map == other.map
        &&& self.sequence_urids == other.sequence_urids
        &&& self.time_urids == other.time_urids
        &&& self.endian == other.endian
        &&& self.ui == other.ui
    }

    /// Whether the plugin is active.
    #[must_use]
    pub fn is_active(&self) -> (active: bool)
        ensures
            active == self.active_layout is Some,
    {
        self.active_layout.is_some()
    }

    /// Decides what activation does to the instance. LV2 fixes the sample rate
    /// when a plugin is instantiated, so another rate takes another instance.
    pub fn begin_activate(&mut self, rate_changed: bool) -> (plan: InstancePlan)
        requires
            old(self).wf(),
        ensures
            plan == instance_plan(old(self).has_instance, rate_changed),
            *final(self) == (Lv2Plugin {
                has_instance: old(self).has_instance && !rate_changed,
                ..*old(self)
            }),
            final(self).wf(),
    {
        let free: bool = self.has_instance && rate_changed;
        let instantiate: bool = !self.has_instance || rate_changed;
        if free {
            self.has_instance = false;
        }
        InstancePlan { free, instantiate }
    }

    /// Completes activation. `instantiated` tells whether instantiation gave an
    /// instance, where it was needed.
    pub fn finish_activate(
        &mut self,
        instantiated: Option<bool>,
        layout: BusLayout,
        max_block_size: usize,
    ) -> (result: Result<(), Error>)
        requires
            old(self).wf(),
            sequence_capacity(max_block_size as nat) <= usize::MAX,
        ensures
            final(self).wf(),
            final(self).same_load(old(self)),
            final(self).editor == old(self).editor,
            match result {
                Err(e) => instantiated == Some(false) && e@ == ErrorView::Other(
                    "lilv_plugin_instantiate returned NULL"@,
                ) && *final(self) == *old(self),
                Ok(_) => {
                    &&& instantiated != Some(false)
                    &&& final(self).has_instance == (instantiated is Some || old(
                        self,
                    ).has_instance)
                    &&& final(self).active_layout == Some(layout)
                    &&& final(self).midi_in@ == resized(
                        old(self).midi_in@,
                        sequence_capacity(max_block_size as nat),
                    )
                    &&& final(self).midi_out@ == resized(
                        old(self).midi_out@,
                        sequence_capacity(max_block_size as nat),
                    )
                },
            },
    {
        match instantiated {
            Some(false) => {
                return Err(Error::other("lilv_plugin_instantiate returned NULL"));
            },
            Some(true) => {
                self.has_instance = true;
            },
            None => {},
        }
        let slot: usize = EVENT_SIZE + 8;
        assert(max_block_size * slot == max_block_size * 24);
        let cap: usize = SEQUENCE_SIZE + TIME_POSITION_MAX_BYTES + max_block_size * slot;
        self.midi_in.resize(cap, 0);
        self.midi_out.resize(cap, 0);
        assert(self.midi_in@ =~= resized(old(self).midi_in@, cap as nat));
        assert(self.midi_out@ =~= resized(old(self).midi_out@, cap as nat));
        self.active_layout = Some(layout);
        Ok(())
    }

    /// Makes the plugin inactive and tells whether its instance is to be
    /// deactivated.
    pub fn deactivate(&mut self) -> (call: bool)
        requires
            old(self).wf(),
        ensures
            call == old(self).has_instance,
            *final(self) == (Lv2Plugin { active_layout: None, ..*old(self) }),
            final(self).wf(),
    {
        self.active_layout = None;
        self.has_instance
    }

    /// Prepares one block: fills the sequence for the plugin, empties the one
    /// from it and `output`, and decides what each port is connected to.
    pub fn begin_block(
        &mut self,
        events: &EventList,
        position: Option<TimePosition>,
        ins: usize,
        outs: usize,
        output: &mut EventList,
    ) -> (result: Result<Vec<Connection>, Error>)
        requires
            old(self).wf(),
        ensures
            final(self).wf(),
            match result {
                Err(e) => old(self).active_layout is None && e@ == ErrorView::NotActivated
                    && *final(self) == *old(self) && final(output)@ == old(output)@,
                Ok(all) => {
                    &&& old(self).active_layout is Some
                    &&& final(output)@ == Seq::<Event>::empty()
                    &&& final(self).same_load(old(self))
                    &&& final(self).active_layout == old(self).active_layout
                    &&& final(self).has_instance == old(self).has_instance
                    &&& final(self).editor == old(self).editor
                    &&& final(self).midi_in@ == atom::with_sequence(
                        old(self).endian,
                        old(self).sequence_urids,
                        old(self).time_urids,
                        old(self).midi_in@,
                        events@,
                        position,
                    )
                    &&& final(self).midi_out@ == (if old(self).midi_out@.len() < SEQUENCE_SIZE {
                        old(self).midi_out@
                    } else {
                        atom::overlay(
                            old(self).midi_out@,
                            0,
                            atom::sequence_header(
                                old(self).endian,
                                8,
                                old(self).sequence_urids.sequence,
                            ),
                        )
                    })
                    &&& all@.len() == old(self).table.ports@.len()
                    &&& forall|i: int|
                        0 <= i < all@.len() ==> #[trigger] all@[i] == ports::connection(
                            old(self).table,
                            ins as nat,
                            outs as nat,
                            i,
                        )
                },
            },
    {
        if !self.is_active() {
            return Err(Error::NotActivated);
        }
        output.clear();
        build_midi_sequence(
            &self.sequence_urids,
            &self.time_urids,
            self.endian,
            &mut self.midi_in,
            events,
            position,
        );
        prep_midi_out(&self.sequence_urids, self.endian, &mut self.midi_out);
        Ok(connections(&self.table, ins, outs))
    }

    /// Appends to `out` the MIDI that the plugin wrote during a block.
    pub fn end_block(&self, out: &mut EventList)
        ensures
            final(out)@ == old(out)@ + drain::sequence_events(
                self.endian,
                self.sequence_urids.midi_event,
                self.midi_out@,
            ),
    {
        drain_midi_out(&self.sequence_urids, self.endian, &self.midi_out, out);
    }
}

/// The number of frames to run, as LV2 counts them.
pub open spec fn frames_to_run(frames: nat) -> int {
    if frames <= u32::MAX {
        frames as int
    } else {
        u32::MAX as int
    }
}

/// The number of frames to run, as LV2 counts them.
#[must_use]
pub fn run_frames(frames: usize) -> (n: u32)
    ensures
        n == frames_to_run(frames as nat),
{
    if frames as u64 <= u32::MAX as u64 {
        frames as u32
    } else {
        u32::MAX
    }
}

/// A plugin that copies its input sequence to its output gives back the
/// messages of the block, where the buffer has room for them.
pub proof fn block_round_trip(
    plugin: Lv2Plugin,
    events: Seq<crate::events::Event>,
    position: Option<TimePosition>,
)
    requires
        plugin.wf(),
        SEQUENCE_SIZE + TIME_POSITION_MAX_BYTES + drain::room_for(events) <= plugin.midi_in@.len()
            < 0x1_0000_0000,
    ensures
        drain::sequence_events(
            plugin.endian,
            plugin.sequence_urids.midi_event,
            atom::with_sequence(
                plugin.endian,
                plugin.sequence_urids,
                plugin.time_urids,
                plugin.midi_in@,
                events,
                position,
            ),
        ) == drain::messages(events),
{
    objects_are_no_midi(plugin.map@, plugin.sequence_urids, plugin.time_urids);
    drain::sequence_reads_back(
        plugin.endian,
        plugin.sequence_urids,
        plugin.time_urids,
        plugin.midi_in@,
        events,
        position,
    );
}

/// The buffers of an activated plugin have room for one message per frame
/// behind the transport position.
pub proof fn activated_buffers_have_room(events: Seq<crate::events::Event>, max_block_size: nat)
    requires
        events.len() <= max_block_size,
    ensures
        SEQUENCE_SIZE + TIME_POSITION_MAX_BYTES + drain::room_for(events) <= sequence_capacity(
            max_block_size,
        ),
{
    room_is_bounded(events);
    assert(events.len() * 24 <= max_block_size * 24);
    assert(max_block_size * (EVENT_SIZE as nat + 8) == max_block_size * 24);
}

/// A message takes up at most 24 bytes.
proof fn room_is_bounded(events: Seq<crate::events::Event>)
    ensures
        drain::room_for(events) <= events.len() * 24,
    decreases events.len(),
{
    if events.len() > 0 {
        room_is_bounded(events.skip(1));
    }
}

// ---------------------------------------------------------------------------
// What ids and steps mean
// ---------------------------------------------------------------------------

/// The bytes of two ASCII URIs differ where the URIs do.
proof fn bytes_differ(a: &str, b: &str)
    requires
        a@ != b@,
        a.is_ascii(),
        b.is_ascii(),
    ensures
        a.spec_bytes() != b.spec_bytes(),
{
    vstd::string::is_ascii_spec_bytes(a);
    vstd::string::is_ascii_spec_bytes(b);
    if a.spec_bytes() == b.spec_bytes() {
        assert(a@ =~= b@) by {
            assert(a@.len() == a.spec_bytes().len());
            assert forall|i: int| 0 <= i < a@.len() implies a@[i] == b@[i] by {
                assert(a.spec_bytes()[i] == a@[i] as u8);
                assert(b.spec_bytes()[i] == b@[i] as u8);
            }
        }
    }
}

/// The keys of transport objects have different ids in the map of a loaded plugin, so
/// that each of them can be read back.
pub proof fn transport_keys_differ(known: Seq<Seq<u8>>, sequence: SequenceUrids, time: TimeUrids)
    requires
        urids_match(known, sequence, time),
    ensures
        position::keys_differ(time),
{
    reveal_strlit("http://lv2plug.in/ns/ext/time#frame");
    reveal_strlit("http://lv2plug.in/ns/ext/time#speed");
    reveal_strlit("http://lv2plug.in/ns/ext/time#bar");
    reveal_strlit("http://lv2plug.in/ns/ext/time#barBeat");
    reveal_strlit("http://lv2plug.in/ns/ext/time#beatsPerBar");
    reveal_strlit("http://lv2plug.in/ns/ext/time#beatUnit");
    reveal_strlit("http://lv2plug.in/ns/ext/time#beatsPerMinute");
    vstd::string::is_ascii_spec_bytes(TIME_FRAME_URI);
    vstd::string::is_ascii_spec_bytes(TIME_SPEED_URI);
    vstd::string::is_ascii_spec_bytes(TIME_BAR_URI);
    vstd::string::is_ascii_spec_bytes(TIME_BAR_BEAT_URI);
    vstd::string::is_ascii_spec_bytes(TIME_BEATS_PER_BAR_URI);
    vstd::string::is_ascii_spec_bytes(TIME_BEAT_UNIT_URI);
    vstd::string::is_ascii_spec_bytes(TIME_BPM_URI);
    assert(TIME_FRAME_URI@[30] == 'f' && TIME_SPEED_URI@[30] == 's');
    bytes_differ(TIME_FRAME_URI, TIME_SPEED_URI);
    let all = seq![
        TIME_FRAME_URI.spec_bytes(),
        TIME_SPEED_URI.spec_bytes(),
        TIME_BAR_URI.spec_bytes(),
        TIME_BAR_BEAT_URI.spec_bytes(),
        TIME_BEATS_PER_BAR_URI.spec_bytes(),
        TIME_BEAT_UNIT_URI.spec_bytes(),
        TIME_BPM_URI.spec_bytes(),
    ];
    let ids = seq![
        time.frame,
        time.speed,
        time.bar,
        time.bar_beat,
        time.beats_per_bar,
        time.beat_unit,
        time.bpm,
    ];
    assert(all[0].len() == 35 && all[1].len() == 35 && all[2].len() == 33 && all[3].len() == 37
        && all[4].len() == 41 && all[5].len() == 38 && all[6].len() == 44);
    assert forall|i: int, j: int| 0 <= i < j < 7 implies #[trigger] ids[i] != #[trigger] ids[j] by {
        assert(all[i] != all[j]);
        assert(known.contains(all[i]) && known.contains(all[j]));
        urid::ids_are_distinct(known, all[i], all[j]);
        assert(ids[i] == urid::id_of(known, all[i]) && ids[j] == urid::id_of(known, all[j]));
    }
    assert(ids[0] != ids[1] && ids[0] != ids[2] && ids[0] != ids[3] && ids[0] != ids[4] && ids[0]
        != ids[5] && ids[0] != ids[6]);
    assert(ids[1] != ids[2] && ids[1] != ids[3] && ids[1] != ids[4] && ids[1] != ids[5] && ids[1]
        != ids[6]);
    assert(ids[2] != ids[3] && ids[2] != ids[4] && ids[2] != ids[5] && ids[2] != ids[6]);
    assert(ids[3] != ids[4] && ids[3] != ids[5] && ids[3] != ids[6]);
    assert(ids[4] != ids[5] && ids[4] != ids[6] && ids[5] != ids[6]);
}

/// Each id stands for the LV2 name of what it is used for.
pub proof fn ids_stand_for_lv2_names(known: Seq<Seq<u8>>, sequence: SequenceUrids, time: TimeUrids)
    requires
        urids_match(known, sequence, time),
    ensures
        ({
            let id = |uri: &str| urid::id_of(known, uri.spec_bytes());
            &&& sequence.midi_event == id("http://lv2plug.in/ns/ext/midi#MidiEvent")
            &&& sequence.sequence == id("http://lv2plug.in/ns/ext/atom#Sequence")
            &&& time.position == id("http://lv2plug.in/ns/ext/time#Position")
            &&& time.frame == id("http://lv2plug.in/ns/ext/time#frame")
            &&& time.speed == id("http://lv2plug.in/ns/ext/time#speed")
            &&& time.bar == id("http://lv2plug.in/ns/ext/time#bar")
            &&& time.bar_beat == id("http://lv2plug.in/ns/ext/time#barBeat")
            &&& time.beats_per_bar == id("http://lv2plug.in/ns/ext/time#beatsPerBar")
            &&& time.beat_unit == id("http://lv2plug.in/ns/ext/time#beatUnit")
            &&& time.bpm == id("http://lv2plug.in/ns/ext/time#beatsPerMinute")
            &&& time.atom_long == id("http://lv2plug.in/ns/ext/atom#Long")
            &&& time.atom_float == id("http://lv2plug.in/ns/ext/atom#Float")
            &&& time.atom_int == id("http://lv2plug.in/ns/ext/atom#Int")
            &&& time.atom_object == id("http://lv2plug.in/ns/ext/atom#Object")
        }),
{
}

/// A block's sequence states the position that the host reports, to a plugin that
/// reads it by the ids that it has mapped.
pub proof fn blocks_state_their_position(
    plugin: Lv2Plugin,
    events: Seq<crate::events::Event>,
    t: TimePosition,
)
    requires
        plugin.wf(),
        SEQUENCE_SIZE + TIME_POSITION_MAX_BYTES <= plugin.midi_in@.len() < 0x1_0000_0000,
    ensures
        position::states_position(
            plugin.endian,
            atom::with_sequence(
                plugin.endian,
                plugin.sequence_urids,
                plugin.time_urids,
                plugin.midi_in@,
                events,
                Some(t),
            ),
            SEQUENCE_SIZE as nat,
            plugin.time_urids,
            t,
        ),
{
    transport_keys_differ(plugin.map@, plugin.sequence_urids, plugin.time_urids);
    position::sequence_states_its_position(
        plugin.endian,
        plugin.sequence_urids,
        plugin.time_urids,
        plugin.midi_in@,
        events,
        t,
    );
}

/// A step that fails ends loading. An id that no plugin can have, or that none has, is
/// reported as one that was not found; everything else with the plugin's path.
pub proof fn failed_steps_end_loading(info: PluginInfoView, done: LoadStep)
    ensures
        done != LoadStep::Describe ==> load_step_spec(info, done, false) is Err,
        load_step_spec(info, LoadStep::FindPlugin, false) == Err::<Option<LoadStep>, ErrorView>(
            ErrorView::PluginNotFound(info.unique_id),
        ),
        info.unique_id.contains('\0') ==> load_step_spec(info, LoadStep::OpenWorld, true) == Err::<
            Option<LoadStep>,
            ErrorView,
        >(ErrorView::PluginNotFound(info.unique_id)),
        load_step_spec(info, LoadStep::OpenWorld, false) matches Err(
            ErrorView::LoadFailed { path, .. },
        ) && path == info.path,
        load_step_spec(info, LoadStep::MakeUriNode, false) matches Err(
            ErrorView::LoadFailed { path, .. },
        ) && path == info.path,
{
}

/// Activation leaves one instance, made for the sample rate that applies: the one
/// there was, unless the rate changed, or a new one. Only one that is there is freed.
pub proof fn there_is_one_instance(has_instance: bool, rate_changed: bool)
    ensures
        ({
            let plan = instance_plan(has_instance, rate_changed);
            let kept = has_instance && !plan.free;
            &&& plan.instantiate == !kept
            &&& plan.free ==> has_instance
            &&& kept ==> !rate_changed
            &&& has_instance && !rate_changed ==> kept
        }),
{
}

/// A buffer keeps what it held as far as it reaches, and is silent behind that.
pub proof fn resizing_keeps_what_was_there(buf: Seq<u8>, len: nat)
    ensures
        resized(buf, len).len() == len,
        len <= buf.len() ==> resized(buf, len) == buf.take(len as int),
        len >= buf.len() ==> resized(buf, len).take(buf.len() as int) == buf && forall|i: int|
            buf.len() <= i < len ==> #[trigger] resized(buf, len)[i] == 0,
{
    if len <= buf.len() {
        assert(resized(buf, len) =~= buf.take(len as int));
    } else {
        assert(resized(buf, len).take(buf.len() as int) =~= buf);
    }
}

/// As many frames are run as the block has, as far as LV2 can count.
pub proof fn every_frame_is_run(frames: nat)
    ensures
        frames < 0x1_0000_0000 ==> frames_to_run(frames) == frames,
        0 <= frames_to_run(frames) < 0x1_0000_0000,
        frames_to_run(frames) <= frames,
        frames_to_run(frames) <= frames_to_run(frames + 1),
{
}

/// A user interface can be shown just where it is of the platform's class, its URI can
/// be handed to it, and both its directory and its binary are files.
pub proof fn usable_interfaces_are_complete(ui: UiCandidate)
    ensures
        !ui.is_native ==> !ui.usable(),
        ui.uri@.contains('\0') ==> !ui.usable(),
        ui.bundle_path is None ==> !ui.usable(),
        ui.binary_path is None ==> !ui.usable(),
        ui.is_native && !ui.uri@.contains('\0') && ui.bundle_path is Some && ui.binary_path is Some
            ==> ui.usable(),
{
}

} // verus!
