use truce_rack::bus::BusLayout;
use truce_rack::clap::catalog::{
    bundle_binary_path, c_buf_to_string, categorize, default_clap_paths, descriptor_to_info,
    is_clap_file_name, parameter_flags, parse_version, step_count, ClapScanner, Descriptor,
    Platform, SearchBase, CLAP_PARAM_IS_AUTOMATABLE, CLAP_PARAM_IS_BYPASS, CLAP_PARAM_IS_ENUM,
    CLAP_PARAM_IS_HIDDEN, CLAP_PARAM_IS_READONLY, CLAP_PARAM_IS_STEPPED,
};
use truce_rack::clap::events::{
    clap_event_to_rack, output_kind, try_push, ClapEvent, ConvertedInputEvents, OutputKind,
    CLAP_CORE_EVENT_SPACE_ID, CLAP_EVENT_MIDI, CLAP_EVENT_NOTE_OFF, CLAP_EVENT_NOTE_ON,
    CLAP_EVENT_PARAM_VALUE,
};
use truce_rack::clap::host::{
    advance, block_counts, load_step, map_clap_status, saturate_u32, transport_header, ClapPlugin,
    LoadAction, LoadEvent, LoadFailure, OpenAction, OpenEvent, TransportFacts,
    CLAP_PROCESS_CONTINUE, CLAP_PROCESS_CONTINUE_IF_NOT_QUIET, CLAP_PROCESS_ERROR,
    CLAP_PROCESS_SLEEP, CLAP_PROCESS_TAIL,
};
use truce_rack::clap::stream::{ReadCursor, WriteBuffer};
use truce_rack::events::{Event, EventBody, EventList, MidiData, TransportFlag};
use truce_rack::info::{PluginCategory, PluginInfo, AUTOMATABLE, BYPASS, ENUMERATED, READ_ONLY};
use truce_rack::plugin::ProcessStatus;

// -- catalog ----------------------------------------------------------------

#[test]
fn parse_version_components() {
    assert_eq!(parse_version("1.2.3"), (1u32 << 16) | (2u32 << 8) | 3u32);
    assert_eq!(parse_version("0.5"), 5u32 << 8);
    assert_eq!(parse_version(""), 0);
}

#[test]
fn bundle_binary_macos() {
    // No directory yet, so the path itself comes back.
    assert_eq!(
        bundle_binary_path("/tmp/MyPlugin.clap", "MyPlugin", false, Platform::MacOs),
        "/tmp/MyPlugin.clap"
    );
}

#[test]
fn bundles_hold_a_binary() {
    assert_eq!(
        bundle_binary_path("/tmp/MyPlugin.clap", "MyPlugin", true, Platform::MacOs),
        "/tmp/MyPlugin.clap/Contents/MacOS/MyPlugin"
    );
    assert_eq!(
        bundle_binary_path("/tmp/MyPlugin.clap/", "MyPlugin", true, Platform::MacOs),
        "/tmp/MyPlugin.clap/Contents/MacOS/MyPlugin"
    );
    assert_eq!(
        bundle_binary_path("/tmp/MyPlugin.clap", "MyPlugin", true, Platform::Linux),
        "/tmp/MyPlugin.clap"
    );
}

#[test]
fn odd_versions_are_read_as_far_as_they_go() {
    assert_eq!(parse_version("300.1"), (300 << 16) + 256);
    assert_eq!(parse_version("1.256"), 65536);
    assert_eq!(parse_version("x.1"), 256);
    assert_eq!(parse_version("1.2.3.4"), parse_version("1.2.3"));
    assert_eq!(parse_version("99999999999.0.1"), 1);
}

#[test]
fn plugins_are_searched_and_recognized() {
    assert_eq!(ClapScanner::new(), ClapScanner);
    let dirs = default_clap_paths(Platform::Linux, true, false);
    assert_eq!(dirs.len(), 2);
    assert_eq!((dirs[0].base, dirs[0].path), (SearchBase::Home, ".clap"));
    assert_eq!((dirs[1].base, dirs[1].path), (SearchBase::Root, "/usr/lib/clap"));
    assert_eq!(default_clap_paths(Platform::Linux, false, false).len(), 1);
    assert_eq!(default_clap_paths(Platform::Windows, false, true).len(), 1);
    assert_eq!(default_clap_paths(Platform::Other, true, true).len(), 1);
    assert!(default_clap_paths(Platform::Other, false, true).is_empty());
    assert!(is_clap_file_name("a.clap"));
    assert!(!is_clap_file_name("a.clap2"));
}

#[test]
fn features_tell_the_category() {
    let told = |features: &[&str]| {
        categorize(&features.iter().map(|s| s.to_string()).collect::<Vec<String>>())
    };
    assert_eq!(told(&["audio-effect", "instrument"]), (PluginCategory::Instrument, false));
    assert_eq!(told(&["note-input"]), (PluginCategory::Effect, true));
    assert_eq!(told(&["note-effect"]), (PluginCategory::NoteEffect, true));
    assert_eq!(told(&["analyzer"]), (PluginCategory::Analyzer, false));
    assert_eq!(told(&["stereo"]), (PluginCategory::Effect, false));
}

fn info() -> PluginInfo {
    let desc = Descriptor {
        id: "com.acme.synth".to_string(),
        name: "Synth".to_string(),
        vendor: "Acme".to_string(),
        version: "1.0.2".to_string(),
        features: vec!["instrument".to_string()],
    };
    descriptor_to_info("/p/Synth.clap", &desc)
}

#[test]
fn descriptors_become_entries() {
    let info = info();
    assert_eq!(info.name, "Synth");
    assert_eq!(info.unique_id, "com.acme.synth");
    assert_eq!(info.version, 65538);
    assert_eq!(info.path, "/p/Synth.clap");
    assert_eq!(info.format, "clap");
    assert_eq!(info.category, PluginCategory::Instrument);
    assert!(!info.accepts_midi);
}

#[test]
fn numbers_are_those_of_clap() {
    use_events();
    assert_eq!(CLAP_PARAM_IS_STEPPED, clap_sys::ext::params::CLAP_PARAM_IS_STEPPED);
    assert_eq!(CLAP_PARAM_IS_HIDDEN, clap_sys::ext::params::CLAP_PARAM_IS_HIDDEN);
    assert_eq!(CLAP_PARAM_IS_READONLY, clap_sys::ext::params::CLAP_PARAM_IS_READONLY);
    assert_eq!(CLAP_PARAM_IS_BYPASS, clap_sys::ext::params::CLAP_PARAM_IS_BYPASS);
    assert_eq!(CLAP_PARAM_IS_AUTOMATABLE, clap_sys::ext::params::CLAP_PARAM_IS_AUTOMATABLE);
    assert_eq!(CLAP_PARAM_IS_ENUM, clap_sys::ext::params::CLAP_PARAM_IS_ENUM);
    assert_eq!(CLAP_PROCESS_ERROR, clap_sys::process::CLAP_PROCESS_ERROR);
    assert_eq!(CLAP_PROCESS_CONTINUE, clap_sys::process::CLAP_PROCESS_CONTINUE);
    assert_eq!(
        CLAP_PROCESS_CONTINUE_IF_NOT_QUIET,
        clap_sys::process::CLAP_PROCESS_CONTINUE_IF_NOT_QUIET
    );
    assert_eq!(CLAP_PROCESS_TAIL, clap_sys::process::CLAP_PROCESS_TAIL);
    assert_eq!(CLAP_PROCESS_SLEEP, clap_sys::process::CLAP_PROCESS_SLEEP);
}

fn use_events() {
    assert_eq!(CLAP_CORE_EVENT_SPACE_ID, clap_sys::events::CLAP_CORE_EVENT_SPACE_ID);
    assert_eq!(CLAP_EVENT_NOTE_ON, clap_sys::events::CLAP_EVENT_NOTE_ON);
    assert_eq!(CLAP_EVENT_NOTE_OFF, clap_sys::events::CLAP_EVENT_NOTE_OFF);
    assert_eq!(CLAP_EVENT_PARAM_VALUE, clap_sys::events::CLAP_EVENT_PARAM_VALUE);
    assert_eq!(CLAP_EVENT_MIDI, clap_sys::events::CLAP_EVENT_MIDI);
}

#[test]
fn parameters_carry_flags_and_steps() {
    let flags = parameter_flags(
        CLAP_PARAM_IS_BYPASS | CLAP_PARAM_IS_AUTOMATABLE | CLAP_PARAM_IS_ENUM,
    );
    assert_eq!(flags.bits, BYPASS + AUTOMATABLE + ENUMERATED);
    assert_eq!(parameter_flags(CLAP_PARAM_IS_READONLY).bits, READ_ONLY);
    assert_eq!(parameter_flags(0).bits, 0);
    assert_eq!(step_count(CLAP_PARAM_IS_STEPPED, 4), 5);
    assert_eq!(step_count(0, 4), 0);
    assert_eq!(step_count(CLAP_PARAM_IS_STEPPED, -3), 0);
    assert_eq!(step_count(CLAP_PARAM_IS_STEPPED, -1), 0);
    assert_eq!(step_count(CLAP_PARAM_IS_STEPPED, i64::MAX), 0);
    assert_eq!(step_count(CLAP_PARAM_IS_STEPPED, (1 << 32) - 2), u32::MAX);
    assert_eq!(step_count(CLAP_PARAM_IS_STEPPED, 1 << 32), 0);
}

#[test]
fn c_text_is_decoded_up_to_its_end() {
    assert_eq!(c_buf_to_string(b"Gain\0junk"), "Gain");
    assert_eq!(c_buf_to_string(b"no end"), "no end");
    assert_eq!(c_buf_to_string("\u{00e4}\0".as_bytes()), "\u{00e4}");
    assert_eq!(c_buf_to_string(b"a\xFFb"), "a\u{FFFD}b");
}

// -- events -----------------------------------------------------------------

fn midi(offset: u32, data: MidiData) -> Event {
    Event { sample_offset: offset, body: EventBody::Midi(data) }
}

#[test]
fn notes_come_back() {
    let event = midi(7, MidiData::NoteOff { channel: 3, note: 60, velocity: 64 });
    let converted = ConvertedInputEvents::from_rack_events(&EventList::from_slice(&[event]));
    assert_eq!(converted.size(), 1);
    assert_eq!(
        converted.get(0),
        Some(ClapEvent::Note {
            time: 7,
            event_type: CLAP_EVENT_NOTE_OFF,
            channel: 3,
            key: 60,
            velocity: 64
        })
    );
    assert_eq!(clap_event_to_rack(&converted.get(0).unwrap()), Some(event));
    assert_eq!(converted.get(1), None);
}

#[test]
fn other_messages_travel_as_midi() {
    let mut converted = ConvertedInputEvents::from_rack_events(&EventList::new());
    converted.push_rack(&midi(1, MidiData::PitchBend { channel: 2, value: 0x2001 }));
    assert_eq!(converted.get(0), Some(ClapEvent::Midi { time: 1, data: [0xE2, 1, 64] }));
    assert_eq!(
        clap_event_to_rack(&converted.get(0).unwrap()),
        Some(midi(1, MidiData::Raw { len: 3, data: [0xE2, 1, 64, 0, 0, 0, 0, 0] }))
    );
    converted.push_param_value(0, 9, 1.5f64.to_bits());
    converted.push_rack(&Event {
        sample_offset: 0,
        body: EventBody::TransportFlag(TransportFlag::PlayStart),
    });
    converted.push_midi(2, MidiData::ProgramChange { channel: 1, program: 5 });
    assert_eq!(converted.size(), 3);
    assert_eq!(converted.get(2), Some(ClapEvent::Midi { time: 2, data: [0xC1, 5, 0] }));
}

#[test]
fn sent_events_are_sorted_out() {
    assert_eq!(output_kind(0, CLAP_EVENT_NOTE_ON), Some(OutputKind::Note));
    assert_eq!(output_kind(0, CLAP_EVENT_NOTE_OFF), Some(OutputKind::Note));
    assert_eq!(output_kind(0, CLAP_EVENT_PARAM_VALUE), Some(OutputKind::Param));
    assert_eq!(output_kind(0, CLAP_EVENT_MIDI), Some(OutputKind::Midi));
    assert_eq!(output_kind(1, CLAP_EVENT_MIDI), None);
    assert_eq!(output_kind(0, 9), None);
    let mut list = EventList::new();
    let sent = ClapEvent::Param { time: 3, param_id: 8, value_bits: 0.5f64.to_bits() };
    assert!(try_push(&mut list, &sent));
    assert_eq!(list.as_slice()[0].sample_offset, 3);
}

// -- state ------------------------------------------------------------------

#[test]
fn state_is_read_back_in_chunks() {
    let mut buffer = WriteBuffer::new();
    assert_eq!(buffer.write(b"abc"), 3);
    assert_eq!(buffer.write(b""), 0);
    assert_eq!(buffer.write(b"de"), 2);
    let bytes = ClapPlugin::save_answered(true, buffer).unwrap();
    let mut cursor = ReadCursor::new(&bytes);
    assert_eq!(cursor.read(4), b"abcd");
    assert_eq!(cursor.read(4), b"e");
    assert_eq!(cursor.read(4), b"");
    assert_eq!(
        ClapPlugin::save_answered(false, WriteBuffer::new()).unwrap_err().message(),
        "clap state save returned false"
    );
    assert_eq!(
        ClapPlugin::load_answered(false).unwrap_err().message(),
        "clap state load returned false"
    );
}

// -- host -------------------------------------------------------------------

fn failed(event: LoadEvent) -> (String, bool, bool) {
    match load_step("/b", "/b/x", event) {
        Err(LoadFailure { error, destroy_plugin, deinit_entry }) => {
            (error.message(), destroy_plugin, deinit_entry)
        }
        Ok(_) => panic!("expected a failure"),
    }
}

#[test]
fn loading_goes_step_by_step() {
    let next = |event| load_step("/b", "/b/x", event).ok();
    assert_eq!(next(LoadEvent::Library(None)), Some(LoadAction::FindEntry));
    assert_eq!(next(LoadEvent::Entry { is_null: false }), Some(LoadAction::InitEntry));
    assert_eq!(next(LoadEvent::EntryInit(None)), Some(LoadAction::GetFactory));
    assert_eq!(next(LoadEvent::EntryInit(Some(true))), Some(LoadAction::GetFactory));
    assert_eq!(next(LoadEvent::Factory(true)), Some(LoadAction::FindCreate));
    assert_eq!(next(LoadEvent::CreateFunction(true)), Some(LoadAction::Create));
    assert_eq!(next(LoadEvent::Created(true)), Some(LoadAction::FindInit));
    assert_eq!(next(LoadEvent::InitFunction(true)), Some(LoadAction::Init));
    assert_eq!(next(LoadEvent::PluginInit(true)), Some(LoadAction::LookUpExtensions));
    assert_eq!(
        failed(LoadEvent::Library(Some("no".to_string()))),
        ("failed to load plugin at /b/x: dlopen failed: no".to_string(), false, false)
    );
    assert_eq!(
        failed(LoadEvent::PluginInit(false)),
        ("failed to load plugin at /b: clap_plugin::init returned false".to_string(), true, true)
    );
    assert_eq!(failed(LoadEvent::Factory(false)).2, true);
    assert!(failed(LoadEvent::Entry { is_null: true }).0.starts_with("failed to load plugin at :"));
}

#[test]
fn plugins_are_run() {
    let mut plugin = ClapPlugin::load_from(&info(), true, false, true, true);
    assert!(plugin.info.has_editor);
    assert!(!plugin.is_active());
    assert_eq!(plugin.parameter_index(4, true).unwrap(), 4);
    assert!(plugin.parameter_index(4, false).is_err());
    assert_eq!(
        ClapPlugin::parameter_answered(3, false).unwrap_err().message(),
        "parameter index 3 out of range"
    );
    let mut output = EventList::from_slice(&[midi(0, MidiData::ProgramChange { channel: 0, program: 1 })]);
    assert_eq!(
        plugin.begin_process(&mut output).unwrap_err().message(),
        "plugin not activated"
    );
    assert_eq!(output.len(), 1);
    assert!(plugin.values_ready().is_err());
    assert_eq!(
        plugin.set_parameter(7, 0, true).err().unwrap().message(),
        "plugin not activated"
    );
    assert!(plugin.pending.is_empty());
    assert!(plugin.activate_answered(None, BusLayout::stereo()).is_err());
    assert!(plugin.activate_answered(Some(false), BusLayout::stereo()).is_err());
    plugin.activate_answered(Some(true), BusLayout::stereo()).unwrap();
    assert!(plugin.is_active());
    assert!(plugin.begin_process(&mut output).unwrap());
    assert!(output.is_empty());
    plugin.start_answered(Some(true)).unwrap();
    assert!(!plugin.begin_process(&mut output).unwrap());
    assert!(plugin.values_ready().is_ok());
    assert!(plugin.set_parameter(7, 1.0f64.to_bits(), true).unwrap().is_none());
    let event = midi(3, MidiData::NoteOn { channel: 0, note: 1, velocity: 2 });
    let events = plugin.take_events(&EventList::from_slice(&[event]));
    assert_eq!(
        events.get(1),
        Some(ClapEvent::Param { time: 0, param_id: 7, value_bits: 1.0f64.to_bits() })
    );
    assert_eq!(events.size(), 2);
    assert!(plugin.pending.is_empty());
    assert_eq!(plugin.end_process(64, Some(CLAP_PROCESS_TAIL)), ProcessStatus::Tail { tail_samples: 0 });
    assert_eq!(plugin.steady_time, 64);
    assert_eq!(plugin.end_process(1, None), ProcessStatus::Error);
    let plan = plugin.teardown();
    assert!(plan.stop_processing && plan.deactivate && !plan.destroy_gui);
    let plan = plugin.deactivate();
    assert!(plan.stop_processing && plan.deactivate);
    assert!(!plugin.is_active() && !plugin.started_processing);
    assert_eq!(
        plugin.save_ready(true).unwrap_err().message(),
        plugin.load_ready(true).unwrap_err().message()
    );
}

#[test]
fn clocks_add_up() {
    assert_eq!(advance(advance(0, 64), 32), advance(0, 96));
    assert_eq!(advance(i64::MAX - 1, 5), i64::MAX);
    assert_eq!(saturate_u32(7), 7);
    assert_eq!(saturate_u32(usize::MAX), u32::MAX);
    let counts = block_counts(64, 0, 2);
    assert_eq!((counts.frames, counts.input_channels, counts.inputs), (64, 0, 0));
    assert_eq!((counts.output_channels, counts.outputs), (2, 1));
    assert_eq!(map_clap_status(CLAP_PROCESS_SLEEP), ProcessStatus::Sleep);
    assert_eq!(map_clap_status(CLAP_PROCESS_CONTINUE_IF_NOT_QUIET), ProcessStatus::Continue);
    assert_eq!(map_clap_status(17), ProcessStatus::Error);
}

#[test]
fn transports_are_reported() {
    let facts = TransportFacts {
        has_tempo: true,
        has_beats: false,
        has_samples: true,
        time_signature: Some((7, 65544)),
        playing: true,
        recording: false,
        loop_active: true,
    };
    let header = transport_header(&facts);
    assert_eq!(
        header.flags,
        clap_sys::events::CLAP_TRANSPORT_HAS_TEMPO
            | clap_sys::events::CLAP_TRANSPORT_HAS_SECONDS_TIMELINE
            | clap_sys::events::CLAP_TRANSPORT_HAS_TIME_SIGNATURE
            | clap_sys::events::CLAP_TRANSPORT_IS_PLAYING
            | clap_sys::events::CLAP_TRANSPORT_IS_LOOP_ACTIVE
    );
    assert_eq!((header.tsig_num, header.tsig_denom), (7, 8));
}

#[test]
fn guis_open_step_by_step() {
    let mut plugin = ClapPlugin::load_from(&info(), true, true, true, false);
    assert!(!plugin.info.has_editor);
    assert_eq!(plugin.open_step(OpenEvent::Start).ok(), Some(OpenAction::FindCreate));
    assert_eq!(plugin.open_step(OpenEvent::CreateFunction(true)).ok(), Some(OpenAction::Create));
    assert_eq!(plugin.open_step(OpenEvent::Created(true)).ok(), Some(OpenAction::SetParent));
    let (error, destroy) = plugin.open_step(OpenEvent::ParentSet(Some(false))).unwrap_err();
    assert_eq!(error.message(), "clap.gui::set_parent returned false");
    assert!(destroy);
    assert_eq!(plugin.open_step(OpenEvent::ParentSet(None)).ok(), Some(OpenAction::Show));
    assert_eq!(plugin.open_step(OpenEvent::Shown).ok(), Some(OpenAction::Done));
    assert_eq!(plugin.open_step(OpenEvent::Start).ok(), Some(OpenAction::Done));
    assert!(plugin.close_editor());
    assert!(!plugin.close_editor());
}
