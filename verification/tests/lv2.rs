use truce_rack::bus::ChannelConfig;
use truce_rack::events::{Event, EventBody, EventList, MidiData};
use truce_rack::info::{PluginCategory, PluginInfo};
use truce_rack::lv2::atom::{
    build_midi_sequence, prep_midi_out, to_bits, write_time_position, BarPosition, Endian,
    SequenceUrids, SignaturePosition, TimePosition, TimeUrids, ATOM_SIZE, EVENT_SIZE, ONE_BITS,
    PROPERTY_SIZE, SEQUENCE_SIZE, TIME_POSITION_MAX_BYTES,
};
use truce_rack::lv2::drain::drain_midi_out;
use truce_rack::lv2::editor::{
    adopted_size, clamp_size, path_with_trailing_separator, ui_write, OpenAction, OpenEvent,
    PortUpdate, MAX_DESCRIPTORS,
};
use truce_rack::lv2::host::{
    discover_ui, has_native_ui, load_step, run_frames, LoadStep, Lv2Plugin, UiBundle, UiCandidate,
};
use truce_rack::lv2::midi::{decode_midi_atom, midi_bytes};
use truce_rack::lv2::ports::{
    audio_layout, channel_config, classify_ports, connections, plugin_to_info, Connection,
    PortFacts, PortKind,
};
use truce_rack::lv2::urid::UridMap;
use truce_rack::lv2::Lv2Scanner;

// -- MIDI -------------------------------------------------------------------

#[test]
fn messages_are_encoded_and_decoded() {
    let on = EventBody::Midi(MidiData::NoteOn { channel: 2, note: 60, velocity: 100 });
    assert_eq!(midi_bytes(&on), Some((0x92, 60, 100, 3)));
    assert_eq!(decode_midi_atom(&[0x92, 60, 100]), Some(on));
    let program = EventBody::Midi(MidiData::ProgramChange { channel: 0, program: 5 });
    assert_eq!(midi_bytes(&program).unwrap().3, 2);
    assert_eq!(decode_midi_atom(&[0xC0, 5]), Some(program));
    assert_eq!(
        decode_midi_atom(&[0xF8]),
        Some(EventBody::Midi(MidiData::Raw { len: 1, data: [0xF8, 0, 0, 0, 0, 0, 0, 0] }))
    );
    assert_eq!(decode_midi_atom(&[]), None);
    assert_eq!(decode_midi_atom(&[0xF0; 9]), None);
    assert_eq!(
        decode_midi_atom(&[0x90, 60]),
        Some(EventBody::Midi(MidiData::Raw { len: 2, data: [0x90, 60, 0, 0, 0, 0, 0, 0] }))
    );
    assert_eq!(midi_bytes(&EventBody::ParamGesture { param_id: 0, active: true }), None);
}

// -- atoms ------------------------------------------------------------------

fn sequence_urids() -> SequenceUrids {
    SequenceUrids { sequence: 2, midi_event: 1 }
}

fn time_urids() -> TimeUrids {
    TimeUrids {
        position: 3,
        frame: 4,
        speed: 5,
        bar: 6,
        bar_beat: 7,
        beats_per_bar: 8,
        beat_unit: 9,
        bpm: 10,
        atom_long: 11,
        atom_float: 12,
        atom_int: 13,
        atom_object: 14,
    }
}

fn position() -> TimePosition {
    TimePosition {
        playing: true,
        frame: Some(-1),
        bpm_bits: Some(120.0f32.to_bits()),
        signature: Some(SignaturePosition {
            beats_per_bar_bits: 4.0f32.to_bits(),
            beat_unit: 4,
            bar: Some(BarPosition { bar: 2, bar_beat_bits: Some(0) }),
        }),
    }
}

#[test]
fn sizes_are_those_of_the_structs() {
    assert_eq!(ATOM_SIZE, std::mem::size_of::<lv2_raw::LV2Atom>());
    assert_eq!(SEQUENCE_SIZE, std::mem::size_of::<lv2_raw::LV2AtomSequence>());
    assert_eq!(EVENT_SIZE, std::mem::size_of::<lv2_raw::LV2AtomEvent>());
    assert_eq!(PROPERTY_SIZE, std::mem::size_of::<lv2_raw::LV2AtomPropertyBody>());
    assert_eq!(ONE_BITS, 1.0f32.to_bits());
    assert_eq!(to_bits(-1), u64::MAX);
}

#[test]
fn sequences_are_read_back() {
    let mut list = EventList::new();
    let first = Event {
        sample_offset: 5,
        body: EventBody::Midi(MidiData::NoteOn { channel: 1, note: 2, velocity: 3 }),
    };
    let second = Event {
        sample_offset: 9,
        body: EventBody::Midi(MidiData::ProgramChange { channel: 0, program: 7 }),
    };
    list.push(first);
    list.push(Event {
        sample_offset: 6,
        body: EventBody::ParamGesture { param_id: 1, active: false },
    });
    list.push(second);
    for endian in [Endian::Little, Endian::Big] {
        let mut buf = vec![0u8; 1024];
        build_midi_sequence(
            &sequence_urids(),
            &time_urids(),
            endian,
            &mut buf,
            &list,
            Some(position()),
        );
        let mut out = EventList::new();
        drain_midi_out(&sequence_urids(), endian, &buf, &mut out);
        assert_eq!(out.as_slice(), &[first, second]);
    }
}

#[test]
fn bytes_are_laid_out() {
    let mut buf = vec![0u8; 64];
    let list = EventList::from_slice(&[Event {
        sample_offset: 5,
        body: EventBody::Midi(MidiData::NoteOn { channel: 1, note: 2, velocity: 3 }),
    }]);
    build_midi_sequence(&sequence_urids(), &time_urids(), Endian::Little, &mut buf, &list, None);
    assert_eq!(&buf[..16], &[32, 0, 0, 0, 2, 0, 0, 0, 0, 0, 0, 0, 0, 0, 0, 0]);
    assert_eq!(&buf[16..32], &[5, 0, 0, 0, 0, 0, 0, 0, 3, 0, 0, 0, 1, 0, 0, 0]);
    assert_eq!(&buf[32..35], &[0x91, 2, 3]);
    prep_midi_out(&sequence_urids(), Endian::Little, &mut buf);
    assert_eq!(&buf[..8], &[8, 0, 0, 0, 2, 0, 0, 0]);
    let mut out = EventList::new();
    drain_midi_out(&sequence_urids(), Endian::Little, &buf, &mut out);
    assert!(out.is_empty());
}

#[test]
fn short_buffers_take_what_fits() {
    let event = Event {
        sample_offset: 0,
        body: EventBody::Midi(MidiData::NoteOn { channel: 0, note: 0, velocity: 1 }),
    };
    let list = EventList::from_slice(&[event, event]);
    let mut buf = vec![0u8; 16 + 24];
    build_midi_sequence(
        &sequence_urids(),
        &time_urids(),
        Endian::Little,
        &mut buf,
        &list,
        Some(position()),
    );
    let mut out = EventList::new();
    drain_midi_out(&sequence_urids(), Endian::Little, &buf, &mut out);
    assert_eq!(out.as_slice(), &[event]);
    let mut tiny = vec![7u8; 15];
    build_midi_sequence(&sequence_urids(), &time_urids(), Endian::Little, &mut tiny, &list, None);
    prep_midi_out(&sequence_urids(), Endian::Little, &mut tiny);
    assert_eq!(tiny, vec![7u8; 15]);
    drain_midi_out(&sequence_urids(), Endian::Little, &tiny, &mut out);
    assert_eq!(out.len(), 1);
}

#[test]
fn positions_are_objects() {
    let mut buf = vec![0u8; TIME_POSITION_MAX_BYTES];
    let end = write_time_position(&time_urids(), &mut buf, 0, Endian::Little, &position());
    assert!(end <= TIME_POSITION_MAX_BYTES);
    assert_eq!(end % 8, 0);
    assert_eq!(&buf[12..16], &[14, 0, 0, 0]);
    assert_eq!(&buf[20..24], &[3, 0, 0, 0]);
    // The first property is the speed, a float of 1 while playing.
    assert_eq!(&buf[24..28], &[5, 0, 0, 0]);
    assert_eq!(&buf[32..40], &[4, 0, 0, 0, 12, 0, 0, 0]);
    assert_eq!(&buf[40..44], &1.0f32.to_le_bytes());
    let mut short = vec![0u8; TIME_POSITION_MAX_BYTES - 1];
    assert_eq!(write_time_position(&time_urids(), &mut short, 0, Endian::Little, &position()), 0);
}

// -- URIDs ------------------------------------------------------------------

#[test]
fn uris_keep_their_numbers() {
    let mut map = UridMap::new();
    let a = map.map_uri(b"http://a");
    let b = map.map_uri(b"http://b");
    assert_ne!(a, b);
    assert_eq!((a, b), (1, 2));
    assert_eq!(map.map_uri(b"http://a"), a);
}

// -- ports ------------------------------------------------------------------

fn port(is_input: bool, kind: &str, default_bits: u32) -> PortFacts {
    PortFacts {
        present: true,
        is_input,
        is_output: !is_input,
        is_audio: kind == "audio",
        is_control: kind == "control",
        is_atom: kind == "atom",
        default_bits,
    }
}

fn ports() -> Vec<PortFacts> {
    vec![
        port(true, "control", 0.5f32.to_bits()),
        port(true, "audio", 0),
        port(false, "audio", 0),
        port(false, "audio", 0),
        port(true, "atom", 0),
        port(false, "atom", 0),
        port(true, "control", f32::NAN.to_bits()),
        port(true, "other", 0),
    ]
}

#[test]
fn ports_are_classified_and_connected() {
    assert_eq!(Lv2Scanner::new(), Lv2Scanner);
    let table = classify_ports(&ports());
    assert_eq!((table.audio_in, table.audio_out), (1, 2));
    assert_eq!(table.control_values, vec![0.5f32.to_bits(), 0]);
    assert_eq!(table.ports[0].kind, PortKind::Control { default_bits: 0.5f32.to_bits() });
    assert_eq!(table.control_offsets[6], 1);
    assert_eq!(table.control_offsets[1], usize::MAX);
    assert_eq!(
        connections(&table, 2, 1),
        vec![
            Connection::ControlValue(0),
            Connection::InputPlane(0),
            Connection::OutputPlane(0),
            Connection::Unconnected,
            Connection::MidiIn,
            Connection::MidiOut,
            Connection::ControlValue(1),
            Connection::Unconnected,
        ]
    );
    assert_eq!(channel_config(2), ChannelConfig::Stereo);
    assert_eq!(channel_config(3), ChannelConfig::Discrete(3));
    let layout = audio_layout(0, 2);
    assert!(layout.inputs.buses().is_empty());
    assert_eq!(layout.total_output_channels(), 2);
}

fn info() -> PluginInfo {
    plugin_to_info("http://acme/x", "X", "Acme", &ports(), false)
}

#[test]
fn lv2_descriptions_become_entries() {
    let effect = info();
    assert_eq!((effect.name.as_str(), effect.unique_id.as_str()), ("X", "http://acme/x"));
    assert_eq!((effect.category, effect.format), (PluginCategory::Effect, "lv2"));
    assert!(effect.accepts_midi);
    let synth = plugin_to_info("u", "n", "v", &[port(false, "audio", 0)], true);
    assert_eq!(synth.category, PluginCategory::Instrument);
    assert!(!synth.accepts_midi && synth.has_editor);
}

// -- host -------------------------------------------------------------------

#[test]
fn lv2_loading_goes_step_by_step() {
    let mut entry = info();
    assert_eq!(
        load_step(&entry, LoadStep::OpenWorld, true).unwrap(),
        Some(LoadStep::MakeUriNode)
    );
    assert_eq!(load_step(&entry, LoadStep::Describe, true).unwrap(), None);
    assert_eq!(
        load_step(&entry, LoadStep::FindPlugin, false).unwrap_err().message(),
        "plugin not found: http://acme/x"
    );
    assert_eq!(
        load_step(&entry, LoadStep::MakeUriNode, false).unwrap_err().message(),
        "failed to load plugin at : lilv_new_uri failed for \"http://acme/x\""
    );
    assert_eq!(
        load_step(&entry, LoadStep::OpenWorld, false).unwrap_err().message(),
        "failed to load plugin at : lilv_world_new returned NULL"
    );
    entry.unique_id = "a\0b".to_string();
    assert_eq!(
        load_step(&entry, LoadStep::OpenWorld, true).unwrap_err().message(),
        "plugin not found: a\0b"
    );
}

fn candidate(is_native: bool, binary: Option<&str>) -> UiCandidate {
    UiCandidate {
        is_native,
        uri: "http://acme/ui".to_string(),
        bundle_path: Some("/b".to_string()),
        binary_path: binary.map(str::to_string),
    }
}

#[test]
fn the_first_usable_interface_is_chosen() {
    let all = vec![
        candidate(false, Some("/a")),
        candidate(true, None),
        candidate(true, Some("/c")),
        candidate(true, Some("/d")),
    ];
    assert_eq!(discover_ui(&all), Some(2));
    assert!(has_native_ui(&all));
    assert_eq!(discover_ui(&all[..2]), None);
    assert!(!has_native_ui(&all[..1]));
}

fn plugin() -> Lv2Plugin {
    let ui = UiBundle {
        ui_uri: "http://acme/ui".to_string(),
        bundle_path: "/b".to_string(),
        binary_path: "/b/ui.so".to_string(),
    };
    Lv2Plugin::load_from(&info(), &ports(), Some(ui), Endian::Little)
}

#[test]
fn lv2_plugins_are_run() {
    let mut plugin = plugin();
    assert!(plugin.info.has_editor);
    assert_eq!(plugin.layout.total_input_channels(), 1);
    let mut out = EventList::new();
    assert!(plugin.begin_block(&EventList::new(), None, 1, 2, &mut out).is_err());
    let plan = plugin.begin_activate(true);
    assert!(!plan.free && plan.instantiate);
    let layout = plugin.layout.clone();
    assert_eq!(
        plugin.finish_activate(Some(false), layout.clone(), 64).unwrap_err().message(),
        "lilv_plugin_instantiate returned NULL"
    );
    plugin.finish_activate(Some(true), layout.clone(), 64).unwrap();
    assert!(plugin.is_active());
    let event = Event {
        sample_offset: 1,
        body: EventBody::Midi(MidiData::NoteOff { channel: 0, note: 9, velocity: 0 }),
    };
    let all = plugin
        .begin_block(&EventList::from_slice(&[event]), Some(position()), 1, 2, &mut out)
        .unwrap();
    assert_eq!(all.len(), 8);
    plugin.end_block(&mut out);
    assert!(out.is_empty());
    plugin.midi_out = plugin.midi_in.clone();
    plugin.end_block(&mut out);
    assert_eq!(out.as_slice(), &[event]);
    plugin.begin_block(&EventList::new(), None, 1, 2, &mut out).unwrap();
    assert!(out.is_empty());
    assert!(plugin.deactivate());
    let plan = plugin.begin_activate(false);
    assert!(!plan.free && !plan.instantiate);
    plugin.finish_activate(None, layout, 64).unwrap();
    let plan = plugin.begin_activate(true);
    assert!(plan.free && plan.instantiate);
    assert_eq!(run_frames(7), 7);
    assert_eq!(run_frames(usize::MAX), u32::MAX);
}

// -- editor -----------------------------------------------------------------

#[test]
fn interfaces_open_step_by_step() {
    let mut plugin = plugin();
    let shown = "\"http://acme/ui\"";
    assert!(matches!(
        plugin.open_step(OpenEvent::Start, '/', shown),
        Ok(OpenAction::LoadLibrary)
    ));
    assert!(matches!(
        plugin.open_step(OpenEvent::Library(None), '/', shown),
        Ok(OpenAction::FindSymbol)
    ));
    assert_eq!(
        plugin
            .open_step(OpenEvent::Library(Some("no".to_string())), '/', shown)
            .err()
            .unwrap()
            .message(),
        "lv2 ui dlopen /b/ui.so: no"
    );
    assert!(matches!(
        plugin.open_step(OpenEvent::Symbol(None), '/', shown),
        Ok(OpenAction::AskDescriptor(0))
    ));
    let other = OpenEvent::Descriptor { index: 0, uri: Some("http://other".to_string()) };
    assert!(matches!(plugin.open_step(other, '/', shown), Ok(OpenAction::AskDescriptor(1))));
    let last = OpenEvent::Descriptor { index: MAX_DESCRIPTORS - 1, uri: None };
    let message = plugin.open_step(last, '/', shown).err().unwrap().message();
    assert!(message.contains(shown));
    let found = OpenEvent::Descriptor { index: 1, uri: Some("http://acme/ui".to_string()) };
    match plugin.open_step(found, '/', shown) {
        Ok(OpenAction::Instantiate(dir)) => assert_eq!(dir, "/b/"),
        _ => panic!("expected instantiation"),
    }
    let made = |ok| OpenEvent::Instantiated { ok, has_idle: true, has_resize: false };
    assert!(plugin.open_step(made(false), '/', shown).is_err());
    assert!(!plugin.is_open());
    assert!(matches!(plugin.open_step(made(true), '/', shown), Ok(OpenAction::Done)));
    assert!(plugin.is_open() && !plugin.is_resizable());
    assert!(matches!(plugin.open_step(OpenEvent::Start, '/', shown), Ok(OpenAction::Done)));
    assert!(!plugin.idle_answered(0));
    assert!(plugin.idle_answered(1));
    assert!(!plugin.close_editor());
}

#[test]
fn changed_values_are_told_once() {
    let mut plugin = plugin();
    let made = OpenEvent::Instantiated { ok: true, has_idle: false, has_resize: true };
    assert!(plugin.open_step(made, '/', "").is_ok());
    assert!(plugin.port_updates().is_empty());
    let offsets = plugin.table.control_offsets.clone();
    let bits = 0.25f32.to_bits();
    ui_write(&mut plugin.table.control_values, &offsets, 6, 4, 0, bits);
    ui_write(&mut plugin.table.control_values, &offsets, 0, 4, 1, bits);
    ui_write(&mut plugin.table.control_values, &offsets, 1, 4, 0, bits);
    ui_write(&mut plugin.table.control_values, &offsets, 99, 4, 0, bits);
    assert_eq!(plugin.port_updates(), vec![PortUpdate { port_index: 6, value_bits: bits }]);
    assert!(plugin.port_updates().is_empty());
}

#[test]
fn paths_and_sizes_are_adapted() {
    assert_eq!(path_with_trailing_separator("/b", '/').unwrap(), "/b/");
    assert_eq!(path_with_trailing_separator("/b/", '/').unwrap(), "/b/");
    assert!(path_with_trailing_separator("/\0", '/').is_err());
    assert_eq!(clamp_size(5), 5);
    assert_eq!(clamp_size(u32::MAX), i32::MAX);
    assert_eq!(adopted_size(0, 3, 4), Some((3, 4)));
    assert_eq!(adopted_size(1, 3, 4), None);
}
