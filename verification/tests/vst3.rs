use truce_rack::bus::{Bus, BusKind, BusLayout, ChannelConfig};
use truce_rack::clap::catalog::{Platform, SearchBase};
use truce_rack::events::{Event, EventBody, EventList, MidiData};
use truce_rack::info::{PluginInfo, AUTOMATABLE, BYPASS, ENUMERATED, HIDDEN, READ_ONLY};
use truce_rack::plugin::ProcessStatus;
use truce_rack::vst3::events::{
    drain_vst3_output_events, legacy_midi_cc_to_rack, midi_channel, midi_controller_assignment,
    midi_data_byte, midi_note, payload_of, rack_event_from_vst3, to_offset, Amount, EventBuffer,
    ParameterChanges, Payload, Vst3Body, Vst3Event, CTRL_AFTERTOUCH, CTRL_PITCH_BEND,
    CTRL_PROGRAM_CHANGE, LEGACY_MIDI_CC_OUT_EVENT, NOTE_OFF_EVENT, NOTE_ON_EVENT,
    POLY_PRESSURE_EVENT,
};
use truce_rack::vst3::host::{
    block_counts, build_vst3_context, component_class_id, host_name, load_step, rect_of_size,
    restart_component, values_changed, view_size, ActivateAction, ActivateEvent, BundleFailure,
    LoadAction, LoadEvent, OpenAction, OpenEvent, PresetAction, PresetEvent, TransportFacts, ViewRect, Vst3Plugin, HOST_NAME,
    PARAM_VALUES_CHANGED, STATE_BAR_POSITION_VALID, STATE_CYCLE_ACTIVE, STATE_PLAYING,
    STATE_PROJECT_TIME_MUSIC_VALID, STATE_RECORDING, STATE_TEMPO_VALID, STATE_TIME_SIG_VALID,
};
use truce_rack::vst3::ids::{
    bundle_binary_path, char8_array_to_string, class_to_info, default_vst3_paths, hex_to_tuid,
    is_vst3_bundle_path, parameter_flags, step_count, string128_to_string, tuid_to_hex,
    Vst3Scanner, AUDIO_MODULE_CLASS, CAN_AUTOMATE, IS_BYPASS, IS_HIDDEN, IS_LIST, IS_READ_ONLY,
};
use truce_rack::vst3::layout::{
    channel_config_for_count, discover_audio_layout, named_bus, query_audio_bus,
    speaker_arrangement_for_channels, BusFacts,
};
use truce_rack::vst3::stream::{MemoryStream, RESULT_FAILED, RESULT_OK};
use vst3::Steinberg::Vst::Event_::EventTypes_;
use vst3::Steinberg::Vst::ParameterInfo_::ParameterFlags_;
use vst3::Steinberg::Vst::ProcessContext_::StatesAndFlags_;
use vst3::Steinberg::Vst::{ControllerNumbers_, RestartFlags_};

// -- ids --------------------------------------------------------------------

#[test]
fn tuid_hex_roundtrip() {
    let cid: [i8; 16] =
        [0x01, 0x23, 0x45, 0x67, -0x10, -0x10, -0x10, -0x10, 0, 0, 0, 0, 0, 0, 0, 0];
    let hex = tuid_to_hex(&cid);
    let back = hex_to_tuid(&hex).unwrap();
    assert_eq!(cid, back);
}

#[test]
fn char8_skips_trailing_nul() {
    let mut buf = [0i8; 16];
    for (slot, byte) in buf.iter_mut().zip(b"Hello") {
        *slot = *byte as i8;
    }
    assert_eq!(char8_array_to_string(&buf), "Hello");
}

#[test]
fn ids_are_upper_or_lower_case() {
    let mut cid = [0i8; 16];
    cid[0] = -1;
    cid[15] = 0x1A;
    assert_eq!(tuid_to_hex(&cid), "ff00000000000000000000000000001a");
    assert_eq!(hex_to_tuid("FF00000000000000000000000000001A"), Some(cid));
    assert_eq!(hex_to_tuid("ff"), None);
    assert_eq!(hex_to_tuid("gg00000000000000000000000000001a"), None);
}

#[test]
fn wide_names_are_decoded() {
    let mut buf = [0u16; 128];
    for (slot, unit) in buf.iter_mut().zip("G\u{00e4}in\u{1F600}".encode_utf16()) {
        *slot = unit;
    }
    assert_eq!(string128_to_string(&buf), "G\u{00e4}in\u{1F600}");
    buf[0] = 0xD800;
    buf[1] = 0;
    assert_eq!(string128_to_string(&buf), "\u{FFFD}");
    assert_eq!(char8_array_to_string(&[-1, 65]), "\u{FFFD}A");
}

#[test]
fn bundles_are_searched_and_opened() {
    assert_eq!(Vst3Scanner::new(), Vst3Scanner);
    let dirs = default_vst3_paths(Platform::Linux, true, false);
    assert_eq!((dirs[0].base, dirs[0].path), (SearchBase::Home, ".vst3"));
    assert!(is_vst3_bundle_path(Some("A.vst3")));
    assert!(!is_vst3_bundle_path(Some("A.vst")));
    assert!(!is_vst3_bundle_path(None));
    assert_eq!(
        bundle_binary_path("/p/A.vst3", "A", true, "x86_64", Platform::Linux),
        "/p/A.vst3/Contents/x86_64-linux/A.so"
    );
    assert_eq!(
        bundle_binary_path("C:\\A.vst3", "A", true, "x86_64", Platform::Windows),
        "C:\\A.vst3\\Contents\\x86_64-win\\A.vst3"
    );
    assert_eq!(
        bundle_binary_path("/p/A.vst3", "A", false, "x86_64", Platform::Linux),
        "/p/A.vst3"
    );
}

fn info() -> PluginInfo {
    class_to_info("/p/A.vst3", AUDIO_MODULE_CLASS, "A", &[1; 16]).unwrap()
}

#[test]
fn audio_classes_are_listed() {
    let info = info();
    assert_eq!((info.name.as_str(), info.format), ("A", "vst3"));
    assert_eq!(info.unique_id, "01010101010101010101010101010101");
    assert!(class_to_info("/p/A.vst3", "Component Controller Class", "A", &[1; 16]).is_none());
}

#[test]
fn numbers_are_those_of_vst3() {
    assert_eq!(CAN_AUTOMATE, ParameterFlags_::kCanAutomate as u32);
    assert_eq!(IS_READ_ONLY, ParameterFlags_::kIsReadOnly as u32);
    assert_eq!(IS_LIST, ParameterFlags_::kIsList as u32);
    assert_eq!(IS_HIDDEN, ParameterFlags_::kIsHidden as u32);
    assert_eq!(IS_BYPASS, ParameterFlags_::kIsBypass as u32);
    assert_eq!(u32::from(NOTE_ON_EVENT), EventTypes_::kNoteOnEvent as u32);
    assert_eq!(u32::from(NOTE_OFF_EVENT), EventTypes_::kNoteOffEvent as u32);
    assert_eq!(u32::from(POLY_PRESSURE_EVENT), EventTypes_::kPolyPressureEvent as u32);
    assert_eq!(u32::from(LEGACY_MIDI_CC_OUT_EVENT), EventTypes_::kLegacyMIDICCOutEvent as u32);
    assert_eq!(u32::from(CTRL_AFTERTOUCH), ControllerNumbers_::kAfterTouch as u32);
    assert_eq!(u32::from(CTRL_PITCH_BEND), ControllerNumbers_::kPitchBend as u32);
    assert_eq!(u32::from(CTRL_PROGRAM_CHANGE), ControllerNumbers_::kCtrlProgramChange as u32);
    assert_eq!(PARAM_VALUES_CHANGED as u32, RestartFlags_::kParamValuesChanged as u32);
    assert_eq!(STATE_PLAYING, StatesAndFlags_::kPlaying as u32);
    assert_eq!(STATE_CYCLE_ACTIVE, StatesAndFlags_::kCycleActive as u32);
    assert_eq!(STATE_RECORDING, StatesAndFlags_::kRecording as u32);
    assert_eq!(STATE_PROJECT_TIME_MUSIC_VALID, StatesAndFlags_::kProjectTimeMusicValid as u32);
    assert_eq!(STATE_TEMPO_VALID, StatesAndFlags_::kTempoValid as u32);
    assert_eq!(STATE_BAR_POSITION_VALID, StatesAndFlags_::kBarPositionValid as u32);
    assert_eq!(STATE_TIME_SIG_VALID, StatesAndFlags_::kTimeSigValid as u32);
    assert_eq!(RESULT_OK, vst3::Steinberg::kResultOk);
}

#[test]
fn vst3_parameters_carry_flags_and_steps() {
    let all = IS_BYPASS | CAN_AUTOMATE | IS_HIDDEN | IS_READ_ONLY | IS_LIST;
    assert_eq!(
        parameter_flags(all).bits,
        BYPASS + AUTOMATABLE + HIDDEN + READ_ONLY + ENUMERATED
    );
    assert_eq!(parameter_flags(IS_LIST).bits, ENUMERATED);
    assert_eq!(step_count(5), 5);
    assert_eq!(step_count(-1), 0);
}

// -- layout -----------------------------------------------------------------

fn facts(name: &str, channel_count: i32) -> BusFacts {
    let mut units = [0u16; 128];
    for (slot, unit) in units.iter_mut().zip(name.encode_utf16()) {
        *slot = unit;
    }
    BusFacts { channel_count, name: units }
}

#[test]
fn layouts_are_discovered() {
    let layout = discover_audio_layout(
        &[Some(facts("In", 2)), Some(facts("Key", 1)), None],
        &[Some(facts("", 6))],
    );
    let ins = layout.inputs.buses();
    assert_eq!(ins.len(), 2);
    assert_eq!((ins[0].name.as_str(), ins[0].kind), ("In", BusKind::Main));
    assert_eq!((ins[1].name.as_str(), ins[1].kind), ("Key", BusKind::Sidechain));
    assert_eq!(layout.outputs.buses()[0].channels, ChannelConfig::Discrete(6));
    let silent = discover_audio_layout(&[], &[]);
    assert_eq!(silent.total_output_channels(), 2);
    assert!(query_audio_bus(&facts("x", 0), true, 0, true).is_none());
    let aux = named_bus(String::new(), 2, false, 1, false).unwrap();
    assert_eq!((aux.name.as_str(), aux.kind), ("Output 2", BusKind::Auxiliary));
    // The first bus that is described and has channels is the main one.
    let late = discover_audio_layout(
        &[None, Some(facts("", 0)), Some(facts("", 2)), Some(facts("Key", 2))],
        &[Some(facts("A", 2)), Some(facts("B", 2))],
    );
    let kinds = |buses: &[Bus]| buses.iter().map(|b| b.kind).collect::<Vec<BusKind>>();
    assert_eq!(late.inputs.buses()[0].name, "Input 3");
    assert_eq!(kinds(late.inputs.buses()), vec![BusKind::Main, BusKind::Sidechain]);
    assert_eq!(kinds(late.outputs.buses()), vec![BusKind::Main, BusKind::Auxiliary]);
    assert_eq!(channel_config_for_count(1), Some(ChannelConfig::Mono));
    assert_eq!(channel_config_for_count(0), None);
    assert_eq!(speaker_arrangement_for_channels(2), 3);
    assert_eq!(speaker_arrangement_for_channels(64), u64::MAX);
    assert_eq!(speaker_arrangement_for_channels(65), u64::MAX);
    assert_eq!(speaker_arrangement_for_channels(0), 0);
}

// -- events -----------------------------------------------------------------

fn midi(offset: u32, data: MidiData) -> Event {
    Event { sample_offset: offset, body: EventBody::Midi(data) }
}

#[test]
fn vst3_notes_come_back() {
    let event = midi(9, MidiData::NoteOn { channel: 2, note: 61, velocity: 99 });
    let mut buffer = EventBuffer::new();
    buffer.push_rack(&event);
    assert_eq!(buffer.event_count(), 1);
    let sent = buffer.get_event(0).unwrap();
    assert_eq!(
        sent,
        Vst3Event {
            sample_offset: 9,
            body: Vst3Body::NoteOn { channel: 2, pitch: 61, velocity: 99 }
        }
    );
    assert_eq!(rack_event_from_vst3(&sent), Some(event));
    assert_eq!(buffer.get_event(-1), None);
    assert_eq!(buffer.get_event(1), None);
    assert_eq!(to_offset(u32::MAX), i32::MAX);
    buffer.add_event(Vst3Event { sample_offset: -3, body: Vst3Body::Other });
    let mut out = EventList::new();
    drain_vst3_output_events(&buffer.events, &mut out);
    assert_eq!(out.as_slice(), &[event]);
}

#[test]
fn controllers_travel_as_parameters() {
    let bend = midi(0, MidiData::PitchBend { channel: 1, value: 16383 });
    let change = midi_controller_assignment(&bend).unwrap();
    assert_eq!(change.control, 129);
    assert_eq!(change.channel, 1);
    assert_eq!(change.value, Amount::Fraction { numerator: 16383, denominator: 16383 });
    let mut buffer = EventBuffer::new();
    buffer.push_rack(&bend);
    assert_eq!(buffer.event_count(), 0);
    let note = midi(0, MidiData::NoteOn { channel: 0, note: 1, velocity: 1 });
    assert!(midi_controller_assignment(&note).is_none());
}

#[test]
fn queues_are_shared_by_id() {
    let mut changes = ParameterChanges::new();
    changes.push_point(5, 0, Amount::Bits(1));
    changes.push_point(6, 3, Amount::Bits(2));
    changes.push_point(5, 7, Amount::Bits(3));
    assert_eq!(changes.parameter_count(), 2);
    let queue = changes.parameter_data(0).unwrap();
    assert_eq!(queue.param_id, 5);
    assert_eq!(queue.point_count(), 2);
    assert_eq!(queue.get_point(1), Some((7, Amount::Bits(3))));
    assert_eq!(queue.get_point(2), None);
    assert!(changes.parameter_data(2).is_none());
    assert_eq!(changes.add_parameter_data(6), 1);
    assert_eq!(changes.add_parameter_data(9), 2);
}

#[test]
fn sent_controllers_are_midi() {
    assert_eq!(
        legacy_midi_cc_to_rack(7, 3, 100, 0),
        Some(EventBody::Midi(MidiData::ControlChange { channel: 3, controller: 7, value: 100 }))
    );
    assert_eq!(
        legacy_midi_cc_to_rack(129, 0, 1, 64),
        Some(EventBody::Midi(MidiData::PitchBend { channel: 0, value: 0x2001 }))
    );
    assert_eq!(
        legacy_midi_cc_to_rack(128, 0, 5, 0),
        Some(EventBody::Midi(MidiData::ChannelAftertouch { channel: 0, pressure: 5 }))
    );
    assert_eq!(
        legacy_midi_cc_to_rack(130, 0, 5, 0),
        Some(EventBody::Midi(MidiData::ProgramChange { channel: 0, program: 5 }))
    );
    assert_eq!(legacy_midi_cc_to_rack(131, 0, 0, 0), None);
    assert_eq!((midi_channel(-4), midi_channel(99)), (0, 3));
    assert_eq!((midi_note(-4), midi_note(300)), (0, 127));
    assert_eq!(midi_data_byte(-1), 127);
    assert_eq!(payload_of(3), Payload::PolyPressure);
    assert_eq!(payload_of(65535), Payload::LegacyCc);
    assert_eq!(payload_of(2), Payload::Other);
}

// -- stream -----------------------------------------------------------------

#[test]
fn streams_give_back_what_was_written() {
    let mut stream = MemoryStream::new();
    stream.write(b"state");
    assert_eq!(stream.tell(), 5);
    assert_eq!(stream.seek(0, 0), Some(0));
    assert_eq!(stream.read(2).unwrap(), b"st");
    assert_eq!(stream.read(99).unwrap(), b"ate");
    assert_eq!(stream.read(1).unwrap(), b"");
    assert_eq!(stream.read(-1), None);
    assert_eq!(stream.seek(2, 2), Some(7));
    stream.write(b"!");
    assert_eq!(stream.data, b"state\0\0!");
    assert_eq!(stream.seek(-99, 1), None);
    assert_eq!(stream.seek(0, 3), None);
    let mut copy = MemoryStream::from_bytes(b"xy");
    assert_eq!(copy.read(1).unwrap(), b"x");
    assert_ne!(RESULT_OK, RESULT_FAILED);
}

// -- host -------------------------------------------------------------------

#[test]
fn vst3_loading_goes_step_by_step() {
    let next = |event| load_step("/p", -9, event).map_err(|e| e.message());
    assert_eq!(next(LoadEvent::ModuleOpened), Ok(LoadAction::GetFactory));
    assert_eq!(
        next(LoadEvent::Factory { is_null: false, in_bundle: true }),
        Ok(LoadAction::MakeHostContext)
    );
    assert_eq!(next(LoadEvent::HostApplication(true)), Ok(LoadAction::CreateComponent));
    assert_eq!(next(LoadEvent::ComponentCreated(true)), Ok(LoadAction::InitializeComponent));
    assert_eq!(next(LoadEvent::ComponentInitialized(0)), Ok(LoadAction::FindProcessor));
    assert_eq!(next(LoadEvent::ProcessorFound(true)), Ok(LoadAction::FindControllerClass));
    assert_eq!(next(LoadEvent::ControllerClass(0)), Ok(LoadAction::CreateController));
    assert_eq!(next(LoadEvent::ControllerClass(-9)), Ok(LoadAction::FindController));
    assert_eq!(next(LoadEvent::ControllerCreated(true)), Ok(LoadAction::InitializeController));
    assert_eq!(next(LoadEvent::ControllerInitialized(0)), Ok(LoadAction::GetHandler));
    assert_eq!(next(LoadEvent::ControllerFound(true)), Ok(LoadAction::GetHandler));
    assert_eq!(next(LoadEvent::ComponentHandler(true)), Ok(LoadAction::SetHandler));
    assert_eq!(next(LoadEvent::HandlerSet(-9)), Ok(LoadAction::Finish));
    assert_eq!(
        next(LoadEvent::HandlerSet(-3)),
        Err("failed to load plugin at /p: IEditController::setComponentHandler returned -3"
            .to_string())
    );
    assert_eq!(
        next(LoadEvent::BundleFailed(BundleFailure::NoBundle)),
        Err("failed to load plugin at /p: CFBundleCreate returned NULL".to_string())
    );
    assert_eq!(
        next(LoadEvent::ModuleFailed("x".to_string())),
        Err("failed to load plugin at /p: dlopen: x".to_string())
    );
    assert_eq!(
        next(LoadEvent::HostApplication(false)),
        Err("HostContext missing IHostApplication IID".to_string())
    );
    assert_eq!(
        component_class_id("a\"b").unwrap_err().message(),
        "plugin not found: a\"b"
    );
    assert_eq!(component_class_id(&info().unique_id).unwrap(), [1; 16]);
}

#[test]
fn hosts_name_themselves() {
    let name = host_name();
    let units: Vec<u16> = HOST_NAME.encode_utf16().collect();
    assert_eq!(&name[..units.len()], units.as_slice());
    assert!(name[units.len()..].iter().all(|u| *u == 0));
    assert!(values_changed(restart_component(1, PARAM_VALUES_CHANGED)));
    assert!(!values_changed(restart_component(1, 2)));
}

#[test]
fn vst3_plugins_are_run() {
    let mut plugin =
        Vst3Plugin::load_from(&info(), BusLayout::stereo(), true, true, 3, true);
    assert_eq!(plugin.parameter_index(2).unwrap(), 2);
    assert!(plugin.parameter_index(3).is_err());
    assert!(Vst3Plugin::parameter_answered(0, RESULT_FAILED).is_err());
    assert!(plugin.values_ready().is_err());
    assert_eq!(
        plugin.set_parameter(11, 0.25f64.to_bits(), RESULT_OK).unwrap_err().message(),
        "plugin not activated"
    );
    assert!(plugin.pending.is_empty());
    assert_eq!(
        plugin.queue_all_parameter_values(&[None]).unwrap_err().message(),
        "parameter index 0 out of range"
    );
    assert!(plugin.pending.is_empty());
    plugin
        .queue_all_parameter_values(&[
            Some((1, 0.5f64.to_bits())),
            Some((2, f64::NAN.to_bits())),
            Some((3, 1.0f64.to_bits())),
        ])
        .unwrap();
    assert_eq!(
        plugin.pending,
        vec![(1, 0.5f64.to_bits()), (3, 1.0f64.to_bits())]
    );
    let bend = midi(4, MidiData::PitchBend { channel: 1, value: 0 });
    let note = midi(5, MidiData::NoteOn { channel: 0, note: 60, velocity: 1 });
    let events = EventList::from_slice(&[bend, note]);
    let mut out = EventList::from_slice(&[bend]);
    assert!(plugin.begin_process(&events, &[Some(1), None], &mut out).is_err());
    assert_eq!(out.as_slice(), &[bend]);
    let setup = Vst3Plugin::activation_setup(&BusLayout::stereo(), 512);
    assert_eq!((setup.input_arrangement, setup.max_samples), (Some(3), 512));
    let stereo = BusLayout::stereo();
    let failure = plugin.activate_step(&stereo, ActivateEvent::SetProcessing(-1)).err().unwrap();
    assert!(failure.set_inactive && failure.deactivate_buses);
    assert_eq!(
        plugin.activate_step(&stereo, ActivateEvent::SetUp(0)).ok(),
        Some(ActivateAction::Activate)
    );
    assert_eq!(
        plugin.activate_step(&stereo, ActivateEvent::SetActive(0)).ok(),
        Some(ActivateAction::Process)
    );
    assert_eq!(
        plugin.activate_step(&stereo, ActivateEvent::SetProcessing(0)).ok(),
        Some(ActivateAction::Done)
    );
    assert!(plugin.is_active() && plugin.values_ready().is_ok());
    assert_eq!(
        plugin.set_parameter(12, 0, RESULT_FAILED).unwrap_err().message(),
        "IEditController::setParamNormalized failed"
    );
    assert_eq!(plugin.pending.len(), 2);
    plugin.set_parameter(11, 0.25f64.to_bits(), RESULT_OK).unwrap();
    assert_eq!(plugin.pending[2], (11, 0.25f64.to_bits()));
    let input = plugin.begin_process(&events, &[Some(1), None], &mut out).ok().unwrap();
    assert!(out.is_empty());
    assert_eq!(input.events.event_count(), 1);
    assert_eq!(input.changes.parameter_count(), 3);
    let queue = input.changes.parameter_data(0).unwrap();
    assert_eq!(queue.param_id, 1);
    assert_eq!(
        queue.get_point(1),
        Some((4, Amount::Fraction { numerator: 0, denominator: 16383 }))
    );
    assert!(plugin.pending.is_empty());
    let sent = [input.events.get_event(0).unwrap()];
    assert_eq!(Vst3Plugin::end_process(RESULT_OK, &sent, &mut out), ProcessStatus::Continue);
    assert_eq!(out.as_slice(), &[note]);
    assert_eq!(Vst3Plugin::end_process(-1, &sent, &mut out), ProcessStatus::Error);
    assert_eq!(out.len(), 1);
    let plan = plugin.teardown();
    assert!(plan.disconnect && plan.terminate_controller && plan.terminate_component);
    let plan = plugin.deactivate();
    assert!(plan.stop_processing && plan.set_inactive && !plan.terminate_component);
    assert!(!plugin.is_active());
}

#[test]
fn state_calls_report_their_status() {
    let step = |own, event| {
        Vst3Plugin::load_vst3_preset_state(own, -9, event).map_err(|e| e.message())
    };
    assert_eq!(step(false, PresetEvent::ComponentSet(0)), Ok(PresetAction::TellController));
    assert_eq!(
        step(false, PresetEvent::ComponentSet(-9)),
        Err("IComponent::setState returned -9".to_string())
    );
    assert_eq!(step(true, PresetEvent::ControllerTold(-9)), Ok(PresetAction::SetController));
    assert_eq!(step(false, PresetEvent::ControllerTold(0)), Ok(PresetAction::QueueChangedValues));
    assert_eq!(
        step(false, PresetEvent::ControllerTold(1)),
        Err("IEditController::setComponentState returned 1".to_string())
    );
    assert_eq!(step(true, PresetEvent::ControllerSet(-9)), Ok(PresetAction::QueueChangedValues));
    assert_eq!(
        step(true, PresetEvent::ControllerSet(2)),
        Err("IEditController::setState returned 2".to_string())
    );
    let mut plugin = Vst3Plugin::load_from(&info(), BusLayout::stereo(), true, true, 1, false);
    plugin.queue_changed_parameter_values(1, &[Some((5, 0))]).unwrap();
    assert!(plugin.pending.is_empty());
    plugin.queue_changed_parameter_values(PARAM_VALUES_CHANGED, &[Some((5, 0))]).unwrap();
    assert_eq!(plugin.pending, vec![(5, 0)]);
    assert_eq!(Vst3Plugin::save_answered(RESULT_OK, vec![1, 2]).unwrap(), vec![1, 2]);
    assert!(Vst3Plugin::save_answered(7, vec![]).unwrap_err().message().contains('7'));
}

#[test]
fn views_have_sizes() {
    let rect = rect_of_size(640, 480).unwrap();
    assert_eq!(view_size(RESULT_OK, rect), Some((640, 480)));
    assert_eq!(view_size(RESULT_FAILED, rect), None);
    assert_eq!(rect_of_size(u32::MAX, 1), None);
    let flipped = ViewRect { left: 10, top: 0, right: 0, bottom: 5 };
    assert_eq!(view_size(RESULT_OK, flipped), None);
    let counts = block_counts(64, 2, 0);
    assert_eq!((counts.frames, counts.input_channels, counts.inputs), (64, 2, 1));
    assert_eq!((counts.output_channels, counts.outputs), (0, 0));
}

#[test]
fn views_open_step_by_step() {
    let mut plugin =
        Vst3Plugin::load_from(&info(), BusLayout::stereo(), false, false, 0, true);
    assert_eq!(plugin.open_step(OpenEvent::Start).unwrap(), OpenAction::CreateView);
    assert_eq!(plugin.open_step(OpenEvent::ViewCreated(true)).unwrap(), OpenAction::AskPlatform);
    assert!(plugin.open_step(OpenEvent::ViewCreated(false)).is_err());
    assert_eq!(plugin.open_step(OpenEvent::PlatformSupported(0)).unwrap(), OpenAction::Attach);
    assert!(plugin.open_step(OpenEvent::PlatformSupported(1)).is_err());
    assert!(plugin.open_step(OpenEvent::Attached(1)).is_err());
    assert_eq!(plugin.open_step(OpenEvent::Attached(0)).unwrap(), OpenAction::Done);
    assert_eq!(plugin.open_step(OpenEvent::Start).unwrap(), OpenAction::Done);
    assert!(plugin.close_editor());
    assert!(!plugin.close_editor());
}

#[test]
fn vst3_transports_are_reported() {
    let header = build_vst3_context(&TransportFacts {
        has_tempo: true,
        has_beats: true,
        has_bar: false,
        samples: Some(480),
        time_signature: Some((3, u32::MAX)),
        playing: true,
        recording: true,
        loop_active: false,
    });
    assert_eq!(
        header.state,
        STATE_TEMPO_VALID
            | STATE_PROJECT_TIME_MUSIC_VALID
            | STATE_TIME_SIG_VALID
            | STATE_PLAYING
            | STATE_RECORDING
    );
    assert_eq!((header.samples, header.numerator, header.denominator), (480, 3, 4));
}
