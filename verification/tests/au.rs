use truce_rack::au::host::{
    alloc_audio_buffer_list, au_param_flags_to_rack, call_answered, component_answered,
    component_to_load, fetch_factory_presets, has_cocoa_ui, instance_answered, parameter_ids,
    parameter_name, parameter_slots, plane_bytes, preset_info, render_input, send_midi, state_step,
    stream_format, AuCall, AuPlugin, Fill, OpenAction, OpenEvent, StateStep, CHANNELS,
};
use truce_rack::au::ids::{
    component_to_info, format_unique_id, four_cc, parse_four_cc, parse_unique_id, scan_types,
    split_name, type_category, AuScanner, ComponentFacts, ComponentId, TYPE_EFFECT, TYPE_MIXER,
    TYPE_MUSIC_DEVICE,
};
use truce_rack::au3::{self, Au3Scanner};
use truce_rack::bus::BusLayout;
use truce_rack::events::{Event, EventBody, EventList, MidiData};
use truce_rack::info::{PluginCategory, AUTOMATABLE, HIDDEN, READ_ONLY};
use truce_rack::plugin::ProcessStatus;

#[test]
fn four_cc_roundtrip() {
    let aufx = u32::from_be_bytes(*b"aufx");
    assert_eq!(four_cc(aufx), "aufx");
    assert_eq!(parse_four_cc("aufx"), Some(aufx));
}

#[test]
fn unique_id_roundtrip() {
    let desc = ComponentId {
        component_type: u32::from_be_bytes(*b"aufx"),
        component_sub_type: u32::from_be_bytes(*b"dely"),
        component_manufacturer: u32::from_be_bytes(*b"appl"),
    };
    let id = format_unique_id(&desc);
    assert_eq!(id, "aufx:dely:appl");
    let parsed = parse_unique_id(&id).unwrap();
    assert_eq!(parsed.component_type, desc.component_type);
    assert_eq!(parsed.component_sub_type, desc.component_sub_type);
    assert_eq!(parsed.component_manufacturer, desc.component_manufacturer);
}

#[test]
fn unprintable_codes_are_hexadecimal() {
    assert_eq!(four_cc(0x0000_00AB), "000000ab");
    assert_eq!(four_cc(u32::from_be_bytes(*b"a:bc")), "613a6263");
    assert_eq!(parse_four_cc("613a6263"), Some(u32::from_be_bytes(*b"a:bc")));
    assert_eq!(parse_four_cc("+0000010"), Some(16));
    assert_eq!(parse_four_cc("abc"), None);
    assert_eq!(parse_four_cc("a cd"), None);
    assert_eq!(parse_four_cc("zzzzzzzz"), None);
    let odd = ComponentId {
        component_type: 1,
        component_sub_type: u32::from_be_bytes(*b"::::"),
        component_manufacturer: u32::MAX,
    };
    assert_eq!(parse_unique_id(&format_unique_id(&odd)), Some(odd));
    assert_eq!(parse_unique_id("aufx:dely"), None);
    assert!(parse_unique_id("aufx:dely:appl:more").is_some());
}

#[test]
fn names_split_at_the_first_break() {
    assert_eq!(split_name("Apple: AUDelay"), ("Apple".into(), "AUDelay".into()));
    assert_eq!(split_name("A: B: C"), ("A".into(), "B: C".into()));
    assert_eq!(split_name("Plain"), (String::new(), "Plain".into()));
    assert_eq!(split_name("No:space"), (String::new(), "No:space".into()));
}

fn facts(is_v3: bool) -> ComponentFacts {
    ComponentFacts {
        id: ComponentId {
            component_type: TYPE_MUSIC_DEVICE,
            component_sub_type: u32::from_be_bytes(*b"samp"),
            component_manufacturer: u32::from_be_bytes(*b"appl"),
        },
        is_v3,
        name: "Apple: Sampler".to_string(),
        version: 3,
    }
}

#[test]
fn registry_entries_go_to_one_scanner() {
    assert_eq!(AuScanner::new(), AuScanner);
    assert_eq!(Au3Scanner::new(), Au3Scanner);
    assert_eq!(scan_types().len(), 6);
    assert_eq!(four_cc(scan_types()[0]), "aufx");
    let v2 = component_to_info(&facts(false), TYPE_MUSIC_DEVICE).unwrap();
    assert_eq!((v2.name.as_str(), v2.vendor.as_str(), v2.format), ("Sampler", "Apple", "au"));
    assert_eq!(v2.unique_id, "aumu:samp:appl");
    assert_eq!(v2.category, PluginCategory::Instrument);
    assert!(v2.accepts_midi);
    assert!(component_to_info(&facts(true), TYPE_MUSIC_DEVICE).is_none());
    assert!(au3::component_to_info(true, &facts(false)).is_none());
    assert!(au3::component_to_info(false, &facts(true)).is_none());
    assert_eq!(au3::component_to_info(true, &facts(true)).unwrap().format, "au3");
    assert_eq!(type_category(TYPE_MIXER), PluginCategory::Tool);
    assert!(!component_to_info(&facts(false), TYPE_EFFECT).unwrap().accepts_midi);
}

#[test]
fn loading_reports_what_failed() {
    let mut info = component_to_info(&facts(false), TYPE_MUSIC_DEVICE).unwrap();
    assert!(component_to_load(&info).is_ok());
    assert_eq!(
        component_answered(&info, false).unwrap_err().message(),
        "plugin not found: aumu:samp:appl"
    );
    assert_eq!(
        instance_answered(&info, -50, true).unwrap_err().message(),
        "failed to load plugin at : AudioComponentInstanceNew failed with OSStatus -50"
    );
    assert!(instance_answered(&info, 0, false).is_ok());
    info.unique_id = "x\"y".to_string();
    assert_eq!(
        component_to_load(&info).unwrap_err().message(),
        "plugin not found: x\"y"
    );
}

#[test]
fn parameters_are_described() {
    assert_eq!(parameter_slots(0, 12), Some(3));
    assert_eq!(parameter_slots(1, 12), None);
    assert_eq!(parameter_slots(0, 0), None);
    assert_eq!(parameter_ids(0, vec![1, 2, 3], 8), vec![1, 2]);
    assert_eq!(parameter_ids(5, vec![1, 2, 3], 8), Vec::<u32>::new());
    let mut array = [0i8; 52];
    array[0] = 71;
    array[1] = 97;
    assert_eq!(parameter_name(None, &array), "Ga");
    assert_eq!(parameter_name(Some("Gain".to_string()), &array), "Gain");
    assert_eq!(au_param_flags_to_rack(false, false).bits, AUTOMATABLE);
    assert_eq!(au_param_flags_to_rack(true, true).bits, READ_ONLY + HIDDEN);
    assert!(has_cocoa_ui(0, 16, 8));
    assert!(!has_cocoa_ui(0, 15, 8));
    assert!(!has_cocoa_ui(1, 16, 8));
}

#[test]
fn presets_are_listed() {
    let listed = vec![Some((4, Some("Warm".to_string()))), None, Some((-1, None))];
    let presets = fetch_factory_presets(&listed);
    assert_eq!(presets.len(), 2);
    assert_eq!(presets[1].index, 2);
    assert_eq!(presets[1].name, "Preset -1");
    let presets = Some(presets);
    assert_eq!(preset_info(&presets, 0).unwrap().name, "Warm");
    assert_eq!(
        preset_info(&presets, 2).unwrap_err().message(),
        "parameter index 2 out of range"
    );
    assert_eq!(
        preset_info(&None, 0).unwrap_err().message(),
        "kAudioUnitProperty_FactoryPresets failed"
    );
}

#[test]
fn failed_calls_name_themselves() {
    let calls = [
        (AuCall::ParameterInfo, "kAudioUnitProperty_ParameterInfo failed: OSStatus -1"),
        (AuCall::GetParameter, "AudioUnitGetParameter failed: OSStatus -1"),
        (AuCall::SetParameter, "AudioUnitSetParameter failed: OSStatus -1"),
        (AuCall::SetPreset, "AudioUnitSetProperty(PresentPreset) failed: OSStatus -1"),
        (AuCall::GetState, "kAudioUnitProperty_ClassInfo failed: OSStatus -1"),
        (AuCall::SetState, "AudioUnitSetProperty(ClassInfo) failed: OSStatus -1"),
        (AuCall::Initialize, "AudioUnitInitialize failed: OSStatus -1"),
        (AuCall::GetCocoaUi, "kAudioUnitProperty_CocoaUI get failed: OSStatus -1"),
    ];
    for (call, message) in calls {
        assert_eq!(call_answered(call, -1, false).unwrap_err().message(), message);
        assert!(call_answered(call, 0, false).is_ok());
    }
    assert!(call_answered(AuCall::GetState, 0, true).is_err());
    assert!(state_step(StateStep::Bytes, true).is_ok());
    assert_eq!(state_step(StateStep::Bytes, false).unwrap_err().message(), "empty AU state");
    assert_eq!(
        state_step(StateStep::Length, false).unwrap_err().message(),
        "CFData length negative"
    );
}

#[test]
fn midi_is_sent_as_three_numbers() {
    let event = |m| Event { sample_offset: 0, body: EventBody::Midi(m) };
    assert_eq!(
        send_midi(&event(MidiData::NoteOn { channel: 17, note: 60, velocity: 200 })),
        Some((0x91, 60, 72))
    );
    assert_eq!(
        send_midi(&event(MidiData::PitchBend { channel: 0, value: 0x2001 })),
        Some((0xE0, 1, 64))
    );
    assert_eq!(
        send_midi(&event(MidiData::Raw { len: 5, data: [0xF0, 1, 2, 3, 4, 0, 0, 0] })),
        Some((0xF0, 1, 2))
    );
    assert_eq!(
        send_midi(&event(MidiData::Raw { len: 1, data: [0xF8, 9, 9, 0, 0, 0, 0, 0] })),
        Some((0xF8, 0, 0))
    );
    assert_eq!(send_midi(&event(MidiData::Raw { len: 0, data: [0; 8] })), None);
    let gesture = Event {
        sample_offset: 0,
        body: EventBody::ParamGesture { param_id: 1, active: true },
    };
    assert_eq!(send_midi(&gesture), None);
}

#[test]
fn units_are_run() {
    let info = component_to_info(&facts(false), TYPE_MUSIC_DEVICE).unwrap();
    let mut plugin = AuPlugin::load_from(&info, vec![10, 20], true);
    assert!(plugin.info.has_editor);
    assert_eq!(plugin.parameter_id(1).unwrap(), 20);
    assert!(plugin.parameter_id(2).is_err());
    let left = Event {
        sample_offset: 0,
        body: EventBody::Midi(MidiData::ProgramChange { channel: 0, program: 1 }),
    };
    let mut output = EventList::from_slice(&[left]);
    assert_eq!(
        plugin.begin_process(2, 2, &mut output).unwrap_err().message(),
        "plugin not activated"
    );
    assert_eq!(output.as_slice(), &[left]);
    assert_eq!(plugin.values_ready().unwrap_err().message(), "plugin not activated");
    assert!(plugin.activate_answered(-1, vec![], BusLayout::stereo()).is_err());
    assert!(!plugin.is_active());
    plugin.activate_answered(0, vec![30], BusLayout::stereo()).unwrap();
    assert_eq!(plugin.parameter_id(0).unwrap(), 30);
    assert!(plugin.values_ready().is_ok());
    let (ins, outs) = plugin.begin_process(1, 3, &mut output).unwrap();
    assert!(output.is_empty());
    assert_eq!(ins, vec![Some(0), None]);
    assert_eq!(outs, vec![Some(0), Some(1)]);
    assert_eq!(
        render_input(&ins, 64, 64, 3),
        vec![Fill::Plane(0), Fill::Silence, Fill::Silence]
    );
    assert_eq!(render_input(&ins, 64, 65, 1), vec![Fill::Silence]);
    assert_eq!(render_input(&ins, 64, 63, 1), vec![Fill::Silence]);
    assert_eq!(plugin.end_process(64, 0), ProcessStatus::Continue);
    assert_eq!(plugin.end_process(64, -1), ProcessStatus::Error);
    assert_eq!(plugin.sample_time, 128);
    assert!(plugin.deactivate());
    assert!(!plugin.deactivate());
    assert_eq!(AuPlugin::max_frames(512), 512);
    assert_eq!(plane_bytes(10), 40);
    assert_eq!(alloc_audio_buffer_list(3, 24, 16).len(), 56);
    assert_eq!(alloc_audio_buffer_list(0, 24, 16), vec![0u8; 24]);
    assert_eq!(stream_format().channels, CHANNELS);
}

#[test]
fn editors_open_step_by_step() {
    let info = component_to_info(&facts(false), TYPE_MUSIC_DEVICE).unwrap();
    let mut plugin = AuPlugin::load_from(&info, vec![], true);
    let start = || OpenEvent::Start { is_ns_view: true, is_null: false };
    assert_eq!(
        plugin.open_step(OpenEvent::Start { is_ns_view: false, is_null: false }).unwrap_err().message(),
        "AU editor requires an NSView parent"
    );
    assert_eq!(
        plugin.open_step(OpenEvent::Start { is_ns_view: true, is_null: true }).unwrap_err().message(),
        "AU editor: parent NSView is null"
    );
    assert_eq!(plugin.open_step(start()).unwrap(), OpenAction::Describe);
    assert_eq!(
        plugin
            .open_step(OpenEvent::Described { status: 0, size: 8, least: 16 })
            .unwrap_err()
            .message(),
        "kAudioUnitProperty_CocoaUI not advertised (status 0, size 8)"
    );
    assert_eq!(
        plugin.open_step(OpenEvent::ClassMissing("V".to_string())).unwrap_err().message(),
        "view factory class not found in bundle: V"
    );
    assert!(plugin.open_step(OpenEvent::ViewRetained(false)).is_err());
    assert!(!plugin.close_editor());
    assert_eq!(plugin.open_step(OpenEvent::ViewRetained(true)).unwrap(), OpenAction::AddView);
    assert_eq!(plugin.open_step(start()).unwrap(), OpenAction::Done);
    assert!(plugin.close_editor());
}
