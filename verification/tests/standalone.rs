use pico_args::Arguments;
use truce_rack::error::Error;
use truce_rack::events::{Event, EventBody, EventList, MidiData};
use truce_rack::info::{PluginCategory, PluginInfo};
use truce_rack::standalone::cli::{
    begin, device_options, end, leftover, parse_time_sig, report, selector, transport_options, usage, Command,
    RunOutcome,
};
use truce_rack::standalone::device::{
    self, block_frames, device_line, find_output_device, name_matches, open_output, prepare_planes,
    resolve_stream_config, ChannelRoute, DeviceConfig, DeviceSettings, OutputChoice,
};
use truce_rack::standalone::keyboard::{
    code_to_midi_note, code_to_octave_shift, Key, KeyAction, Keyboard,
};
use truce_rack::standalone::menu::{
    channel_tag, decode_channel_tag, item_device_name, midi_channel_items, midi_input_items,
    output_channel_items, output_device_items, route_of_tag, TAG_DEFAULT,
};
use truce_rack::standalone::midi::{
    self, choose_ports, parse_midi, receive, MidiChannel, MidiConfig, MidiController, MidiSettings,
};
use truce_rack::standalone::midi_queue::{drain_into, enqueue, MidiQueue};
use truce_rack::standalone::screenshot::{
    capture_size, child_action, direct_capture, find_target, format_single, is_walked,
    parse_single, plugin_label, sanitize, screenshot_file_name, walk_targets, CaptureOutcome,
    ChildAction, ChildState, SingleSpec,
};
use truce_rack::standalone::select::{
    list_line, list_plugins, load_by_selector, Format, PluginSelector,
};
use truce_rack::standalone::transport::{
    self, TransportClock, TransportConfig, TransportSettings, DEFAULT_TEMPO_BITS,
};
use truce_rack::standalone::windowed::{
    dispatch_run, opens_window, state_file_name, AudioController, Runner,
};

// -- device -----------------------------------------------------------------

#[test]
fn parse_routes() {
    assert_eq!(ChannelRoute::parse("direct"), Some(ChannelRoute::Direct));
    assert_eq!(ChannelRoute::parse("all"), Some(ChannelRoute::Direct));
    assert_eq!(ChannelRoute::parse("3"), Some(ChannelRoute::Mono { base: 2 }));
    assert_eq!(ChannelRoute::parse("3-4"), Some(ChannelRoute::Stereo { base: 2 }));
    // Malformed: non-adjacent pair, zero channel, garbage.
    assert_eq!(ChannelRoute::parse("3-5"), None);
    assert_eq!(ChannelRoute::parse("0"), None);
    assert_eq!(ChannelRoute::parse("left"), None);
}

#[test]
fn routes_ignore_case_and_space() {
    assert_eq!(ChannelRoute::parse("  DiRect "), Some(ChannelRoute::Direct));
    assert_eq!(ChannelRoute::parse(" 3 - 4 "), Some(ChannelRoute::Stereo { base: 2 }));
    assert_eq!(ChannelRoute::parse("0-1"), None);
    assert_eq!(ChannelRoute::parse("4-3"), None);
    assert_eq!(ChannelRoute::parse("1-2-3"), None);
    assert_eq!(ChannelRoute::parse("18446744073709551616"), None);
    assert_eq!(ChannelRoute::parse(""), None);
}

#[test]
fn stereo_route_writes_chosen_pair() {
    let bufs = vec![vec![1.0f32; 2], vec![2.0f32; 2]];
    let mut out = vec![0.0f32; 8]; // 2 frames * 4 device channels
    ChannelRoute::Stereo { base: 2 }.write(&mut out, &bufs, 4, 2, 0.0, |a, b| a + b);
    // Frame 0: channels 2,3 carry the plugin pair; 0,1 silent.
    assert_eq!(&out[0..4], &[0.0, 0.0, 1.0, 2.0]);
    assert_eq!(&out[4..8], &[0.0, 0.0, 1.0, 2.0]);
}

#[test]
fn mono_route_folds_down() {
    let bufs = vec![vec![1.0f32; 1], vec![3.0f32; 1]];
    let mut out = vec![0.0f32; 2]; // 1 frame * 2 device channels
    ChannelRoute::Mono { base: 0 }.write(&mut out, &bufs, 2, 1, 0.0, |a, b| a + b);
    assert_eq!(out, vec![4.0, 0.0]);
}

#[test]
fn direct_route_repeats_the_last_channel() {
    let bufs = vec![vec![1, 2], vec![3, 4]];
    let mut out = vec![9; 7];
    ChannelRoute::Direct.write(&mut out, &bufs, 3, 2, 0, |a, b| a + b);
    assert_eq!(out, vec![1, 3, 3, 2, 4, 4, 9]);
    ChannelRoute::Direct.write(&mut out, &[], 3, 2, 0, |a, b| a + b);
    assert_eq!(out, vec![0; 7]);
    let mut out = vec![9; 2];
    ChannelRoute::Mono { base: 5 }.write(&mut out, &bufs, 2, 1, 0, |a, b| a + b);
    assert_eq!(out, vec![0, 0]);
    ChannelRoute::Stereo { base: 1 }.write(&mut out, &bufs, 2, 1, 0, |a, b| a + b);
    assert_eq!(out, vec![0, 1]);
    ChannelRoute::Mono { base: 1 }.write(&mut out, &[vec![7]], 2, 1, 0, |a, b| a + b);
    assert_eq!(out, vec![0, 7]);
}

#[test]
fn device_encode_decode_roundtrips() {
    for route in [
        ChannelRoute::Direct,
        ChannelRoute::Stereo { base: 0 },
        ChannelRoute::Stereo { base: 3 },
        ChannelRoute::Mono { base: 0 },
        ChannelRoute::Mono { base: 5 },
    ] {
        assert_eq!(ChannelRoute::decode(route.encode()), route);
    }
    // Zero is the default, so a freshly-zeroed number is `Direct`.
    assert_eq!(ChannelRoute::decode(0), ChannelRoute::Direct);
}

#[test]
fn live_route_set_get() {
    let mut settings = DeviceSettings::new();
    device::set_live_route(&mut settings, ChannelRoute::Stereo { base: 2 });
    assert_eq!(device::live_route(&settings), ChannelRoute::Stereo { base: 2 });
    device::set_live_route(&mut settings, ChannelRoute::Direct);
    assert_eq!(device::live_route(&settings), ChannelRoute::Direct);
}

#[test]
fn first_device_choices_count() {
    let mut settings = DeviceSettings::new();
    assert_eq!(device::config(&settings).output_device, None);
    let choice = |name: &str, route| DeviceConfig {
        output_device: Some(name.to_string()),
        output_route: route,
        sample_rate: Some(48000),
        buffer_size: None,
    };
    device::set_config(&mut settings, choice("A", ChannelRoute::Mono { base: 1 }));
    device::set_config(&mut settings, choice("B", ChannelRoute::Direct));
    assert_eq!(device::config(&settings).output_device.as_deref(), Some("A"));
    assert_eq!(device::live_route(&settings), ChannelRoute::Mono { base: 1 });
    // The route can be changed all the same, and stays changed.
    device::set_live_route(&mut settings, ChannelRoute::Stereo { base: 2 });
    device::set_config(&mut settings, DeviceConfig::default());
    assert_eq!(device::live_route(&settings), ChannelRoute::Stereo { base: 2 });
}

#[test]
fn devices_are_found_by_part_of_their_name() {
    let names = vec![None, Some("Built-in".to_string()), Some("STRASSE Ä".to_string())];
    assert_eq!(find_output_device(&names, "strasse ä"), Some(2));
    assert_eq!(find_output_device(&names, "BUILT"), Some(1));
    assert_eq!(find_output_device(&names, "none"), None);
    assert!(name_matches("abc", "b"));
    assert!(!name_matches("abc", "B"));
    assert_eq!(open_output(Some("x"), Some(3), false).unwrap(), OutputChoice::Device(3));
    assert_eq!(open_output(None, None, true).unwrap(), OutputChoice::Default);
    assert_eq!(
        open_output(Some("x"), None, true).unwrap_err().message(),
        "no output device matching \"x\""
    );
    assert_eq!(
        open_output(None, None, false).unwrap_err().message(),
        "no default output device"
    );
    assert_eq!(device_line("A", Some("A")), "  A (default)");
    assert_eq!(device_line("A", Some("B")), "  A");
}

#[test]
fn unsupported_rates_fall_back() {
    let mut config = DeviceConfig::default();
    config.sample_rate = Some(96000);
    config.buffer_size = Some(256);
    let fits = resolve_stream_config(&config, 44100, &[(8000, 48000), (88200, 96000)]);
    assert_eq!((fits.sample_rate, fits.buffer_size), (96000, Some(256)));
    assert!(fits.warning.is_none());
    let falls = resolve_stream_config(&config, 44100, &[(8000, 48000)]);
    assert_eq!(falls.sample_rate, 44100);
    assert_eq!(
        falls.warning.unwrap(),
        "[truce-rack-standalone] sample rate 96000 Hz not supported by this device; \
         using default 44100 Hz"
    );
    config.sample_rate = None;
    assert_eq!(resolve_stream_config(&config, 44100, &[]).sample_rate, 44100);
}

#[test]
fn planes_are_silenced() {
    let mut planes = vec![vec![1.0f32, 2.0, 3.0], vec![4.0]];
    prepare_planes(&mut planes, 2, 0.0);
    assert_eq!(planes, vec![vec![0.0, 0.0, 3.0], vec![0.0, 0.0]]);
    assert_eq!(block_frames(9, 2), 4);
    assert_eq!(block_frames(9, 0), 9);
}

// -- MIDI -------------------------------------------------------------------

#[test]
fn parse_channels() {
    assert_eq!(MidiChannel::parse("omni"), Some(MidiChannel::Omni));
    assert_eq!(MidiChannel::parse("all"), Some(MidiChannel::Omni));
    assert_eq!(MidiChannel::parse("1"), Some(MidiChannel::Only(0)));
    assert_eq!(MidiChannel::parse("16"), Some(MidiChannel::Only(15)));
    // Out of range / garbage.
    assert_eq!(MidiChannel::parse("0"), None);
    assert_eq!(MidiChannel::parse("17"), None);
    assert_eq!(MidiChannel::parse("ch1"), None);
}

#[test]
fn accepts_filters_channel_voice_only() {
    let only_3 = MidiChannel::Only(2); // 1-based channel 3
    // Note-on (0x90) on channel 3 passes; channel 1 is dropped.
    assert!(only_3.accepts(0x92));
    assert!(!only_3.accepts(0x90));
    // System messages (clock 0xF8, sysex 0xF0) always pass.
    assert!(only_3.accepts(0xF8));
    assert!(only_3.accepts(0xF0));
    // Omni accepts everything.
    assert!(MidiChannel::Omni.accepts(0x90));
    assert!(MidiChannel::Omni.accepts(0xF8));
}

#[test]
fn midi_encode_decode_roundtrips() {
    assert_eq!(MidiChannel::decode(MidiChannel::Omni.encode()), MidiChannel::Omni);
    for c in 0u8..16 {
        let ch = MidiChannel::Only(c);
        assert_eq!(MidiChannel::decode(ch.encode()), ch);
    }
}

#[test]
fn live_channel_set_get() {
    let mut settings = MidiSettings::new();
    midi::set_live_channel(&mut settings, MidiChannel::Only(4));
    assert_eq!(midi::live_channel(&settings), MidiChannel::Only(4));
    midi::set_live_channel(&mut settings, MidiChannel::Omni);
    assert_eq!(midi::live_channel(&settings), MidiChannel::Omni);
}

#[test]
fn controller_tracks_input_selection() {
    // A non-matching name opens zero ports, but the controller still
    // records the selection the menu would show as checked.
    let mut controller = MidiController::start(&MidiSettings::new());
    controller.set_input(Some("nonexistent-port".into()));
    assert_eq!(controller.input(), Some("nonexistent-port"));
    controller.set_input(None);
    assert_eq!(controller.input(), None);
}

#[test]
fn first_midi_choices_count() {
    let mut settings = MidiSettings::new();
    assert_eq!(midi::config(&settings).channel, MidiChannel::Omni);
    let choice = |input: &str, channel| MidiConfig { input: Some(input.to_string()), channel };
    midi::set_config(&mut settings, choice("A", MidiChannel::Only(3)));
    midi::set_config(&mut settings, choice("B", MidiChannel::Only(5)));
    assert_eq!(midi::config(&settings).input.as_deref(), Some("A"));
    assert_eq!(midi::live_channel(&settings), MidiChannel::Only(3));
    let controller = MidiController::start(&settings);
    assert_eq!(controller.input(), Some("A"));
    controller.set_channel(&mut settings, MidiChannel::Omni);
    assert_eq!(midi::live_channel(&settings), MidiChannel::Omni);
}

#[test]
fn ports_are_chosen_by_part_of_their_name() {
    let names = vec![Some("Keys A".to_string()), None, Some("PADS".to_string())];
    assert_eq!(choose_ports(&names, None).ports, vec![0, 1, 2]);
    assert_eq!(choose_ports(&names, Some("pads")).ports, vec![2]);
    let none = choose_ports(&names, Some("x"));
    assert!(none.ports.is_empty());
    assert_eq!(
        none.warning.unwrap(),
        "[truce-rack-standalone] no MIDI input matching \"x\""
    );
    assert!(choose_ports(&[], None).warning.is_none());
}

#[test]
fn messages_are_filtered_and_read() {
    let mut settings = MidiSettings::new();
    midi::set_live_channel(&mut settings, MidiChannel::Only(1));
    let on = EventBody::Midi(MidiData::NoteOn { channel: 1, note: 60, velocity: 9 });
    assert_eq!(receive(&settings, &[0x91, 60, 9]), Some(on));
    assert_eq!(receive(&settings, &[0x90, 60, 9]), None);
    assert_eq!(receive(&settings, &[]), None);
    assert_eq!(
        parse_midi(&[0x90, 60, 0]),
        Some(EventBody::Midi(MidiData::NoteOff { channel: 0, note: 60, velocity: 0 }))
    );
    assert_eq!(
        receive(&settings, &[0xF8]),
        Some(EventBody::Midi(MidiData::Raw { len: 1, data: [0xF8, 0, 0, 0, 0, 0, 0, 0] }))
    );
    assert_eq!(parse_midi(&[0xF0; 9]), None);
    assert_eq!(
        parse_midi(&[0xE3, 1, 64]),
        Some(EventBody::Midi(MidiData::PitchBend { channel: 3, value: 0x2001 }))
    );
}

#[test]
fn queued_events_keep_their_order() {
    let mut queue = MidiQueue::new();
    let program = |program| EventBody::Midi(MidiData::ProgramChange { channel: 0, program });
    enqueue(&mut queue, program(1));
    enqueue(&mut queue, program(2));
    let mut events = EventList::new();
    events.push(Event { sample_offset: 0, body: program(0) });
    drain_into(&mut queue, &mut events);
    let all: Vec<Event> =
        (0..3).map(|p| Event { sample_offset: 0, body: program(p) }).collect();
    assert_eq!(events.as_slice(), all.as_slice());
    drain_into(&mut queue, &mut events);
    assert_eq!(events.len(), 3);
}

// -- keyboard ---------------------------------------------------------------

#[test]
fn keys_are_notes() {
    assert_eq!(code_to_midi_note(Key::A, 0), Some(60));
    assert_eq!(code_to_midi_note(Key::Semicolon, 0), Some(76));
    assert_eq!(code_to_midi_note(Key::W, -1), Some(49));
    assert_eq!(code_to_midi_note(Key::P, 5), None);
    assert_eq!(code_to_midi_note(Key::A, -6), None);
    assert_eq!(code_to_midi_note(Key::Space, 0), None);
    assert_eq!(code_to_octave_shift(Key::Z), Some(-1));
    assert_eq!(code_to_octave_shift(Key::X), Some(1));
    assert_eq!(code_to_octave_shift(Key::A), None);
}

#[test]
fn keys_do_things() {
    let mut keyboard = Keyboard::new();
    assert_eq!(keyboard.handle_keyboard(Key::S, true, true), KeyAction::SaveState);
    assert_eq!(keyboard.handle_keyboard(Key::O, true, true), KeyAction::LoadState);
    assert_eq!(keyboard.handle_keyboard(Key::Space, true, false), KeyAction::ToggleTransport);
    for _ in 0..5 {
        assert_eq!(keyboard.handle_keyboard(Key::X, true, false), KeyAction::OctaveShift);
    }
    assert_eq!(keyboard.octave_offset, 3);
    assert_eq!(keyboard.handle_keyboard(Key::X, false, false), KeyAction::Ignored);
    assert_eq!(keyboard.handle_keyboard(Key::Z, true, false), KeyAction::OctaveShift);
    assert_eq!(
        keyboard.handle_keyboard(Key::S, true, false),
        KeyAction::Note(EventBody::Midi(MidiData::NoteOn { channel: 0, note: 86, velocity: 102 }))
    );
    assert_eq!(
        keyboard.handle_keyboard(Key::S, false, true),
        KeyAction::Note(EventBody::Midi(MidiData::NoteOff { channel: 0, note: 86, velocity: 0 }))
    );
}

// -- transport --------------------------------------------------------------

#[test]
fn clocks_roll() {
    let mut settings = TransportSettings::new();
    assert_eq!(transport::config(&settings).tempo_bits, 120.0f64.to_bits());
    assert_eq!(DEFAULT_TEMPO_BITS, 120.0f64.to_bits());
    let mut clock = TransportClock::new(&settings);
    assert_eq!(clock.next_block(64).unwrap().song_position_samples, 0);
    assert_eq!(clock.next_block(32).unwrap().song_position_samples, 64);
    let reading = clock.next_block(1).unwrap();
    assert_eq!(reading.song_position_samples, 96);
    assert_eq!(reading.time_signature, (4, 4));
    assert!(reading.playing && !reading.recording && !reading.loop_active);
    let paused = TransportConfig { playing: false, ..TransportConfig::default() };
    transport::set_config(&mut settings, paused);
    transport::set_config(&mut settings, TransportConfig::default());
    let mut clock = TransportClock::new(&settings);
    clock.next_block(64);
    assert_eq!(clock.next_block(64).unwrap().song_position_samples, 0);
    let mut off = TransportSettings::new();
    transport::set_config(
        &mut off,
        TransportConfig { enabled: false, ..TransportConfig::default() },
    );
    assert_eq!(TransportClock::new(&off).next_block(64), None);
}

// -- selection --------------------------------------------------------------

fn plugin(name: &str, id: &str) -> PluginInfo {
    PluginInfo {
        name: name.to_string(),
        vendor: "Acme".to_string(),
        version: 1,
        category: PluginCategory::Effect,
        path: String::new(),
        unique_id: id.to_string(),
        format: "clap",
        has_editor: false,
        accepts_midi: false,
    }
}

#[test]
fn formats_are_named() {
    for format in [Format::Clap, Format::Vst3, Format::Au, Format::Lv2] {
        assert_eq!(Format::parse(format.tag()), Some(format));
        assert_eq!(Format::parse(&format.tag().to_uppercase()), Some(format));
    }
    assert_eq!(Format::parse("vst2"), None);
    assert_eq!(Format::parse(" clap"), None);
    // App extensions are listed, but cannot be asked for.
    assert_eq!(Format::Au3.tag(), "au3");
    assert_eq!(Format::parse("au3"), None);
}

#[test]
fn plugins_are_selected() {
    let all = vec![plugin("Delay", "a"), plugin("Big Reverb", "b"), plugin("Reverb", "c")];
    let id = |s: &str| PluginSelector::Id(s.to_string());
    let name = |s: &str| PluginSelector::Name(s.to_string());
    assert_eq!(load_by_selector(&all, &id("c")).unwrap().name, "Reverb");
    assert!(load_by_selector(&all, &id("Delay")).is_err());
    assert_eq!(load_by_selector(&all, &name("REVERB")).unwrap().unique_id, "b");
    assert_eq!(
        load_by_selector(&all, &name("chorus")).unwrap_err().message(),
        "plugin not found: chorus"
    );
    assert!(load_by_selector(&all, &id("reverb")).is_err());
}

#[test]
fn plugins_are_listed() {
    let list = list_plugins(
        Some(vec![plugin("A", "1"), plugin("B", "2")]),
        None,
        Some(vec![]),
        Some(vec![plugin("C", "3")]),
        Some(vec![plugin("D", "4")]),
    );
    let tags: Vec<(&str, &str)> =
        list.iter().map(|(f, p)| (f.tag(), p.name.as_str())).collect();
    assert_eq!(tags, vec![("clap", "A"), ("clap", "B"), ("lv2", "C"), ("au3", "D")]);
    assert_eq!(list_line(Format::Lv2, &list[2].1), "lv2 Acme C 3 -");
}

// -- command line -----------------------------------------------------------

fn left_over(args: Arguments) -> Vec<String> {
    args.finish().iter().map(|s| s.to_str().unwrap().to_string()).collect()
}

fn args(list: &[&str]) -> Arguments {
    Arguments::from_vec(list.iter().map(|s| (*s).into()).collect())
}

#[test]
fn commands_come_in_order() {
    assert!(matches!(begin(&mut args(&["--list", "-h"])), Command::Help));
    assert!(matches!(begin(&mut args(&["--help"])), Command::Help));
    assert!(matches!(begin(&mut args(&["--list-devices", "--list"])), Command::List));
    assert!(matches!(begin(&mut args(&["--list-devices"])), Command::ListDevices));
    match begin(&mut args(&["--format", "vst2"])) {
        Command::UnknownFormat(message) => {
            assert_eq!(message, "error: unknown --format \"vst2\" (clap, vst3, au, lv2)");
        }
        _ => panic!("expected an unknown format"),
    }
}

#[test]
fn options_are_taken_out() {
    let mut pargs = args(&["--name", "Surge", "--format", "VST3", "left", "--id"]);
    match begin(&mut pargs) {
        Command::Run { format, id, name } => {
            assert_eq!(format, Format::Vst3);
            assert_eq!(id, None);
            assert_eq!(name.as_deref(), Some("Surge"));
            assert!(matches!(selector(id, name), Some(PluginSelector::Name(_))));
        }
        _ => panic!("expected a run"),
    }
    assert_eq!(left_over(pargs), vec!["left", "--id"]);
    assert!(selector(None, None).is_none());
    assert!(matches!(
        selector(Some("i".to_string()), Some("n".to_string())),
        Some(PluginSelector::Id(_))
    ));
    match begin(&mut args(&["--id", "--name", "x"])) {
        Command::Run { id, name, .. } => {
            assert_eq!(id.as_deref(), Some("--name"));
            assert_eq!(name, None);
        }
        _ => panic!("expected a run"),
    }
}

#[test]
fn device_options_are_read() {
    let mut pargs = args(&[
        "--output", "USB", "--output-channels", "3-4", "--sample-rate", "48000", "--buffer", "x",
        "--gui",
    ]);
    let (gui, config) = device_options(&mut pargs, false).unwrap();
    assert!(gui);
    assert_eq!(config.output_device.as_deref(), Some("USB"));
    assert_eq!(config.output_route, ChannelRoute::Stereo { base: 2 });
    assert_eq!(config.sample_rate, Some(48000));
    assert_eq!(config.buffer_size, None);
    assert_eq!(left_over(pargs), vec!["--buffer", "x"]);
    let (gui, config) = device_options(&mut args(&["--headless", "--gui"]), true).unwrap();
    assert!(!gui);
    assert_eq!(config.output_route, ChannelRoute::Direct);
    assert!(device_options(&mut args(&[]), true).unwrap().0);
    assert!(!device_options(&mut args(&[]), false).unwrap().0);
    assert_eq!(
        device_options(&mut args(&["--output-channels", "left"]), true).unwrap_err(),
        "error: --output-channels expects `direct`, a channel like `3`, \
         or a pair like `3-4`, got \"left\""
    );
}

#[test]
fn transport_options_are_read() {
    let mut pargs = args(&["--paused", "--time-sig", "7/8"]);
    let config = transport_options(&mut pargs, Some(140.0f64.to_bits())).unwrap();
    assert_eq!(config.time_sig, (7, 8));
    assert!(config.enabled && !config.playing);
    assert_eq!(f64::from_bits(config.tempo_bits), 140.0);
    assert!(pargs.finish().is_empty());
    let config = transport_options(&mut args(&["--no-transport"]), None).unwrap();
    assert!(!config.enabled && config.playing);
    assert_eq!(config.time_sig, (4, 4));
    assert_eq!(f64::from_bits(config.tempo_bits), 120.0);
    assert_eq!(
        transport_options(&mut args(&["--time-sig", "7"]), None).unwrap_err(),
        "error: --time-sig expects <numerator>/<denominator>, got \"7\""
    );
    assert_eq!(parse_time_sig(" 3 / 4 "), Some((3, 4)));
    assert_eq!(parse_time_sig("0/4"), None);
    assert_eq!(parse_time_sig("3/0"), None);
    assert_eq!(parse_time_sig("3/4/5"), None);
}

// -- menu -------------------------------------------------------------------

#[test]
fn channel_tag_roundtrips() {
    assert_eq!(decode_channel_tag(channel_tag(MidiChannel::Omni)), MidiChannel::Omni);
    for n in 0u8..16 {
        let ch = MidiChannel::Only(n);
        assert_eq!(decode_channel_tag(channel_tag(ch)), ch);
    }
    // Out-of-range tags (and the default sentinel) fall back to omni.
    assert_eq!(decode_channel_tag(99), MidiChannel::Omni);
    assert_eq!(decode_channel_tag(TAG_DEFAULT), MidiChannel::Omni);
}

#[test]
fn menus_offer_what_there_is() {
    let names = vec!["A".to_string(), "B".to_string()];
    let items = output_device_items(&names, Some("B"));
    let labels: Vec<(&str, bool)> =
        items.iter().map(|i| (i.label.as_str(), i.checked)).collect();
    assert_eq!(labels, vec![("System Default", false), ("A", false), ("B", true)]);
    assert_eq!(item_device_name(items[0].tag, Some("System Default".to_string())), None);
    assert_eq!(item_device_name(items[1].tag, Some("A".to_string())).as_deref(), Some("A"));
    let items = output_channel_items(3, ChannelRoute::Mono { base: 1 });
    let labels: Vec<&str> = items.iter().map(|i| i.label.as_str()).collect();
    assert_eq!(
        labels,
        vec![
            "Direct (all channels)",
            "1-2",
            "Channel 1 (mono)",
            "Channel 2 (mono)",
            "Channel 3 (mono)"
        ]
    );
    assert!(items[3].checked);
    assert_eq!(items.iter().filter(|i| i.checked).count(), 1);
    assert_eq!(route_of_tag(items[3].tag), ChannelRoute::Mono { base: 1 });
    assert_eq!(route_of_tag(items[1].tag), ChannelRoute::Stereo { base: 0 });
    assert_eq!(route_of_tag(-1), ChannelRoute::Direct);
    let none = midi_input_items(&[], None);
    assert_eq!(none.len(), 2);
    assert!(none[0].checked && none[0].enabled && !none[1].enabled);
    assert_eq!(none[1].label, "(no MIDI inputs)");
    assert_eq!(midi_input_items(&names, Some("A"))[1].checked, true);
    let channels = midi_channel_items(MidiChannel::Only(15));
    assert_eq!(channels.len(), 17);
    assert_eq!(channels[16].label, "Channel 16");
    assert!(channels[16].checked && !channels[0].checked);
}

// -- screenshots and windows -------------------------------------------------

#[test]
fn names_become_slugs() {
    assert_eq!(sanitize("Surge XT Effects"), "surge-xt-effects");
    assert_eq!(sanitize("A/B..C__d"), "a-b-c-d");
    assert_eq!(sanitize("(Big) Verb!  "), "big-verb");
    assert_eq!(sanitize("\u{00e9}\u{00e8}"), "unnamed");
    assert_eq!(sanitize(""), "unnamed");
    assert_eq!(screenshot_file_name(Format::Au, "AU Delay"), "au-au-delay.png");
    assert_eq!(state_file_name("Surge XT!"), "surge-xt-.state");
}

#[test]
fn captures_are_named_and_watched() {
    let spec = format_single(Format::Au, "aufx:dely:appl");
    assert_eq!(spec, "au:aufx:dely:appl");
    match parse_single(&spec) {
        SingleSpec::Plugin(format, id) => {
            assert_eq!(format, Format::Au);
            assert_eq!(id, "aufx:dely:appl");
        }
        _ => panic!("expected a plugin"),
    }
    assert!(matches!(parse_single("au"), SingleSpec::Malformed));
    assert!(matches!(parse_single("aax:x"), SingleSpec::UnknownFormat(_)));
    assert_eq!(child_action(ChildState::Exited { success: true }), ChildAction::Next);
    assert_eq!(child_action(ChildState::Exited { success: false }), ChildAction::ReportCrash);
    assert_eq!(child_action(ChildState::Running { past_deadline: true }), ChildAction::Kill);
    assert_eq!(child_action(ChildState::Running { past_deadline: false }), ChildAction::Wait);
    assert_eq!(child_action(ChildState::Unknown), ChildAction::ReportFailure);
    assert_eq!(capture_size(None), (640, 480));
    assert_eq!(capture_size(Some((1, 2))), (1, 2));
    assert!(is_walked(None, Format::Au) && !is_walked(Some(Format::Clap), Format::Au));
    assert_eq!(plugin_label(&plugin("N", "1")), "Acme \u{2014} N");
}

#[test]
fn walks_find_their_targets() {
    let clap = vec![plugin("A", "1"), plugin("B", "2")];
    let au = vec![plugin("C", "3"), plugin("D", "3")];
    let all = walk_targets(None, &clap, &[], &au);
    let seen: Vec<(Format, &str, &str)> =
        all.iter().map(|t| (t.format, t.label.as_str(), t.unique_id.as_str())).collect();
    assert_eq!(
        seen,
        vec![
            (Format::Clap, "Acme \u{2014} A", "1"),
            (Format::Clap, "Acme \u{2014} B", "2"),
            (Format::Au, "Acme \u{2014} C", "3"),
            (Format::Au, "Acme \u{2014} D", "3"),
        ]
    );
    assert_eq!(walk_targets(Some(Format::Au), &clap, &[], &au).len(), 2);
    assert!(walk_targets(Some(Format::Lv2), &clap, &[], &au).is_empty());
    assert_eq!(find_target(&au, "3"), Some(0));
    assert_eq!(find_target(&clap, "3"), None);
}

#[test]
fn captures_are_reported() {
    let report = |outcome| direct_capture(Format::Au, "a\"b", "Acme \u{2014} C", &outcome);
    let text = |s: &str| s.to_string();
    assert_eq!(
        report(CaptureOutcome::FormatDisabled),
        (text("[err] au format not enabled in this build"), 2)
    );
    assert_eq!(report(CaptureOutcome::NoMatch), (text("[err] au no match for \"a\\\"b\""), 2));
    assert_eq!(
        report(CaptureOutcome::LoadFailed(text("no"))),
        (text("[err] au load: no"), 1)
    );
    assert_eq!(
        report(CaptureOutcome::NoEditor),
        (text("[skip] au \u{2014} Acme \u{2014} C (no editor)"), 0)
    );
    assert_eq!(
        report(CaptureOutcome::Captured(text("/x.png"))),
        (text("[ok] au \u{2014} Acme \u{2014} C -> /x.png"), 0)
    );
    assert_eq!(
        report(CaptureOutcome::CaptureFailed(text("no"))),
        (text("[err] au \u{2014} Acme \u{2014} C: no"), 1)
    );
}

#[test]
fn runners_are_dispatched() {
    assert_eq!(dispatch_run(false, false, false, true).unwrap(), Runner::Headless);
    assert_eq!(dispatch_run(true, false, true, true).unwrap(), Runner::Windowed);
    assert_eq!(dispatch_run(true, false, true, false).unwrap(), Runner::HeadlessUntilSignal);
    // A number of seconds is run without a window.
    assert_eq!(dispatch_run(true, true, true, true).unwrap(), Runner::Headless);
    assert_eq!(dispatch_run(true, true, true, false).unwrap(), Runner::Headless);
    assert_eq!(dispatch_run(false, true, true, true).unwrap(), Runner::Headless);
    assert!(opens_window(true, false) && !opens_window(true, true) && !opens_window(false, false));
    for seconds_given in [false, true] {
        assert_eq!(
            dispatch_run(true, seconds_given, false, true).unwrap_err().message(),
            "--gui requires the `gui` feature to be enabled at build time"
        );
    }
}

#[test]
fn no_argument_may_be_left() {
    let args = |list: &[&str]| Arguments::from_vec(list.iter().map(|s| s.into()).collect());
    let message = |outcome| match outcome {
        RunOutcome::Misused(message) => message,
        other => panic!("{other:?}"),
    };
    assert!(end(args(&[])).is_ok());
    let mut known = args(&["--list"]);
    assert!(matches!(begin(&mut known), Command::List));
    assert!(end(known).is_ok());
    assert_eq!(
        message(end(args(&["--x", "y"])).unwrap_err()),
        "unknown arguments: [\"--x\", \"y\"]"
    );
    assert!(leftover(0, "[]").is_ok());
    assert_eq!(message(leftover(1, "[z]").unwrap_err()), "unknown arguments: [z]");
}

#[test]
fn exit_statuses_tell_misuse_from_failure() {
    assert_eq!(report(&RunOutcome::Done), (None, 0));
    assert_eq!(
        usage("p"),
        "usage: p [--list]\n  \
         p --format <clap|vst3|au|lv2> --id <unique-id> [--headless] [--seconds N]\n  \
         p --format <clap|vst3|au|lv2> --name <substring> [--headless] [--seconds N]"
    );
    assert_eq!(
        report(&RunOutcome::Misused("unknown arguments".to_string())),
        (Some("unknown arguments".to_string()), 2)
    );
    assert_eq!(
        report(&RunOutcome::FormatDisabled(Format::Au)),
        (Some("format au not enabled in this build".to_string()), 2)
    );
    assert_eq!(
        report(&RunOutcome::Failed(Error::plugin_not_found("x"))),
        (Some("error: plugin not found: x".to_string()), 1)
    );
}

#[test]
fn output_devices_are_switched() {
    let mut audio = AudioController::start(&DeviceSettings::new());
    assert_eq!(audio.device_name(), None);
    audio.opened(0);
    assert_eq!(audio.channels(), 1);
    audio.opened(6);
    audio.started();
    assert!(audio.streaming);
    audio.set_output_device(Some("USB".to_string()));
    assert_eq!(audio.device_name(), Some("USB"));
    assert_eq!(audio.channels(), 6);
    assert!(!audio.streaming);
}
