use truce_rack::buffer::{AudioBuffer, BusRange};
use truce_rack::bus::{Bus, BusKind, BusLayout, ChannelConfig};
use truce_rack::error::Error;
use truce_rack::events::{Event, EventBody, EventList, MidiData, TransportFlag};
use truce_rack::info::{
    ParameterFlags, PluginCategory, PluginInfo, AUTOMATABLE, BYPASS, ENUMERATED, HIDDEN, READ_ONLY,
};
use truce_rack::render::{assert_state_round_trip, generate, Rendered, RENDER_CHANNELS};
use truce_rack::state::{
    FormatId, StateEnvelope, StateLoadError, ENVELOPE_MAGIC, ENVELOPE_VERSION, HEADER_LEN,
};
use truce_rack::wrapper::{
    extract_panic_msg, run_audio_block, run_audio_block_with, run_callable,
    run_extern_callback_with, Outcome, PanicPayload,
};

// -- state -------------------------------------------------------------------

#[test]
fn round_trip() {
    let payload = b"opaque plugin state bytes";
    let env = StateEnvelope { format: FormatId::Clap, payload };
    let encoded = env.encode();
    let decoded = StateEnvelope::decode(&encoded).expect("decode");
    assert_eq!(decoded.format, FormatId::Clap);
    assert_eq!(decoded.payload, payload);
}

#[test]
fn truncated_header_rejected() {
    let short = b"RK";
    let err = StateEnvelope::decode(short).unwrap_err();
    assert!(matches!(err, StateLoadError::Truncated { .. }));
}

#[test]
fn bad_magic_rejected() {
    let mut buf = b"XXXX".to_vec();
    buf.extend(std::iter::repeat(0u8).take(HEADER_LEN));
    let err = StateEnvelope::decode(&buf).unwrap_err();
    assert!(matches!(err, StateLoadError::BadMagic));
}

#[test]
fn length_mismatch_rejected() {
    let env = StateEnvelope { format: FormatId::Vst3, payload: b"abcd" };
    let mut buf = env.encode();
    buf.push(0xFF);
    let err = StateEnvelope::decode(&buf).unwrap_err();
    assert!(matches!(err, StateLoadError::LengthMismatch { .. }));
}

#[test]
fn envelope_bytes_are_laid_out() {
    let env = StateEnvelope { format: FormatId::Lv2, payload: &[7, 8, 9] };
    let bytes = env.encode();
    assert_eq!(&bytes[..4], &ENVELOPE_MAGIC);
    assert_eq!(&bytes[..4], b"RKST");
    assert_eq!(u16::from_le_bytes([bytes[4], bytes[5]]), ENVELOPE_VERSION);
    assert_eq!(bytes[6], FormatId::Lv2.tag());
    assert_eq!(u32::from_le_bytes([bytes[8], bytes[9], bytes[10], bytes[11]]), 3);
    assert_eq!(&bytes[HEADER_LEN..], &[7, 8, 9]);
    assert_eq!(StateEnvelope::decode(&bytes).unwrap().encode(), bytes);
}

#[test]
fn newer_envelopes_are_rejected() {
    let mut bytes = StateEnvelope { format: FormatId::Clap, payload: b"x" }.encode();
    bytes[4] = 2;
    match StateEnvelope::decode(&bytes).unwrap_err() {
        StateLoadError::UnsupportedVersion { found, supported } => {
            assert_eq!(found, 2);
            assert_eq!(supported, 1);
        }
        other => panic!("{other:?}"),
    }
}

#[test]
fn unknown_formats_are_rejected() {
    let mut bytes = StateEnvelope { format: FormatId::Clap, payload: b"x" }.encode();
    bytes[6] = 200;
    assert!(matches!(
        StateEnvelope::decode(&bytes).unwrap_err(),
        StateLoadError::UnknownFormat { found: 200 }
    ));
}

#[test]
fn format_tags_stay_apart() {
    let all = [
        FormatId::Clap,
        FormatId::Vst3,
        FormatId::AuV2,
        FormatId::AuV3,
        FormatId::Vst2,
        FormatId::Lv2,
        FormatId::Aax,
    ];
    for a in all {
        assert_eq!(FormatId::from_tag(a.tag()), Some(a));
        for b in all {
            assert_eq!(a == b, a.tag() == b.tag());
        }
    }
}

// -- panics -----------------------------------------------------------------

#[test]
fn clean_audio_block_returns_true() {
    let ran = std::cell::Cell::new(false);
    let body = || ran.set(true);
    let (result, line) = run_audio_block("test", "Dummy", Outcome::Returned(body()));
    assert!(result);
    assert!(ran.get());
    assert!(line.is_none());
}

#[test]
fn panicking_audio_block_returns_false() {
    let outcome = Outcome::Panicked(PanicPayload::Literal("boom"));
    let (result, line) = run_audio_block("test", "Dummy", outcome);
    assert!(!result);
    assert_eq!(
        line.as_deref(),
        Some("[truce-rack test] panic in process() for plugin Dummy: boom")
    );
}

#[test]
fn callable_panic_becomes_error() {
    let result: Result<(), Error> =
        run_callable("save_state", Outcome::Panicked(PanicPayload::Literal("oops")));
    match result {
        Err(Error::Panic { action, message }) => {
            assert_eq!(action, "save_state");
            assert_eq!(message, "oops");
        }
        _ => panic!("expected Error::Panic"),
    }
}

#[test]
fn callable_error_propagates() {
    let result: Result<(), Error> = run_callable(
        "save_state",
        Outcome::Returned(Err(Error::Other("plain error".into()))),
    );
    assert!(matches!(result, Err(Error::Other(_))));
}

#[test]
fn fallbacks_replace_panics() {
    assert_eq!(run_audio_block_with("clap", "P", -1, Outcome::Returned(7)), (7, None));
    let (value, line) = run_extern_callback_with(
        "vst3",
        "load_state",
        "P",
        -1,
        Outcome::Panicked(PanicPayload::Text("bad".to_string())),
    );
    assert_eq!(value, -1);
    assert_eq!(line.unwrap(), "[truce-rack vst3] panic in load_state for plugin P: bad");
    assert_eq!(extract_panic_msg(&PanicPayload::Other), "<non-string panic payload>");
}

// -- errors -----------------------------------------------------------------

#[test]
fn errors_describe_themselves() {
    assert_eq!(Error::PluginNotFound("x".into()).message(), "plugin not found: x");
    assert_eq!(
        Error::load_failed("/p", "why").message(),
        "failed to load plugin at /p: why"
    );
    let format = Error::Format { format: "vst3", code: -3, message: "no".into() };
    assert_eq!(format.message(), "[vst3] no (code -3)");
    assert_eq!(Error::InvalidParameter(12).message(), "parameter index 12 out of range");
    assert_eq!(Error::NotActivated.message(), "plugin not activated");
    assert_eq!(
        Error::from(StateLoadError::BadMagic).message(),
        "state load failed: state magic mismatch"
    );
    assert_eq!(Error::Io("gone".into()).message(), "io error: gone");
    let panic = Error::Panic { action: "process", message: "m".into() };
    assert_eq!(panic.message(), "plugin process panicked: m");
    assert_eq!(Error::other("plain").message(), "plain");
}

#[test]
fn state_errors_describe_themselves() {
    let truncated = StateLoadError::Truncated { expected: 12, actual: 2 };
    assert_eq!(truncated.message(), "state blob too short: expected at least 12 bytes, got 2");
    let version = StateLoadError::UnsupportedVersion { found: 9, supported: 1 };
    assert_eq!(version.message(), "state envelope version 9 > supported 1");
    let length = StateLoadError::LengthMismatch { declared: 4, actual: 5 };
    assert_eq!(length.message(), "state payload length 4 != trailing bytes 5");
    let format =
        StateLoadError::FormatMismatch { found: FormatId::Clap, expected: FormatId::Vst3 };
    assert_eq!(
        format.message(),
        "state format mismatch: payload is Clap, host expected Vst3"
    );
    assert_eq!(
        StateLoadError::UnknownFormat { found: 77 }.message(),
        "state format byte 77 is unknown"
    );
}

// -- info -------------------------------------------------------------------

fn info(name: &str) -> PluginInfo {
    PluginInfo {
        name: name.to_string(),
        vendor: "Acme".to_string(),
        version: 65536,
        category: PluginCategory::Instrument,
        path: "/tmp/x".to_string(),
        unique_id: "id".to_string(),
        format: "clap",
        has_editor: false,
        accepts_midi: true,
    }
}

#[test]
fn plugins_describe_themselves() {
    let a = info("Synth");
    assert_eq!(a.describe(), "[clap] Synth \u{2014} Acme (v65536, Instrument)");
    assert_eq!(a.clone().describe(), a.describe());
}

#[test]
fn parameter_flags_hold_their_bits() {
    let flags = ParameterFlags::new(true, false, true, false, true);
    assert_eq!(flags.bits, BYPASS + HIDDEN + ENUMERATED);
    assert!(flags.contains(BYPASS) && flags.contains(HIDDEN) && flags.contains(ENUMERATED));
    assert!(!flags.contains(AUTOMATABLE) && !flags.contains(READ_ONLY));
    assert!(flags.contains(BYPASS | HIDDEN) && !flags.contains(BYPASS | AUTOMATABLE));
    assert!(flags.contains(flags.bits) && flags.contains(0));
    assert!(ParameterFlags { bits: 7 }.contains(3) && !ParameterFlags { bits: 5 }.contains(3));
    assert!(ParameterFlags { bits: 0 }.contains(0));
}

// -- buses ------------------------------------------------------------------

#[test]
fn layouts_count_their_channels() {
    let mono = BusLayout::mono();
    assert_eq!((mono.total_input_channels(), mono.total_output_channels()), (1, 1));
    let stereo = BusLayout::stereo();
    assert_eq!((stereo.total_input_channels(), stereo.total_output_channels()), (2, 2));
    let side = BusLayout::stereo_with_sidechain("Key");
    assert_eq!((side.total_input_channels(), side.total_output_channels()), (4, 2));
    assert_eq!(side.inputs.buses()[1].name, "Key");
    assert_eq!(side.inputs.buses()[1].kind, BusKind::Sidechain);
    assert!(BusLayout::default().inputs.buses().is_empty());
    assert_eq!(ChannelConfig::Surround5_1.count(), 6);
    assert_eq!(ChannelConfig::Surround7_1.count(), 8);
    assert_eq!(ChannelConfig::Discrete(9).count(), 9);
}

#[test]
fn buses_outgrow_their_inline_room() {
    let mut layout = BusLayout::new();
    for i in 0..5 {
        layout.outputs.append_bus(Bus::auxiliary(&format!("Aux {i}"), ChannelConfig::Mono));
    }
    let copy = layout.clone();
    assert_eq!(copy.outputs.buses().len(), 5);
    assert_eq!(copy.outputs.buses()[4].name, "Aux 4");
    assert_eq!(copy.total_output_channels(), 5);
    assert_eq!(Bus::main("M", ChannelConfig::Stereo).kind, BusKind::Main);
}

// -- events -----------------------------------------------------------------

fn note(offset: u32, note: u8) -> Event {
    Event {
        sample_offset: offset,
        body: EventBody::Midi(MidiData::NoteOn { channel: 0, note, velocity: 100 }),
    }
}

#[test]
fn event_lists_keep_their_events() {
    let mut list = EventList::new();
    assert!(list.is_empty());
    for i in 0..40u8 {
        list.push(note(u32::from(i), i));
    }
    assert_eq!(list.len(), 40);
    assert_eq!(list.as_slice()[39], note(39, 39));
    assert_eq!(list.iter().count(), 40);
    let copy = list.clone();
    list.clear();
    assert!(list.is_empty());
    assert_eq!(copy.as_slice()[0], note(0, 0));
    let flag = Event { sample_offset: 3, body: EventBody::TransportFlag(TransportFlag::PlayStart) };
    assert_eq!(EventList::from_slice(&[flag]).as_slice(), &[flag]);
    assert!(EventList::default().is_empty());
}

// -- buffers ----------------------------------------------------------------

#[test]
fn buffers_cut_buses_out_of_channels() {
    let (a, b, c) = ([1.0f32; 2], [2.0f32; 2], [3.0f32; 2]);
    let inputs: Vec<&[f32]> = vec![&a, &b, &c];
    let mut x = [0.0f32; 2];
    let mut y = [0.0f32; 2];
    let mut outputs: Vec<&mut [f32]> = vec![&mut x, &mut y];
    let bus_in = [BusRange::new(0, 2), BusRange::new(2, 1)];
    let bus_out = [BusRange::new(0, 1), BusRange::new(1, 1)];
    {
        let mut buffer = AudioBuffer::new(&inputs, &mut outputs, 2, &bus_in, &bus_out);
        assert_eq!(buffer.num_frames(), 2);
        assert_eq!((buffer.num_input_buses(), buffer.num_output_buses()), (2, 2));
        assert_eq!((buffer.total_input_channels(), buffer.total_output_channels()), (3, 2));
        assert_eq!(buffer.main_inputs().len(), 2);
        assert_eq!(buffer.bus_inputs(1)[0], &[3.0, 3.0]);
        assert_eq!(buffer.all_inputs().len(), 3);
        buffer.bus_outputs(1)[0][0] = 5.0;
        buffer.main_outputs()[0][1] = 6.0;
        assert_eq!(buffer.all_outputs().len(), 2);
    }
    assert_eq!(x, [0.0, 6.0]);
    assert_eq!(y, [5.0, 0.0]);
}

#[test]
fn buses_may_come_in_any_order() {
    let (a, b, c) = ([1.0f32], [2.0f32], [3.0f32]);
    let inputs: Vec<&[f32]> = vec![&a, &b, &c];
    let mut outputs: Vec<&mut [f32]> = Vec::new();
    let bus_in = [BusRange::new(1, 2), BusRange::new(0, 1)];
    let buffer = AudioBuffer::new(&inputs, &mut outputs, 1, &bus_in, &[]);
    assert_eq!(buffer.main_inputs(), &[&[2.0f32][..], &[3.0f32][..]]);
    assert_eq!(buffer.bus_inputs(1), &[&[1.0f32][..]]);
}

#[test]
fn buffers_without_input_buses_have_no_main_inputs() {
    let inputs: Vec<&[f32]> = Vec::new();
    let mut outputs: Vec<&mut [f32]> = Vec::new();
    let buffer = AudioBuffer::new(&inputs, &mut outputs, 0, &[], &[]);
    assert!(buffer.main_inputs().is_empty());
}

// -- rendering --------------------------------------------------------------

#[test]
fn peaks_are_magnitudes() {
    let plane = |samples: &[f32]| samples.iter().map(|s| s.to_bits()).collect::<Vec<u32>>();
    let rendered = Rendered { output: vec![plane(&[0.25, -0.75]), plane(&[0.5, f32::NAN])] };
    assert_eq!(f32::from_bits(rendered.peak()), 0.75);
    assert!(rendered.any_nan());
    let clean = Rendered { output: vec![plane(&[f32::INFINITY, -1.0])] };
    assert_eq!(f32::from_bits(clean.peak()), f32::INFINITY);
    assert!(!clean.any_nan());
    assert_eq!(Rendered { output: Vec::new() }.peak(), 0);
}

#[test]
fn inputs_are_generated_by_channel_and_frame() {
    let planes = generate(RENDER_CHANNELS, 3, |ch, frame| ch as f32 * 10.0 + frame as f32);
    assert_eq!(planes, vec![vec![0.0, 1.0, 2.0], vec![10.0, 11.0, 12.0]]);
}

#[test]
fn state_round_trips_are_compared() {
    assert!(assert_state_round_trip(b"abc", b"abc").is_ok());
    assert_eq!(
        assert_state_round_trip(b"abc", b"ab").unwrap_err().message(),
        "state round-trip mismatch: first 3 bytes, second 2 bytes"
    );
}
