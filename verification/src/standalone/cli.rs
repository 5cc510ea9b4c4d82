//! The command line.
//!
//! Options are taken out of the arguments in a fixed order. The two whose values
//! are no whole numbers, `--seconds` and `--tempo`, are taken out by the caller:
//! `--seconds` between [`begin`] and [`device_options`], and `--tempo` between
//! [`device_options`] and [`transport_options`].

use crate::error::Error;
use crate::standalone::device::{self, ChannelRoute, DeviceConfig, DeviceConfigView};
use crate::standalone::select::{Format, PluginSelector};
use crate::standalone::transport::{self, TransportConfig};
use crate::text;
use pico_args::Arguments;
use vstd::prelude::*;
use vstd::string::StringExecFns;

verus! {

/// The arguments of `pico-args` that have not been taken out yet.
#[verifier::external_type_specification]
#[verifier::external_body]
pub struct ExArguments(Arguments);

/// The arguments that are left, in order; nothing in place of one that is no
/// text.
pub uninterp spec fn arguments(args: Arguments) -> Seq<Option<Seq<char>>>;

/// Whether `key` is a long option.
pub open spec fn is_long(key: Seq<char>) -> bool {
    key.len() > 2 && key[0] == '-' && key[1] == '-'
}

/// Whether `key` is a short option of one letter.
pub open spec fn is_short(key: Seq<char>) -> bool {
    key.len() == 2 && key[0] == '-' && key[1] != '-'
}

/// Where `key` first stands in `args`, or the length of `args`.
pub open spec fn key_index(args: Seq<Option<Seq<char>>>, key: Seq<char>) -> int
    decreases args.len(),
{
    if args.len() == 0 || args[0] == Some(key) {
        0
    } else {
        1 + key_index(args.skip(1), key)
    }
}

/// Whether `key` stands in `args`.
pub open spec fn has_key(args: Seq<Option<Seq<char>>>, key: Seq<char>) -> bool {
    key_index(args, key) < args.len()
}

/// `args` without the first `key`.
pub open spec fn without_key(args: Seq<Option<Seq<char>>>, key: Seq<char>) -> Seq<
    Option<Seq<char>>,
> {
    if has_key(args, key) {
        args.remove(key_index(args, key))
    } else {
        args
    }
}

/// The text after the first `key`, where there is one.
pub open spec fn value_of(args: Seq<Option<Seq<char>>>, key: Seq<char>) -> Option<Seq<char>> {
    let i = key_index(args, key);
    if i + 1 < args.len() {
        args[i + 1]
    } else {
        None
    }
}

/// `args` without the first `key` and what follows it.
pub open spec fn without_pair(args: Seq<Option<Seq<char>>>, key: Seq<char>) -> Seq<
    Option<Seq<char>>,
> {
    args.remove(key_index(args, key)).remove(key_index(args, key))
}

/// `args` without the first `key` and its value, where it has one.
pub open spec fn without_value(args: Seq<Option<Seq<char>>>, key: Seq<char>) -> Seq<
    Option<Seq<char>>,
> {
    if value_of(args, key) is Some {
        without_pair(args, key)
    } else {
        args
    }
}

/// The number after the first `key`, where there is one of 32 bits.
pub open spec fn number_value(args: Seq<Option<Seq<char>>>, key: Seq<char>) -> Option<nat> {
    match value_of(args, key) {
        Some(s) => text::number_up_to(s, 10, u32::MAX as nat),
        None => None,
    }
}

/// `args` without the first `key` and its number, where it has one.
pub open spec fn without_number(args: Seq<Option<Seq<char>>>, key: Seq<char>) -> Seq<
    Option<Seq<char>>,
> {
    if number_value(args, key) is Some {
        without_pair(args, key)
    } else {
        args
    }
}

/// Calls `Arguments::contains` with one long key: it tells whether the key is
/// among the arguments, and takes out the first one.
#[verifier::external_body]
fn contains(args: &mut Arguments, key: &'static str) -> (found: bool)
    requires
        is_long(key@),
    ensures
        found == has_key(arguments(*old(args)), key@),
        arguments(*final(args)) == without_key(arguments(*old(args)), key@),
{
    args.contains(key)
}

/// Calls `Arguments::contains` with a short and a long key: it tells whether
/// either is among the arguments, and takes out the first short one or, where
/// there is none, the first long one.
#[verifier::external_body]
fn contains_either(args: &mut Arguments, short: &'static str, long: &'static str) -> (found: bool)
    requires
        is_short(short@),
        is_long(long@),
    ensures
        found == (has_key(arguments(*old(args)), short@) || has_key(
            arguments(*old(args)),
            long@,
        )),
        arguments(*final(args)) == (if has_key(arguments(*old(args)), short@) {
            without_key(arguments(*old(args)), short@)
        } else {
            without_key(arguments(*old(args)), long@)
        }),
{
    args.contains([short, long])
}

/// Calls `Arguments::opt_value_from_str` for a string: it gives the argument
/// after the first `key`, and takes both out. Where nothing follows the key, or
/// what follows is no text, it fails and leaves the arguments as they are; a
/// failure counts as no value.
#[verifier::external_body]
fn string_option(args: &mut Arguments, key: &'static str) -> (value: Option<String>)
    requires
        is_long(key@),
    ensures
        device::text_of(value) == value_of(arguments(*old(args)), key@),
        arguments(*final(args)) == without_value(arguments(*old(args)), key@),
{
    args.opt_value_from_str(key).unwrap_or(None)
}

/// Calls `Arguments::opt_value_from_str` for a number of 32 bits: it gives the
/// number after the first `key`, and takes both out. Where nothing follows the
/// key, or what follows is no such number, it fails and leaves the arguments as
/// they are; a failure counts as no value.
#[verifier::external_body]
fn number_option(args: &mut Arguments, key: &'static str) -> (value: Option<u32>)
    requires
        is_long(key@),
    ensures
        match value {
            Some(n) => number_value(arguments(*old(args)), key@) == Some(n as nat),
            None => number_value(arguments(*old(args)), key@) is None,
        },
        arguments(*final(args)) == without_number(arguments(*old(args)), key@),
{
    args.opt_value_from_str(key).unwrap_or(None)
}

/// Whether `Debug` shows a character as itself, whatever the platform.
pub open spec fn is_plain(c: char) -> bool {
    ' ' <= c <= '~' && c != '"' && c != '\'' && c != '\\'
}

/// Whether every argument is text of characters that are shown as themselves.
pub open spec fn all_plain(args: Seq<Option<Seq<char>>>) -> bool {
    forall|i: int|
        0 <= i < args.len() ==> (#[trigger] args[i]) is Some && forall|j: int|
            0 <= j < args[i]->0.len() ==> is_plain(#[trigger] args[i]->0[j])
}

/// Plain arguments, each in double quotes, with commas between them.
pub open spec fn in_quotes(args: Seq<Option<Seq<char>>>) -> Seq<char>
    decreases args.len(),
{
    if args.len() == 0 {
        Seq::empty()
    } else {
        in_quotes(args.drop_last()) + (if args.len() == 1 {
            ""@
        } else {
            ", "@
        }) + "\""@ + args.last()->0 + "\""@
    }
}

/// How `Debug` shows a list of plain arguments.
pub open spec fn shown(args: Seq<Option<Seq<char>>>) -> Seq<char> {
    "["@ + in_quotes(args) + "]"@
}

/// Calls `Arguments::finish`: it gives the arguments that were not taken out. Of
/// these it hands on how many there are, and how `Debug` shows their list. How
/// arguments that are not plain are shown depends on the platform, and is not
/// said.
#[verifier::external_body]
fn finish(args: Arguments) -> (left: (usize, String))
    ensures
        left.0 == arguments(args).len(),
        all_plain(arguments(args)) ==> left.1@ == shown(arguments(args)),
{
    let left = args.finish();
    (left.len(), format!("{left:?}"))
}

// ---------------------------------------------------------------------------
// What to do
// ---------------------------------------------------------------------------

/// What the command line asks for.
pub enum Command {
    /// Print the help.
    Help,
    /// List the plugins.
    List,
    /// List the audio devices.
    ListDevices,
    /// Run a plugin.
    Run {
        /// Its format.
        format: Format,
        /// Its id, where given.
        id: Option<String>,
        /// Part of its name, where given.
        name: Option<String>,
    },
    /// Nothing: there is no such format.
    UnknownFormat(String),
}

/// The format that the arguments ask for by its short name.
pub open spec fn format_text(args: Seq<Option<Seq<char>>>) -> Seq<char> {
    match value_of(args, "--format"@) {
        Some(s) => s,
        None => "clap"@,
    }
}

/// The arguments after the format was taken out.
pub open spec fn after_format(args: Seq<Option<Seq<char>>>) -> Seq<Option<Seq<char>>> {
    without_value(args, "--format"@)
}

/// The arguments after the format and the id were taken out.
pub open spec fn after_id(args: Seq<Option<Seq<char>>>) -> Seq<Option<Seq<char>>> {
    without_value(after_format(args), "--id"@)
}

/// The message about a format that does not exist.
pub open spec fn unknown_format_text(format: Seq<char>) -> Seq<char> {
    "error: unknown --format "@ + text::quoted(format) + " (clap, vst3, au, lv2)"@
}

/// The first part of the command line: what it asks for. Help comes before the
/// lists, and the lists before running a plugin. The format is CLAP where none
/// is given.
pub fn begin(args: &mut Arguments) -> (command: Command)
    ensures
        ({
            let before = arguments(*old(args));
            let after = arguments(*final(args));
            let help = has_key(before, "-h"@) || has_key(before, "--help"@);
            let list = has_key(before, "--list"@);
            let devices = has_key(before, "--list-devices"@);
            match command {
                Command::Help => help,
                Command::List => !help && list,
                Command::ListDevices => !help && !list && devices,
                Command::UnknownFormat(message) => !help && !list && !devices && Format::of_text(
                    format_text(before),
                ) is None && message@ == unknown_format_text(format_text(before)),
                Command::Run { format, id, name } => !help && !list && !devices && Format::of_text(
                    format_text(before),
                ) == Some(format) && device::text_of(id) == value_of(
                    after_format(before),
                    "--id"@,
                ) && device::text_of(name) == value_of(after_id(before), "--name"@) && after
                    == without_value(after_id(before), "--name"@),
            }
        }),
{
    proof {
        reveal_strlit("-h");
        reveal_strlit("--help");
        reveal_strlit("--list");
        reveal_strlit("--list-devices");
        reveal_strlit("--format");
        reveal_strlit("--id");
        reveal_strlit("--name");
    }
    if contains_either(args, "-h", "--help") {
        return Command::Help;
    }
    if contains(args, "--list") {
        return Command::List;
    }
    if contains(args, "--list-devices") {
        return Command::ListDevices;
    }
    let format_str = match string_option(args, "--format") {
        Some(s) => s,
        None => String::from_str("clap"),
    };
    let format = match Format::parse(format_str.as_str()) {
        Some(format) => format,
        None => {
            let mut message = String::from_str("error: unknown --format ");
            message.append(text::quote(format_str.as_str()).as_str());
            message.append(" (clap, vst3, au, lv2)");
            return Command::UnknownFormat(message);
        },
    };
    let id = string_option(args, "--id");
    let name = string_option(args, "--name");
    Command::Run { format, id, name }
}

/// How the plugin to run is named. Its id counts before its name; with neither
/// there is nothing to run.
pub open spec fn selector_of(id: Option<String>, name: Option<String>) -> Option<PluginSelector> {
    match (id, name) {
        (Some(id), _) => Some(PluginSelector::Id(id)),
        (None, Some(name)) => Some(PluginSelector::Name(name)),
        (None, None) => None,
    }
}

/// How the plugin to run is named. Its id counts before its name; with neither
/// there is nothing to run.
#[must_use]
pub fn selector(id: Option<String>, name: Option<String>) -> (selector: Option<PluginSelector>)
    ensures
        selector == selector_of(id, name),
{
    match (id, name) {
        (Some(id), _) => Some(PluginSelector::Id(id)),
        (None, Some(name)) => Some(PluginSelector::Name(name)),
        (None, None) => None,
    }
}

// ---------------------------------------------------------------------------
// Window and device
// ---------------------------------------------------------------------------

/// Whether the arguments ask for a window, where one can be opened or not.
pub open spec fn wants_gui(args: Seq<Option<Seq<char>>>, gui_available: bool) -> bool {
    !has_key(args, "--headless"@) && (has_key(args, "--gui"@) || gui_available)
}

/// The arguments after those about the window were taken out.
pub open spec fn after_gui(args: Seq<Option<Seq<char>>>) -> Seq<Option<Seq<char>>> {
    if has_key(args, "--headless"@) {
        without_key(args, "--headless"@)
    } else {
        without_key(args, "--gui"@)
    }
}

/// The arguments after the output device was taken out.
pub open spec fn after_output(args: Seq<Option<Seq<char>>>) -> Seq<Option<Seq<char>>> {
    without_value(args, "--output"@)
}

/// The arguments after the output channels were taken out.
pub open spec fn after_channels(args: Seq<Option<Seq<char>>>) -> Seq<Option<Seq<char>>> {
    without_value(after_output(args), "--output-channels"@)
}

/// The arguments after the sample rate was taken out.
pub open spec fn after_rate(args: Seq<Option<Seq<char>>>) -> Seq<Option<Seq<char>>> {
    without_number(after_channels(args), "--sample-rate"@)
}

/// A number, where there is one.
pub open spec fn as_u32(n: Option<nat>) -> Option<u32> {
    match n {
        Some(n) => Some(n as u32),
        None => None,
    }
}

/// The device choices in the arguments, with this route.
pub open spec fn device_choices(args: Seq<Option<Seq<char>>>, route: ChannelRoute) -> DeviceConfigView {
    DeviceConfigView {
        output_device: value_of(args, "--output"@),
        output_route: route,
        sample_rate: as_u32(number_value(after_channels(args), "--sample-rate"@)),
        buffer_size: as_u32(number_value(after_rate(args), "--buffer"@)),
    }
}

/// The text of the output channels in the arguments.
pub open spec fn channels_text(args: Seq<Option<Seq<char>>>) -> Option<Seq<char>> {
    value_of(after_output(args), "--output-channels"@)
}

/// The route that the arguments ask for.
pub open spec fn route_choice(args: Seq<Option<Seq<char>>>) -> Option<ChannelRoute> {
    match channels_text(args) {
        Some(s) => device::route_of(s),
        None => Some(ChannelRoute::Direct),
    }
}

/// The message about output channels that are none.
pub open spec fn bad_channels_text(spec: Seq<char>) -> Seq<char> {
    "error: --output-channels expects `direct`, a channel like `3`, or a pair like `3-4`, got "@
        + text::quoted(spec)
}

/// The options about the window and the audio device, or what is wrong with
/// them.
pub fn device_options(args: &mut Arguments, gui_available: bool) -> (result: Result<
    (bool, DeviceConfig),
    String,
>)
    ensures
        ({
            let before = after_gui(arguments(*old(args)));
            match result {
                Ok((gui, config)) => gui == wants_gui(arguments(*old(args)), gui_available)
                    && route_choice(before) is Some && config@ == device_choices(
                    before,
                    route_choice(before)->0,
                ) && arguments(*final(args)) == without_number(after_rate(before), "--buffer"@),
                Err(message) => route_choice(before) is None && message@ == bad_channels_text(
                    channels_text(before)->0,
                ),
            }
        }),
{
    proof {
        reveal_strlit("--headless");
        reveal_strlit("--gui");
        reveal_strlit("--output");
        reveal_strlit("--output-channels");
        reveal_strlit("--sample-rate");
        reveal_strlit("--buffer");
    }
    let gui: bool = if contains(args, "--headless") {
        false
    } else {
        contains(args, "--gui") || gui_available
    };
    let output_device = string_option(args, "--output");
    let output_channels = string_option(args, "--output-channels");
    let sample_rate: Option<u32> = number_option(args, "--sample-rate");
    let buffer_size: Option<u32> = number_option(args, "--buffer");
    let output_route = match output_channels {
        Some(spec) => match ChannelRoute::parse(spec.as_str()) {
            Some(route) => route,
            None => {
                let mut message = String::from_str(
                    "error: --output-channels expects `direct`, a channel like `3`, or a pair like `3-4`, got ",
                );
                message.append(text::quote(spec.as_str()).as_str());
                return Err(message);
            },
        },
        None => ChannelRoute::Direct,
    };
    Ok((gui, DeviceConfig { output_device, output_route, sample_rate, buffer_size }))
}

// ---------------------------------------------------------------------------
// Transport
// ---------------------------------------------------------------------------

/// The number of a time signature that `s` writes.
pub open spec fn signature_number(s: Seq<char>) -> Option<nat> {
    text::number_up_to(text::trimmed(s), 10, u32::MAX as nat)
}

/// The time signature that `s` writes: two numbers, neither of them zero, with a
/// slash between them.
pub open spec fn time_sig_of(s: Seq<char>) -> Option<(u32, u32)> {
    let slash = text::index_or_len(s, '/');
    if slash < s.len() {
        match (signature_number(s.take(slash)), signature_number(s.skip(slash + 1))) {
            (Some(n), Some(d)) => if n != 0 && d != 0 {
                Some((n as u32, d as u32))
            } else {
                None
            },
            _ => None,
        }
    } else {
        None
    }
}

/// The time signature that `s` writes, where it writes one.
#[must_use]
pub fn parse_time_sig(s: &str) -> (sig: Option<(u32, u32)>)
    ensures
        sig == time_sig_of(s@),
{
    let chars = text::chars_of(s);
    let (num, den) = text::split_first(chars.as_slice(), '/');
    let den = match den {
        Some(den) => den,
        None => return None,
    };
    match (
        text::parse_number(text::trim(num), 10, u32::MAX as u64),
        text::parse_number(text::trim(den), 10, u32::MAX as u64),
    ) {
        (Some(n), Some(d)) => {
            if n == 0 || d == 0 {
                None
            } else {
                Some((n as u32, d as u32))
            }
        },
        _ => None,
    }
}

/// The arguments after the time signature was taken out.
pub open spec fn after_time_sig(args: Seq<Option<Seq<char>>>) -> Seq<Option<Seq<char>>> {
    without_value(args, "--time-sig"@)
}

/// The arguments after `--paused` was taken out.
pub open spec fn after_paused(args: Seq<Option<Seq<char>>>) -> Seq<Option<Seq<char>>> {
    without_key(after_time_sig(args), "--paused"@)
}

/// The time signature that the arguments ask for.
pub open spec fn time_sig_choice(args: Seq<Option<Seq<char>>>) -> Option<(u32, u32)> {
    match value_of(args, "--time-sig"@) {
        Some(s) => time_sig_of(s),
        None => Some((4u32, 4u32)),
    }
}

/// The message about a time signature that is none.
pub open spec fn bad_time_sig_text(spec: Seq<char>) -> Seq<char> {
    "error: --time-sig expects <numerator>/<denominator>, got "@ + text::quoted(spec)
}

/// The options about the transport, with the tempo whose bit pattern is given,
/// or what is wrong with them.
pub fn transport_options(args: &mut Arguments, tempo_bits: Option<u64>) -> (result: Result<
    TransportConfig,
    String,
>)
    ensures
        ({
            let before = arguments(*old(args));
            match result {
                Ok(config) => time_sig_choice(before) is Some && config == (TransportConfig {
                    enabled: !has_key(after_paused(before), "--no-transport"@),
                    tempo_bits: match tempo_bits {
                        Some(bits) => bits,
                        None => transport::DEFAULT_TEMPO_BITS,
                    },
                    time_sig: time_sig_choice(before)->0,
                    playing: !has_key(after_time_sig(before), "--paused"@),
                }) && arguments(*final(args)) == without_key(
                    after_paused(before),
                    "--no-transport"@,
                ),
                Err(message) => time_sig_choice(before) is None && message@ == bad_time_sig_text(
                    value_of(before, "--time-sig"@)->0,
                ),
            }
        }),
{
    proof {
        reveal_strlit("--time-sig");
        reveal_strlit("--paused");
        reveal_strlit("--no-transport");
    }
    let time_sig = string_option(args, "--time-sig");
    let paused: bool = contains(args, "--paused");
    let no_transport: bool = contains(args, "--no-transport");
    let mut config = TransportConfig::default();
    config.enabled = !no_transport;
    config.playing = !paused;
    if let Some(bits) = tempo_bits {
        config.tempo_bits = bits;
    }
    if let Some(ts) = time_sig {
        match parse_time_sig(ts.as_str()) {
            Some(sig) => {
                config.time_sig = sig;
            },
            None => {
                let mut message = String::from_str(
                    "error: --time-sig expects <numerator>/<denominator>, got ",
                );
                message.append(text::quote(ts.as_str()).as_str());
                return Err(message);
            },
        }
    }
    Ok(config)
}

// ---------------------------------------------------------------------------
// How it ended
// ---------------------------------------------------------------------------

/// The message about arguments that nothing asks for.
pub open spec fn unknown_text(shown: Seq<char>) -> Seq<char> {
    "unknown arguments: "@ + shown
}

/// What `count` arguments that were not taken out, shown as `shown`, mean: none may
/// be left.
pub fn leftover(count: usize, shown: &str) -> (result: Result<(), RunOutcome>)
    ensures
        match result {
            Ok(_) => count == 0,
            Err(outcome) => {
                &&& count > 0
                &&& outcome matches RunOutcome::Misused(message)
                &&& message@ == unknown_text(shown@)
            },
        },
{
    if count == 0 {
        return Ok(());
    }
    let mut message = String::from_str("unknown arguments: ");
    message.append(shown);
    Err(RunOutcome::Misused(message))
}

/// The end of the options: whether all arguments were taken out, or what is wrong.
/// How the message shows arguments that are not plain is left to the platform.
pub fn end(args: Arguments) -> (result: Result<(), RunOutcome>)
    ensures
        match result {
            Ok(_) => arguments(args).len() == 0,
            Err(outcome) => {
                &&& arguments(args).len() > 0
                &&& exit_status(outcome) == 2
                &&& outcome matches RunOutcome::Misused(message)
                &&& exists|s: Seq<char>|
                    message@ == #[trigger] unknown_text(s) && (all_plain(arguments(args)) ==> s
                        == shown(arguments(args)))
            },
        },
{
    let (count, text) = finish(args);
    leftover(count, text.as_str())
}

/// The message about a command line that names no plugin. `prog` is how the
/// program is called.
pub open spec fn usage_text(prog: Seq<char>) -> Seq<char> {
    "usage: "@ + prog + " [--list]\n  "@ + prog
        + " --format <clap|vst3|au|lv2> --id <unique-id> [--headless] [--seconds N]\n  "@ + prog
        + " --format <clap|vst3|au|lv2> --name <substring> [--headless] [--seconds N]"@
}

/// The message about a command line that names no plugin.
#[must_use]
pub fn usage(prog: &str) -> (message: String)
    ensures
        message@ == usage_text(prog@),
{
    let mut message = String::from_str("usage: ");
    message.append(prog);
    message.append(" [--list]\n  ");
    message.append(prog);
    message.append(" --format <clap|vst3|au|lv2> --id <unique-id> [--headless] [--seconds N]\n  ");
    message.append(prog);
    message.append(" --format <clap|vst3|au|lv2> --name <substring> [--headless] [--seconds N]");
    message
}

/// What came of the command line.
#[derive(Debug)]
pub enum RunOutcome {
    /// It was done as asked.
    Done,
    /// It asks for nothing that can be done, with a message.
    Misused(String),
    /// The plugin's format is not part of this build.
    FormatDisabled(Format),
    /// The plugin was not loaded or not run.
    Failed(Error),
}

/// The exit status that reports an outcome: 2 for a misused command line, 1 for a
/// plugin that was not loaded or not run, 0 otherwise.
pub open spec fn exit_status(outcome: RunOutcome) -> i32 {
    match outcome {
        RunOutcome::Done => 0,
        RunOutcome::Misused(_) => 2,
        RunOutcome::FormatDisabled(_) => 2,
        RunOutcome::Failed(_) => 1,
    }
}

/// The message that reports an outcome, where there is anything to say.
pub open spec fn outcome_text(outcome: RunOutcome) -> Option<Seq<char>> {
    match outcome {
        RunOutcome::Done => None,
        RunOutcome::Misused(message) => Some(message@),
        RunOutcome::FormatDisabled(format) => Some(
            "format "@ + format.tag_spec() + " not enabled in this build"@,
        ),
        RunOutcome::Failed(e) => Some("error: "@ + e@.text()),
    }
}

/// The message and the exit status that report what came of the command line.
#[must_use]
pub fn report(outcome: &RunOutcome) -> (report: (Option<String>, i32))
    ensures
        device::text_of(report.0) == outcome_text(*outcome),
        report.1 == exit_status(*outcome),
{
    match outcome {
        RunOutcome::Done => (None, 0),
        RunOutcome::Misused(message) => (Some(message.clone()), 2),
        RunOutcome::FormatDisabled(format) => {
            let mut line = String::from_str("format ");
            line.append(format.tag());
            line.append(" not enabled in this build");
            (Some(line), 2)
        },
        RunOutcome::Failed(e) => {
            let mut line = String::from_str("error: ");
            line.append(e.message().as_str());
            (Some(line), 1)
        },
    }
}

// ---------------------------------------------------------------------------
// What arguments mean
// ---------------------------------------------------------------------------

/// Where a key first stands: it is there, and nowhere before.
proof fn key_index_is_first(args: Seq<Option<Seq<char>>>, key: Seq<char>)
    ensures
        0 <= key_index(args, key) <= args.len(),
        key_index(args, key) < args.len() ==> args[key_index(args, key)] == Some(key),
        forall|i: int| 0 <= i < key_index(args, key) ==> #[trigger] args[i] != Some(key),
    decreases args.len(),
{
    if args.len() > 0 && args[0] != Some(key) {
        let rest = args.skip(1);
        key_index_is_first(rest, key);
        assert forall|i: int| 0 <= i < key_index(args, key) implies #[trigger] args[i] != Some(
            key,
        ) by {
            if i > 0 {
                assert(rest[i - 1] == args[i]);
            }
        }
    }
}

/// A key is found wherever it stands, and the first one is taken out; without it
/// nothing is.
pub proof fn keys_are_taken_out(
    before: Seq<Option<Seq<char>>>,
    key: Seq<char>,
    after: Seq<Option<Seq<char>>>,
)
    requires
        !before.contains(Some(key)),
    ensures
        has_key(before + seq![Some(key)] + after, key),
        without_key(before + seq![Some(key)] + after, key) == before + after,
        !has_key(before, key),
        without_key(before, key) == before,
{
    let args = before + seq![Some(key)] + after;
    key_index_is_first(args, key);
    key_index_is_first(before, key);
    let i = key_index(args, key);
    assert(args[before.len() as int] == Some(key));
    if i < before.len() {
        assert(before[i] == args[i]);
        assert(before.contains(before[i]));
    }
    assert(i == before.len());
    assert(args.remove(i) =~= before + after);
    if key_index(before, key) < before.len() {
        assert(before.contains(before[key_index(before, key)]));
    }
}

/// The value of an option is what stands behind its key, and both are taken out; an
/// option that is not there has no value, nor has one at the very end, and nothing
/// is taken out for it.
pub proof fn values_are_taken_out(
    before: Seq<Option<Seq<char>>>,
    key: Seq<char>,
    value: Seq<char>,
    after: Seq<Option<Seq<char>>>,
)
    requires
        !before.contains(Some(key)),
    ensures
        ({
            let args = before + seq![Some(key), Some(value)] + after;
            &&& value_of(args, key) == Some(value)
            &&& without_value(args, key) == before + after
            &&& number_value(args, key) == text::number_up_to(value, 10, u32::MAX as nat)
            &&& without_number(args, key) == (if text::number_up_to(
                value,
                10,
                u32::MAX as nat,
            ) is Some {
                before + after
            } else {
                args
            })
        }),
        value_of(before, key) is None && without_value(before, key) == before,
        value_of(before.push(Some(key)), key) is None && without_value(before.push(Some(key)), key)
            == before.push(Some(key)),
{
    let args = before + seq![Some(key), Some(value)] + after;
    key_index_is_first(args, key);
    key_index_is_first(before, key);
    key_index_is_first(before.push(Some(key)), key);
    let i = key_index(args, key);
    assert(args[before.len() as int] == Some(key));
    if i < before.len() {
        assert(before[i] == args[i]);
        assert(before.contains(before[i]));
    }
    assert(i == before.len());
    assert(args.remove(i).remove(i) =~= before + after);
    if key_index(before, key) < before.len() {
        assert(before.contains(before[key_index(before, key)]));
    }
    let last = before.push(Some(key));
    let j = key_index(last, key);
    assert(last[before.len() as int] == Some(key));
    if j < before.len() {
        assert(before[j] == last[j]);
        assert(before.contains(before[j]));
    }
    assert(j == before.len());
}

/// A time signature that is written as two numbers with a slash between them is read
/// as these numbers; neither can be 0.
pub proof fn written_time_signatures_are_read(numerator: nat, denominator: nat)
    requires
        numerator <= u32::MAX,
        denominator <= u32::MAX,
    ensures
        time_sig_of(text::decimal(numerator) + seq!['/'] + text::decimal(denominator)) == (if
            numerator > 0 && denominator > 0 {
            Some((numerator as u32, denominator as u32))
        } else {
            None
        }),
        time_sig_of(text::decimal(numerator)) is None,
{
    let n = text::decimal(numerator);
    let d = text::decimal(denominator);
    text::decimals_are_digits(numerator);
    text::decimals_are_digits(denominator);
    text::decimals_stay_as_they_are(numerator);
    text::decimals_stay_as_they_are(denominator);
    let s = n + seq!['/'] + d;
    text::index_or_len_is_first(s, '/');
    text::index_or_len_is_first(n, '/');
    let i = text::index_or_len(s, '/');
    assert(s[n.len() as int] == '/');
    if i == s.len() {
        assert(s.contains(s[n.len() as int]));
    } else if i < n.len() {
        assert(n.contains(n[i]));
    }
    assert(i == n.len());
    assert(s.take(i) =~= n);
    assert(s.skip(i + 1) =~= d);
    if text::index_or_len(n, '/') < n.len() {
        assert(n.contains(n[text::index_or_len(n, '/')]));
    }
}

/// A window is opened where one can be, or where it is asked for, but never where
/// the arguments ask for none.
pub proof fn headless_comes_first(args: Seq<Option<Seq<char>>>, gui_available: bool)
    ensures
        args.contains(Some("--headless"@)) ==> !wants_gui(args, gui_available),
        !args.contains(Some("--headless"@)) && args.contains(Some("--gui"@)) ==> wants_gui(
            args,
            gui_available,
        ),
        !args.contains(Some("--headless"@)) && !args.contains(Some("--gui"@)) ==> wants_gui(
            args,
            gui_available,
        ) == gui_available,
{
    keys_are_contained(args, "--headless"@);
    keys_are_contained(args, "--gui"@);
}

proof fn keys_are_contained(args: Seq<Option<Seq<char>>>, key: Seq<char>)
    ensures
        has_key(args, key) == args.contains(Some(key)),
{
    key_index_is_first(args, key);
    if has_key(args, key) {
        assert(args.contains(args[key_index(args, key)]));
    }
    if args.contains(Some(key)) {
        let i = choose|i: int| 0 <= i < args.len() && args[i] == Some(key);
        if key_index(args, key) == args.len() {
            assert(args[i] != Some(key));
        }
    }
}

/// A plugin is named by its id where that is given, and otherwise by its name; what
/// names it is what was given.
pub proof fn ids_come_before_names(id: Option<String>, name: Option<String>)
    ensures
        selector_of(id, name) is None <==> id is None && name is None,
        id matches Some(s) ==> selector_of(id, name) == Some(PluginSelector::Id(s)),
        id is None ==> (name matches Some(s) ==> selector_of(id, name) == Some(
            PluginSelector::Name(s),
        )),
{
}

/// There is something to say just where the exit status is no success; a failure's
/// message ends with the error's own text.
pub proof fn messages_come_with_a_status(outcome: RunOutcome)
    ensures
        exit_status(outcome) == 0 <==> outcome_text(outcome) is None,
        exit_status(outcome) == 0 <==> outcome is Done,
        exit_status(outcome) == 1 <==> outcome is Failed,
        exit_status(outcome) == 2 <==> outcome is Misused || outcome is FormatDisabled,
        outcome matches RunOutcome::Failed(e) ==> text::ends_with_text(
            outcome_text(outcome)->0,
            e@.text(),
        ),
        outcome matches RunOutcome::FormatDisabled(f) ==> text::contains_text(
            outcome_text(outcome)->0,
            f.tag_spec(),
        ),
{
    match outcome {
        RunOutcome::Failed(e) => {
            text::texts_are_found_where_they_are("error: "@, e@.text(), Seq::empty());
        },
        RunOutcome::FormatDisabled(f) => {
            text::texts_are_found_where_they_are(
                "format "@,
                f.tag_spec(),
                " not enabled in this build"@,
            );
        },
        _ => {},
    }
}

/// Options about the device reach the setting that they are named for.
pub proof fn device_options_reach_their_settings(
    output: Seq<char>,
    channels: Seq<char>,
    rate: nat,
    buffer: nat,
    route: ChannelRoute,
)
    requires
        rate <= u32::MAX,
        buffer <= u32::MAX,
    ensures
        ({
            let args = seq![
                Some("--output"@),
                Some(output),
                Some("--output-channels"@),
                Some(channels),
                Some("--sample-rate"@),
                Some(text::decimal(rate)),
                Some("--buffer"@),
                Some(text::decimal(buffer)),
            ];
            let c = device_choices(args, route);
            &&& c.output_device == Some(output)
            &&& c.output_route == route
            &&& c.sample_rate == Some(rate as u32)
            &&& c.buffer_size == Some(buffer as u32)
            &&& route_choice(args) == device::route_of(channels)
            &&& without_number(after_rate(args), "--buffer"@).len() == 0
        }),
        ({
            let none = Seq::<Option<Seq<char>>>::empty();
            &&& device_choices(none, route).output_device is None
            &&& device_choices(none, route).sample_rate is None
            &&& device_choices(none, route).buffer_size is None
            &&& route_choice(none) == Some(ChannelRoute::Direct)
        }),
{
    let e = Seq::<Option<Seq<char>>>::empty();
    text::decimals_are_digits(rate);
    text::decimals_are_digits(buffer);
    let a3 = seq![Some("--buffer"@), Some(text::decimal(buffer))];
    let a2 = seq![Some("--sample-rate"@), Some(text::decimal(rate))] + a3;
    let a1 = seq![Some("--output-channels"@), Some(channels)] + a2;
    let args = seq![
        Some("--output"@),
        Some(output),
        Some("--output-channels"@),
        Some(channels),
        Some("--sample-rate"@),
        Some(text::decimal(rate)),
        Some("--buffer"@),
        Some(text::decimal(buffer)),
    ];
    assert(args =~= e + seq![Some("--output"@), Some(output)] + a1);
    values_are_taken_out(e, "--output"@, output, a1);
    assert(e + a1 =~= a1);
    assert(a1 =~= e + seq![Some("--output-channels"@), Some(channels)] + a2);
    values_are_taken_out(e, "--output-channels"@, channels, a2);
    assert(e + a2 =~= a2);
    assert(a2 =~= e + seq![Some("--sample-rate"@), Some(text::decimal(rate))] + a3);
    values_are_taken_out(e, "--sample-rate"@, text::decimal(rate), a3);
    assert(e + a3 =~= a3);
    assert(a3 =~= e + seq![Some("--buffer"@), Some(text::decimal(buffer))] + e);
    values_are_taken_out(e, "--buffer"@, text::decimal(buffer), e);
}

/// Options about the plugin reach what they are named for; without a format it is
/// CLAP.
pub proof fn plugin_options_reach_their_settings(format: Seq<char>, id: Seq<char>, name: Seq<char>)
    ensures
        ({
            let args = seq![
                Some("--format"@),
                Some(format),
                Some("--id"@),
                Some(id),
                Some("--name"@),
                Some(name),
            ];
            &&& format_text(args) == format
            &&& value_of(after_format(args), "--id"@) == Some(id)
            &&& value_of(after_id(args), "--name"@) == Some(name)
            &&& without_value(after_id(args), "--name"@).len() == 0
        }),
        Format::of_text(format_text(Seq::empty())) == Some(Format::Clap),
{
    let e = Seq::<Option<Seq<char>>>::empty();
    let a2 = seq![Some("--name"@), Some(name)];
    let a1 = seq![Some("--id"@), Some(id)] + a2;
    let args = seq![
        Some("--format"@),
        Some(format),
        Some("--id"@),
        Some(id),
        Some("--name"@),
        Some(name),
    ];
    assert(args =~= e + seq![Some("--format"@), Some(format)] + a1);
    values_are_taken_out(e, "--format"@, format, a1);
    assert(e + a1 =~= a1);
    assert(a1 =~= e + seq![Some("--id"@), Some(id)] + a2);
    values_are_taken_out(e, "--id"@, id, a2);
    assert(e + a2 =~= a2);
    assert(a2 =~= e + seq![Some("--name"@), Some(name)] + e);
    values_are_taken_out(e, "--name"@, name, e);
    crate::standalone::select::tags_round_trip(Format::Clap);
}

/// Options about the transport reach what they are named for; without them it rolls
/// in four-four time.
pub proof fn transport_options_reach_their_settings(numerator: nat, denominator: nat)
    requires
        0 < numerator <= u32::MAX,
        0 < denominator <= u32::MAX,
    ensures
        ({
            let args = seq![
                Some("--time-sig"@),
                Some(text::decimal(numerator) + seq!['/'] + text::decimal(denominator)),
                Some("--paused"@),
                Some("--no-transport"@),
            ];
            &&& time_sig_choice(args) == Some((numerator as u32, denominator as u32))
            &&& has_key(after_time_sig(args), "--paused"@)
            &&& has_key(after_paused(args), "--no-transport"@)
            &&& without_key(after_paused(args), "--no-transport"@).len() == 0
        }),
        ({
            let none = Seq::<Option<Seq<char>>>::empty();
            &&& time_sig_choice(none) == Some((4u32, 4u32))
            &&& !has_key(after_time_sig(none), "--paused"@)
            &&& !has_key(after_paused(none), "--no-transport"@)
        }),
{
    let e = Seq::<Option<Seq<char>>>::empty();
    let sig = text::decimal(numerator) + seq!['/'] + text::decimal(denominator);
    written_time_signatures_are_read(numerator, denominator);
    let a2 = seq![Some("--no-transport"@)];
    let a1 = seq![Some("--paused"@)] + a2;
    let args = seq![
        Some("--time-sig"@),
        Some(sig),
        Some("--paused"@),
        Some("--no-transport"@),
    ];
    assert(args =~= e + seq![Some("--time-sig"@), Some(sig)] + a1);
    values_are_taken_out(e, "--time-sig"@, sig, a1);
    assert(e + a1 =~= a1);
    assert(a1 =~= e + seq![Some("--paused"@)] + a2);
    keys_are_taken_out(e, "--paused"@, a2);
    assert(e + a2 =~= a2);
    assert(a2 =~= e + seq![Some("--no-transport"@)] + e);
    keys_are_taken_out(e, "--no-transport"@, e);
}

} // verus!
