//! Errors surfaced by the host.
//!
//! A format-specific status comes back as [`Error::Format`] rather than as a
//! variant of its own, so callers can match on whether anything failed without
//! enumerating the codes of every format.

use crate::state::{FormatId, StateLoadError};
use crate::text;
use vstd::prelude::*;
use vstd::string::StringExecFns;

verus! {

/// Top-level error type.
#[derive(Debug)]
pub enum Error {
    /// Plugin not found at the supplied path or id.
    PluginNotFound(String),
    /// The plugin was found but failed to load.
    LoadFailed {
        /// Path the host tried to load from.
        path: String,
        /// Format-specific reason.
        reason: String,
    },
    /// A plugin call returned a format-specific error code.
    Format {
        /// Short identifier of the format.
        format: &'static str,
        /// Underlying numeric status.
        code: i64,
        /// Human-readable description.
        message: String,
    },
    /// Parameter index out of range.
    InvalidParameter(usize),
    /// Method invoked before activation.
    NotActivated,
    /// State blob failed deserialization.
    StateLoad(StateLoadError),
    /// I/O error during scan or load, as the system describes it.
    Io(String),
    /// Plugin code panicked.
    Panic {
        /// Which callback was running.
        action: &'static str,
        /// Panic payload as a string.
        message: String,
    },
    /// Anything else.
    Other(String),
}

/// An error with its strings as text.
pub enum ErrorView {
    /// Plugin not found.
    PluginNotFound(Seq<char>),
    /// Load failed.
    LoadFailed {
        /// Path.
        path: Seq<char>,
        /// Reason.
        reason: Seq<char>,
    },
    /// Format-specific status.
    Format {
        /// Format.
        format: Seq<char>,
        /// Status.
        code: i64,
        /// Description.
        message: Seq<char>,
    },
    /// Parameter index out of range.
    InvalidParameter(usize),
    /// Not activated.
    NotActivated,
    /// State blob failed deserialization.
    StateLoad(StateLoadError),
    /// I/O error.
    Io(Seq<char>),
    /// Panic.
    Panic {
        /// Callback.
        action: Seq<char>,
        /// Payload.
        message: Seq<char>,
    },
    /// Anything else.
    Other(Seq<char>),
}

impl View for Error {
    type V = ErrorView;

    open spec fn view(&self) -> ErrorView {
        match self {
            Error::PluginNotFound(id) => ErrorView::PluginNotFound(id@),
            Error::LoadFailed { path, reason } => ErrorView::LoadFailed {
                path: path@,
                reason: reason@,
            },
            Error::Format { format, code, message } => ErrorView::Format {
                format: format@,
                code: *code,
                message: message@,
            },
            Error::InvalidParameter(index) => ErrorView::InvalidParameter(*index),
            Error::NotActivated => ErrorView::NotActivated,
            Error::StateLoad(e) => ErrorView::StateLoad(*e),
            Error::Io(message) => ErrorView::Io(message@),
            Error::Panic { action, message } => ErrorView::Panic {
                action: action@,
                message: message@,
            },
            Error::Other(message) => ErrorView::Other(message@),
        }
    }
}

impl FormatId {
    /// The name of the variant.
    pub open spec fn name_spec(self) -> Seq<char> {
        match self {
            FormatId::Unknown => "Unknown"@,
            FormatId::Clap => "Clap"@,
            FormatId::Vst3 => "Vst3"@,
            FormatId::AuV2 => "AuV2"@,
            FormatId::AuV3 => "AuV3"@,
            FormatId::Vst2 => "Vst2"@,
            FormatId::Lv2 => "Lv2"@,
            FormatId::Aax => "Aax"@,
        }
    }

    /// The name of the variant.
    pub fn name(self) -> (name: &'static str)
        ensures
            name@ == self.name_spec(),
    {
        match self {
            FormatId::Unknown => "Unknown",
            FormatId::Clap => "Clap",
            FormatId::Vst3 => "Vst3",
            FormatId::AuV2 => "AuV2",
            FormatId::AuV3 => "AuV3",
            FormatId::Vst2 => "Vst2",
            FormatId::Lv2 => "Lv2",
            FormatId::Aax => "Aax",
        }
    }
}

impl StateLoadError {
    /// The description shown to users.
    pub open spec fn text(self) -> Seq<char> {
        match self {
            StateLoadError::Truncated { expected, actual } =>
                "state blob too short: expected at least "@ + text::decimal(expected as nat)
                    + " bytes, got "@ + text::decimal(actual as nat),
            StateLoadError::BadMagic => "state magic mismatch"@,
            StateLoadError::UnsupportedVersion { found, supported } =>
                "state envelope version "@ + text::decimal(found as nat) + " > supported "@
                    + text::decimal(supported as nat),
            StateLoadError::UnknownFormat { found } => "state format byte "@ + text::decimal(
                found as nat,
            ) + " is unknown"@,
            StateLoadError::LengthMismatch { declared, actual } => "state payload length "@
                + text::decimal(declared as nat) + " != trailing bytes "@ + text::decimal(
                actual as nat,
            ),
            StateLoadError::FormatMismatch { found, expected } =>
                "state format mismatch: payload is "@ + found.name_spec() + ", host expected "@
                    + expected.name_spec(),
        }
    }

    /// The description shown to users.
    #[must_use]
    pub fn message(&self) -> (out: String)
        ensures
            out@ == self.text(),
    {
        match *self {
            StateLoadError::Truncated { expected, actual } => {
                let mut out = String::from_str("state blob too short: expected at least ");
                text::push_decimal(&mut out, expected as u64);
                out.append(" bytes, got ");
                text::push_decimal(&mut out, actual as u64);
                out
            },
            StateLoadError::BadMagic => String::from_str("state magic mismatch"),
            StateLoadError::UnsupportedVersion { found, supported } => {
                let mut out = String::from_str("state envelope version ");
                text::push_decimal(&mut out, found as u64);
                out.append(" > supported ");
                text::push_decimal(&mut out, supported as u64);
                out
            },
            StateLoadError::UnknownFormat { found } => {
                let mut out = String::from_str("state format byte ");
                text::push_decimal(&mut out, found as u64);
                out.append(" is unknown");
                out
            },
            StateLoadError::LengthMismatch { declared, actual } => {
                let mut out = String::from_str("state payload length ");
                text::push_decimal(&mut out, declared as u64);
                out.append(" != trailing bytes ");
                text::push_decimal(&mut out, actual as u64);
                out
            },
            StateLoadError::FormatMismatch { found, expected } => {
                let mut out = String::from_str("state format mismatch: payload is ");
                out.append(found.name());
                out.append(", host expected ");
                out.append(expected.name());
                out
            },
        }
    }
}

impl ErrorView {
    /// The description shown to users.
    pub open spec fn text(self) -> Seq<char> {
        match self {
            ErrorView::PluginNotFound(id) => "plugin not found: "@ + id,
            ErrorView::LoadFailed { path, reason } => "failed to load plugin at "@ + path + ": "@
                + reason,
            ErrorView::Format { format, code, message } => "["@ + format + "] "@ + message
                + " (code "@ + text::signed_decimal(code as int) + ")"@,
            ErrorView::InvalidParameter(index) => "parameter index "@ + text::decimal(index as nat)
                + " out of range"@,
            ErrorView::NotActivated => "plugin not activated"@,
            ErrorView::StateLoad(e) => "state load failed: "@ + e.text(),
            ErrorView::Io(message) => "io error: "@ + message,
            ErrorView::Panic { action, message } => "plugin "@ + action + " panicked: "@ + message,
            ErrorView::Other(message) => message,
        }
    }
}

impl Error {
    /// The description shown to users.
    #[must_use]
    pub fn message(&self) -> (out: String)
        ensures
            out@ == self@.text(),
    {
        match self {
            Error::PluginNotFound(id) => {
                let mut out = String::from_str("plugin not found: ");
                out.append(id.as_str());
                out
            },
            Error::LoadFailed { path, reason } => {
                let mut out = String::from_str("failed to load plugin at ");
                out.append(path.as_str());
                out.append(": ");
                out.append(reason.as_str());
                out
            },
            Error::Format { format, code, message } => {
                let mut out = String::from_str("[");
                out.append(format);
                out.append("] ");
                out.append(message.as_str());
                out.append(" (code ");
                text::push_signed_decimal(&mut out, *code);
                out.append(")");
                out
            },
            Error::InvalidParameter(index) => {
                let mut out = String::from_str("parameter index ");
                text::push_decimal(&mut out, *index as u64);
                out.append(" out of range");
                out
            },
            Error::NotActivated => String::from_str("plugin not activated"),
            Error::StateLoad(e) => {
                let mut out = String::from_str("state load failed: ");
                out.append(e.message().as_str());
                out
            },
            Error::Io(message) => {
                let mut out = String::from_str("io error: ");
                out.append(message.as_str());
                out
            },
            Error::Panic { action, message } => {
                let mut out = String::from_str("plugin ");
                out.append(action);
                out.append(" panicked: ");
                out.append(message.as_str());
                out
            },
            Error::Other(message) => message.clone(),
        }
    }

    /// An error that only describes itself.
    pub fn other(message: &str) -> (error: Error)
        ensures
            error@ == ErrorView::Other(message@),
    {
        Error::Other(String::from_str(message))
    }

    /// No plugin has this id.
    pub fn plugin_not_found(id: &str) -> (error: Error)
        ensures
            error@ == ErrorView::PluginNotFound(id@),
    {
        Error::PluginNotFound(String::from_str(id))
    }

    /// A failure to load from `path`.
    pub fn load_failed(path: &str, reason: &str) -> (error: Error)
        ensures
            error@ == (ErrorView::LoadFailed { path: path@, reason: reason@ }),
    {
        Error::LoadFailed { path: String::from_str(path), reason: String::from_str(reason) }
    }
}

impl From<StateLoadError> for Error {
    fn from(e: StateLoadError) -> (error: Error) {
        Error::StateLoad(e)
    }
}

impl vstd::std_specs::convert::FromSpecImpl<StateLoadError> for Error {
    open spec fn obeys_from_spec() -> bool {
        true
    }

    open spec fn from_spec(e: StateLoadError) -> Error {
        Error::StateLoad(e)
    }
}

/// An error's description names what it is about: the plugin or the file, the reason,
/// the callback, and the text that came with it.
pub proof fn descriptions_name_what_failed(e: ErrorView)
    ensures
        match e {
            ErrorView::PluginNotFound(id) => text::ends_with_text(e.text(), id),
            ErrorView::LoadFailed { path, reason } => text::contains_text(e.text(), path)
                && text::ends_with_text(e.text(), reason) && text::ends_with_text(
                e.text(),
                path + ": "@ + reason,
            ),
            ErrorView::Format { format, code, message } => text::contains_text(e.text(), format)
                && text::contains_text(e.text(), message) && text::contains_text(
                e.text(),
                text::signed_decimal(code as int),
            ),
            ErrorView::InvalidParameter(index) => text::contains_text(
                e.text(),
                text::decimal(index as nat),
            ),
            ErrorView::NotActivated => true,
            ErrorView::StateLoad(s) => text::ends_with_text(e.text(), s.text()),
            ErrorView::Io(message) => text::ends_with_text(e.text(), message),
            ErrorView::Panic { action, message } => text::ends_with_text(
                e.text(),
                action + " panicked: "@ + message,
            ),
            ErrorView::Other(message) => e.text() == message,
        },
{
    match e {
        ErrorView::PluginNotFound(id) => {
            text::texts_are_found_where_they_are("plugin not found: "@, id, Seq::empty());
        },
        ErrorView::LoadFailed { path, reason } => {
            four_parts("failed to load plugin at "@, path, ": "@, reason);
        },
        ErrorView::Format { format, code, message } => {
            seven_parts(
                "["@,
                format,
                "] "@,
                message,
                " (code "@,
                text::signed_decimal(code as int),
                ")"@,
            );
        },
        ErrorView::InvalidParameter(index) => {
            text::texts_are_found_where_they_are(
                "parameter index "@,
                text::decimal(index as nat),
                " out of range"@,
            );
        },
        ErrorView::StateLoad(s) => {
            text::texts_are_found_where_they_are("state load failed: "@, s.text(), Seq::empty());
        },
        ErrorView::Io(message) => {
            text::texts_are_found_where_they_are("io error: "@, message, Seq::empty());
        },
        ErrorView::Panic { action, message } => {
            four_parts("plugin "@, action, " panicked: "@, message);
        },
        _ => {},
    }
}

/// Where the parts of a text of four are found.
proof fn four_parts(a: Seq<char>, b: Seq<char>, c: Seq<char>, d: Seq<char>)
    ensures
        text::contains_text(a + b + c + d, b),
        text::ends_with_text(a + b + c + d, d),
        text::ends_with_text(a + b + c + d, b + c + d),
{
    let whole = a + b + c + d;
    assert(whole.skip(whole.len() - d.len()) =~= d);
    assert(whole.skip(a.len() as int) =~= b + c + d);
    assert(a + b + (c + d) =~= whole);
    text::texts_are_found_where_they_are(a, b, c + d);
}

/// Where every other part of a text of seven is found.
proof fn seven_parts(
    a: Seq<char>,
    b: Seq<char>,
    c: Seq<char>,
    d: Seq<char>,
    e: Seq<char>,
    f: Seq<char>,
    g: Seq<char>,
)
    ensures
        text::contains_text(a + b + c + d + e + f + g, b),
        text::contains_text(a + b + c + d + e + f + g, d),
        text::contains_text(a + b + c + d + e + f + g, f),
{
    let whole = a + b + c + d + e + f + g;
    assert(text::contains_text(whole, b)) by {
        let rest = c + d + e + f + g;
        assert(a + b + rest =~= whole);
        text::texts_are_found_where_they_are(a, b, rest);
    }
    assert(text::contains_text(whole, d)) by {
        let rest = e + f + g;
        assert(a + b + c + d + rest =~= whole);
        text::texts_are_found_where_they_are(a + b + c, d, rest);
    }
    text::texts_are_found_where_they_are(a + b + c + d + e, f, g);
}

/// The description of a state that was refused ends with what was found in place of
/// what was wanted, or with both in the order in which its words name them.
pub proof fn descriptions_name_what_was_found(e: StateLoadError)
    ensures
        match e {
            StateLoadError::Truncated { expected, actual } => text::ends_with_text(
                e.text(),
                text::decimal(expected as nat) + " bytes, got "@ + text::decimal(actual as nat),
            ),
            StateLoadError::BadMagic => true,
            StateLoadError::UnsupportedVersion { found, supported } => text::ends_with_text(
                e.text(),
                text::decimal(found as nat) + " > supported "@ + text::decimal(supported as nat),
            ),
            StateLoadError::UnknownFormat { found } => text::contains_text(
                e.text(),
                text::decimal(found as nat),
            ),
            StateLoadError::LengthMismatch { declared, actual } => text::ends_with_text(
                e.text(),
                text::decimal(declared as nat) + " != trailing bytes "@ + text::decimal(
                    actual as nat,
                ),
            ),
            StateLoadError::FormatMismatch { found, expected } => text::ends_with_text(
                e.text(),
                found.name_spec() + ", host expected "@ + expected.name_spec(),
            ),
        },
{
    match e {
        StateLoadError::Truncated { expected, actual } => {
            four_parts(
                "state blob too short: expected at least "@,
                text::decimal(expected as nat),
                " bytes, got "@,
                text::decimal(actual as nat),
            );
        },
        StateLoadError::UnsupportedVersion { found, supported } => {
            four_parts(
                "state envelope version "@,
                text::decimal(found as nat),
                " > supported "@,
                text::decimal(supported as nat),
            );
        },
        StateLoadError::UnknownFormat { found } => {
            text::texts_are_found_where_they_are(
                "state format byte "@,
                text::decimal(found as nat),
                " is unknown"@,
            );
        },
        StateLoadError::LengthMismatch { declared, actual } => {
            four_parts(
                "state payload length "@,
                text::decimal(declared as nat),
                " != trailing bytes "@,
                text::decimal(actual as nat),
            );
        },
        StateLoadError::FormatMismatch { found, expected } => {
            four_parts(
                "state format mismatch: payload is "@,
                found.name_spec(),
                ", host expected "@,
                expected.name_spec(),
            );
        },
        _ => {},
    }
}

/// No two formats have the same name.
pub proof fn formats_have_different_names(a: FormatId, b: FormatId)
    ensures
        a.name_spec() == b.name_spec() ==> a == b,
{
    reveal_strlit("Unknown");
    reveal_strlit("Clap");
    reveal_strlit("Vst3");
    reveal_strlit("AuV2");
    reveal_strlit("AuV3");
    reveal_strlit("Vst2");
    reveal_strlit("Lv2");
    reveal_strlit("Aax");
    assert("Clap"@[0] == 'C' && "Vst3"@[0] == 'V' && "AuV2"@[0] == 'A' && "AuV3"@[0] == 'A'
        && "Vst2"@[0] == 'V' && "Lv2"@[0] == 'L' && "Aax"@[0] == 'A');
    assert("Vst3"@[3] == '3' && "Vst2"@[3] == '2' && "AuV2"@[3] == '2' && "AuV3"@[3] == '3');
    assert("Unknown"@.len() == 7 && "Clap"@.len() == 4 && "Vst3"@.len() == 4 && "AuV2"@.len() == 4
        && "AuV3"@.len() == 4 && "Vst2"@.len() == 4 && "Lv2"@.len() == 3 && "Aax"@.len() == 3);
}

} // verus!
