//! What becomes of a plugin callback that may have panicked.
//!
//! Plugin libraries are written by third parties. A panic in one of their
//! callbacks must not unwind into the host, so callbacks are run where panics
//! are caught. What came of one is an [`Outcome`]; the functions here turn it
//! into a value that the host can go on with, and a line for its log.

use crate::error::{Error, ErrorView};
use crate::text;
use vstd::prelude::*;
use vstd::string::StringExecFns;

verus! {

/// What a panic carried.
pub enum PanicPayload {
    /// A string literal.
    Literal(&'static str),
    /// A string.
    Text(String),
    /// Anything else.
    Other,
}

/// What came of a callback.
pub enum Outcome<R> {
    /// It returned.
    Returned(R),
    /// It panicked.
    Panicked(PanicPayload),
}

/// What a panic says of itself.
pub open spec fn panic_text(payload: PanicPayload) -> Seq<char> {
    match payload {
        PanicPayload::Literal(s) => s@,
        PanicPayload::Text(s) => s@,
        PanicPayload::Other => "<non-string panic payload>"@,
    }
}

/// What a panic says of itself.
#[must_use]
pub fn extract_panic_msg(payload: &PanicPayload) -> (message: &str)
    ensures
        message@ == panic_text(*payload),
{
    match payload {
        PanicPayload::Literal(s) => s,
        PanicPayload::Text(s) => s.as_str(),
        PanicPayload::Other => "<non-string panic payload>",
    }
}

/// The line that reports a panic in `action`.
pub open spec fn report_text(
    format: Seq<char>,
    action: Seq<char>,
    plugin: Seq<char>,
    payload: PanicPayload,
) -> Seq<char> {
    "[truce-rack "@ + format + "] panic in "@ + action + " for plugin "@ + plugin + ": "@
        + panic_text(payload)
}

fn report(format: &str, action: &str, plugin: &str, payload: &PanicPayload) -> (line: String)
    ensures
        line@ == report_text(format@, action@, plugin@, *payload),
{
    let mut line = String::from_str("[truce-rack ");
    line.append(format);
    line.append("] panic in ");
    line.append(action);
    line.append(" for plugin ");
    line.append(plugin);
    line.append(": ");
    line.append(extract_panic_msg(payload));
    line
}

/// Whether a block was processed without a panic, and the line to log where it
/// was not. The caller silences its output then.
#[must_use]
pub fn run_audio_block(format: &str, plugin: &str, outcome: Outcome<()>) -> (result: (
    bool,
    Option<String>,
))
    ensures
        match outcome {
            Outcome::Returned(_) => result.0 && result.1 is None,
            Outcome::Panicked(payload) => !result.0 && (result.1 matches Some(line) && line@
                == report_text(format@, "process()"@, plugin@, payload)),
        },
{
    match outcome {
        Outcome::Returned(_) => (true, None),
        Outcome::Panicked(payload) => (false, Some(report(format, "process()", plugin, &payload))),
    }
}

/// What a block returned, or `fallback` where it panicked, with the line to log.
#[must_use]
pub fn run_audio_block_with<R>(
    format: &str,
    plugin: &str,
    fallback: R,
    outcome: Outcome<R>,
) -> (result: (R, Option<String>))
    ensures
        match outcome {
            Outcome::Returned(value) => result.0 == value && result.1 is None,
            Outcome::Panicked(payload) => result.0 == fallback && (result.1 matches Some(line)
                && line@ == report_text(format@, "process()"@, plugin@, payload)),
        },
{
    run_extern_callback_with(format, "process()", plugin, fallback, outcome)
}

/// What a callback returned, or `fallback` where it panicked, with the line to
/// log, which names the callback.
#[must_use]
pub fn run_extern_callback_with<R>(
    format: &str,
    action: &str,
    plugin: &str,
    fallback: R,
    outcome: Outcome<R>,
) -> (result: (R, Option<String>))
    ensures
        match outcome {
            Outcome::Returned(value) => result.0 == value && result.1 is None,
            Outcome::Panicked(payload) => result.0 == fallback && (result.1 matches Some(line)
                && line@ == report_text(format@, action@, plugin@, payload)),
        },
{
    match outcome {
        Outcome::Returned(value) => (value, None),
        Outcome::Panicked(payload) => (
            fallback,
            Some(report(format, action, plugin, &payload)),
        ),
    }
}

/// What a fallible callback returned, or an error that names it where it
/// panicked.
pub fn run_callable<T>(action: &'static str, outcome: Outcome<Result<T, Error>>) -> (result: Result<
    T,
    Error,
>)
    ensures
        match outcome {
            Outcome::Returned(value) => result == value,
            Outcome::Panicked(payload) => result matches Err(e) && e@ == (ErrorView::Panic {
                action: action@,
                message: panic_text(payload),
            }),
        },
{
    match outcome {
        Outcome::Returned(value) => value,
        Outcome::Panicked(payload) => Err(
            Error::Panic { action, message: String::from_str(extract_panic_msg(&payload)) },
        ),
    }
}

/// The line that reports a panic names the format, the callback and the plugin, in
/// that order, and ends with what the panic says of itself.
pub proof fn reports_name_the_culprit(
    format: Seq<char>,
    action: Seq<char>,
    plugin: Seq<char>,
    payload: PanicPayload,
)
    ensures
        ({
            let line = report_text(format, action, plugin, payload);
            let f = "[truce-rack "@.len();
            let a = f + format.len() + "] panic in "@.len();
            let p = a + action.len() + " for plugin "@.len();
            &&& line.subrange(f as int, (f + format.len()) as int) == format
            &&& line.subrange(a as int, (a + action.len()) as int) == action
            &&& line.subrange(p as int, (p + plugin.len()) as int) == plugin
            &&& text::ends_with_text(line, panic_text(payload))
        }),
        payload matches PanicPayload::Text(s) ==> panic_text(payload) == s@,
        payload matches PanicPayload::Literal(s) ==> panic_text(payload) == s@,
{
    let line = report_text(format, action, plugin, payload);
    let f = "[truce-rack "@.len() as int;
    let a = f + format.len() + "] panic in "@.len();
    let p = a + action.len() + " for plugin "@.len();
    assert(line.subrange(f, f + format.len()) =~= format);
    assert(line.subrange(a, a + action.len()) =~= action);
    assert(line.subrange(p, p + plugin.len()) =~= plugin);
    assert(line.skip(line.len() - panic_text(payload).len()) =~= panic_text(payload));
}

} // verus!
