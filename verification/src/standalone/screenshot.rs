//! Screenshots of plugin editors: their file names, and the walk over all
//! plugins.
//!
//! Each plugin is captured by a process of its own, so that one that crashes or
//! hangs loses only its own picture.

use crate::info::{PluginInfo, PluginInfoView};
use crate::standalone::select::Format;
use crate::text;
use vstd::prelude::*;
use vstd::string::StringExecFns;

verus! {

/// Whether `c` is an ASCII letter or digit.
pub open spec fn is_alphanumeric(c: char) -> bool {
    ('a' <= c <= 'z') || ('A' <= c <= 'Z') || ('0' <= c <= '9')
}

pub(crate) fn alphanumeric(c: char) -> (yes: bool)
    ensures
        yes == is_alphanumeric(c),
{
    ('a' <= c && c <= 'z') || ('A' <= c && c <= 'Z') || ('0' <= c && c <= '9')
}

/// Whether `c` separates words in plugin names.
pub open spec fn is_separator(c: char) -> bool {
    c == ' ' || c == '/' || c == '\\' || c == '.' || c == '_'
}

/// `out` with what `c` becomes in a file name: letters and digits stay, in small
/// letters; separators become one dash; all else is dropped.
pub open spec fn with_char(out: Seq<char>, c: char) -> Seq<char> {
    if is_alphanumeric(c) {
        out.push(text::ascii_lower_char(c))
    } else if is_separator(c) && !(out.len() > 0 && out.last() == '-') {
        out.push('-')
    } else {
        out
    }
}

/// What `name` becomes, dashes at its end included.
pub open spec fn dashed(name: Seq<char>) -> Seq<char>
    decreases name.len(),
{
    if name.len() == 0 {
        Seq::empty()
    } else {
        with_char(dashed(name.drop_last()), name.last())
    }
}

/// `s` without the dashes at its end.
pub open spec fn without_dashes(s: Seq<char>) -> Seq<char>
    decreases s.len(),
{
    if s.len() > 0 && s.last() == '-' {
        without_dashes(s.drop_last())
    } else {
        s
    }
}

/// What `name` becomes as a file name's stem; `unnamed` where nothing is left.
pub open spec fn sanitized(name: Seq<char>) -> Seq<char> {
    let stem = without_dashes(dashed(name));
    if stem.len() == 0 {
        "unnamed"@
    } else {
        stem
    }
}

/// What `name` becomes as a file name's stem.
#[must_use]
pub fn sanitize(name: &str) -> (out: String)
    ensures
        out@ == sanitized(name@),
{
    let chars = text::chars_of(name);
    let mut out: Vec<char> = Vec::new();
    let mut i: usize = 0;
    while i < chars.len()
        invariant
            i <= chars.len(),
            chars@ == name@,
            out@ == dashed(chars@.take(i as int)),
        decreases chars.len() - i,
    {
        proof {
            assert(chars@.take(i + 1).drop_last() =~= chars@.take(i as int));
        }
        let c = chars[i];
        if alphanumeric(c) {
            out.push(text::lower_char(c));
        } else if c == ' ' || c == '/' || c == '\\' || c == '.' || c == '_' {
            let len: usize = out.len();
            if len == 0 || out[len - 1] != '-' {
                out.push('-');
            }
        }
        i += 1;
    }
    assert(chars@.take(i as int) =~= name@);
    let ghost whole = out@;
    while out.len() > 0 && out[out.len() - 1] == '-'
        invariant
            without_dashes(out@) == without_dashes(whole),
        decreases out.len(),
    {
        let _ = out.pop();
    }
    if out.len() == 0 {
        String::from_str("unnamed")
    } else {
        text::string_of(out.as_slice())
    }
}

/// Whether `s` is small letters, digits and single dashes.
pub open spec fn is_slug(s: Seq<char>) -> bool {
    &&& forall|i: int|
        0 <= i < s.len() ==> (is_alphanumeric(#[trigger] s[i]) && !('A' <= s[i] <= 'Z')) || s[i]
            == '-'
    &&& forall|i: int, j: int|
        #![trigger s[i], s[j]]
        0 <= i && j == i + 1 && j < s.len() ==> !(s[i] == '-' && s[j] == '-')
}

proof fn dashed_is_slug(name: Seq<char>)
    ensures
        is_slug(dashed(name)),
    decreases name.len(),
{
    if name.len() > 0 {
        dashed_is_slug(name.drop_last());
        let before = dashed(name.drop_last());
        let after = dashed(name);
        assert forall|i: int, j: int|
            #![trigger after[i], after[j]]
            0 <= i && j == i + 1 && j < after.len() implies !(after[i] == '-' && after[j] == '-') by {
            if j < before.len() {
                assert(after[i] == before[i] && after[j] == before[j]);
            }
        }
        assert forall|i: int| 0 <= i < after.len() implies (is_alphanumeric(#[trigger] after[i])
            && !('A' <= after[i] <= 'Z')) || after[i] == '-' by {
            if i < before.len() {
                assert(after[i] == before[i]);
            }
        }
    }
}

proof fn without_dashes_is_prefix(s: Seq<char>)
    ensures
        without_dashes(s).len() <= s.len(),
        without_dashes(s) == s.take(without_dashes(s).len() as int),
        without_dashes(s).len() > 0 ==> without_dashes(s).last() != '-',
    decreases s.len(),
{
    if s.len() > 0 && s.last() == '-' {
        without_dashes_is_prefix(s.drop_last());
        let n = without_dashes(s).len() as int;
        assert(s.drop_last().take(n) =~= s.take(n));
    } else {
        assert(s.take(s.len() as int) =~= s);
    }
}

/// A sanitized name is never empty, holds nothing but small letters, digits and
/// single dashes, and does not end in a dash.
pub proof fn sanitized_names_are_slugs(name: Seq<char>)
    ensures
        sanitized(name).len() > 0,
        is_slug(sanitized(name)),
        sanitized(name).last() != '-',
{
    reveal_strlit("unnamed");
    dashed_is_slug(name);
    without_dashes_is_prefix(dashed(name));
    let whole = dashed(name);
    let stem = without_dashes(whole);
    assert forall|i: int| 0 <= i < stem.len() implies stem[i] == #[trigger] whole[i] by {
    }
    if stem.len() > 0 {
        assert forall|i: int| 0 <= i < stem.len() implies (is_alphanumeric(#[trigger] stem[i])
            && !('A' <= stem[i] <= 'Z')) || stem[i] == '-' by {
            assert(stem[i] == whole[i]);
        }
        assert forall|i: int, j: int|
            #![trigger stem[i], stem[j]]
            0 <= i && j == i + 1 && j < stem.len() implies !(stem[i] == '-' && stem[j] == '-') by {
            assert(stem[i] == whole[i] && stem[j] == whole[j]);
        }
    }
}

/// A name of small letters and digits stays as it is.
pub proof fn letters_and_digits_stay(name: Seq<char>)
    requires
        name.len() > 0,
        forall|i: int|
            0 <= i < name.len() ==> is_alphanumeric(#[trigger] name[i]) && !('A' <= name[i]
                <= 'Z'),
    ensures
        sanitized(name) == name,
{
    letters_stay(name);
    assert(is_alphanumeric(name[name.len() - 1]));
}

proof fn letters_stay(name: Seq<char>)
    requires
        forall|i: int|
            0 <= i < name.len() ==> is_alphanumeric(#[trigger] name[i]) && !('A' <= name[i]
                <= 'Z'),
    ensures
        dashed(name) == name,
    decreases name.len(),
{
    if name.len() > 0 {
        let shorter = name.drop_last();
        assert forall|i: int| 0 <= i < shorter.len() implies is_alphanumeric(#[trigger] shorter[i])
            && !('A' <= shorter[i] <= 'Z') by {
            assert(shorter[i] == name[i]);
        }
        letters_stay(shorter);
        assert(is_alphanumeric(name[name.len() - 1]));
        assert(dashed(name) =~= name);
    } else {
        assert(dashed(name) =~= name);
    }
}

/// The file name of a screenshot: the format and the plugin's sanitized name.
pub open spec fn file_name_of(format: Format, name: Seq<char>) -> Seq<char> {
    format.tag_spec() + "-"@ + sanitized(name) + ".png"@
}

/// The file name of a screenshot: the format and the plugin's sanitized name.
#[must_use]
pub fn screenshot_file_name(format: Format, name: &str) -> (file: String)
    ensures
        file@ == file_name_of(format, name@),
{
    let mut file = String::from_str(format.tag());
    file.append("-");
    file.append(sanitize(name).as_str());
    file.append(".png");
    file
}

/// The format and the id that `spec` names: what stands before and after its
/// first colon.
pub enum SingleSpec {
    /// A plugin.
    Plugin(Format, String),
    /// There is no colon.
    Malformed,
    /// No format has this short name.
    UnknownFormat(String),
}

/// The format and the id that `spec` names.
#[must_use]
pub fn parse_single(spec: &str) -> (single: SingleSpec)
    ensures
        ({
            let colon = text::index_or_len(spec@, ':');
            match single {
                SingleSpec::Malformed => colon == spec@.len(),
                SingleSpec::UnknownFormat(tag) => colon < spec@.len() && tag@ == spec@.take(colon)
                    && Format::of_text(tag@) is None,
                SingleSpec::Plugin(format, id) => colon < spec@.len() && Format::of_text(
                    spec@.take(colon),
                ) == Some(format) && id@ == spec@.skip(colon + 1),
            }
        }),
{
    let chars = text::chars_of(spec);
    let (tag, id) = text::split_first(chars.as_slice(), ':');
    match id {
        None => SingleSpec::Malformed,
        Some(id) => {
            let tag = text::string_of(tag);
            match Format::parse(tag.as_str()) {
                Some(format) => SingleSpec::Plugin(format, text::string_of(id)),
                None => SingleSpec::UnknownFormat(tag),
            }
        },
    }
}

// ---------------------------------------------------------------------------
// The walk over all plugins
// ---------------------------------------------------------------------------

/// The size of an editor that reports none.
pub const DEFAULT_SIZE: (u32, u32) = (640, 480);

/// The size to capture an editor at.
#[must_use]
pub fn capture_size(reported: Option<(u32, u32)>) -> (size: (u32, u32))
    ensures
        size == (match reported {
            Some(size) => size,
            None => DEFAULT_SIZE,
        }),
{
    match reported {
        Some(size) => size,
        None => DEFAULT_SIZE,
    }
}

/// Whether a format is walked: all are where none is asked for.
pub open spec fn walked(only: Option<Format>, format: Format) -> bool {
    only is None || only == Some(format)
}

/// Whether a format is walked.
#[must_use]
pub fn is_walked(only: Option<Format>, format: Format) -> (yes: bool)
    ensures
        yes == walked(only, format),
{
    match only {
        None => true,
        Some(f) => f == format,
    }
}

/// How a plugin is called in reports.
pub open spec fn label_of(info: PluginInfoView) -> Seq<char> {
    info.vendor + " \u{2014} "@ + info.name
}

/// How a plugin is called in reports.
#[must_use]
pub fn plugin_label(info: &PluginInfo) -> (label: String)
    ensures
        label@ == label_of(info@),
{
    let mut label = info.vendor.clone();
    label.append(" \u{2014} ");
    label.append(info.name.as_str());
    label
}

/// The spec that names a plugin to the process that captures it.
pub open spec fn single_spec(format: Format, id: Seq<char>) -> Seq<char> {
    format.tag_spec() + ":"@ + id
}

/// The spec that names a plugin to the process that captures it.
#[must_use]
pub fn format_single(format: Format, id: &str) -> (spec: String)
    ensures
        spec@ == single_spec(format, id@),
{
    let mut spec = String::from_str(format.tag());
    spec.append(":");
    spec.append(id);
    spec
}

/// The process that captures a plugin is told the format and the id that it was
/// given: the tag holds no colon, so the first one ends it. App extensions are
/// not captured.
pub proof fn single_specs_round_trip(format: Format, id: Seq<char>)
    requires
        format != Format::Au3,
    ensures
        ({
            let spec = single_spec(format, id);
            let colon = text::index_or_len(spec, ':');
            &&& colon < spec.len()
            &&& Format::of_text(spec.take(colon)) == Some(format)
            &&& spec.skip(colon + 1) == id
        }),
{
    reveal_strlit("clap");
    reveal_strlit("vst3");
    reveal_strlit("au");
    reveal_strlit("lv2");
    reveal_strlit(":");
    let tag = format.tag_spec();
    let spec = single_spec(format, id);
    text::index_or_len_is_first(spec, ':');
    let colon = text::index_or_len(spec, ':');
    assert(spec[tag.len() as int] == ':');
    if colon == spec.len() {
        assert(spec.contains(spec[tag.len() as int]));
    }
    assert forall|i: int| 0 <= i < tag.len() implies #[trigger] spec[i] != ':' by {
        assert(spec[i] == tag[i]);
    }
    assert(colon == tag.len());
    assert(spec.take(colon) =~= tag);
    assert(spec.skip(colon + 1) =~= id);
    crate::standalone::select::tags_round_trip(format);
}

/// What is known of the process that captures a plugin.
#[derive(Clone, Copy, PartialEq, Eq, Debug, Structural)]
pub enum ChildState {
    /// It ended.
    Exited {
        /// Whether it reported success.
        success: bool,
    },
    /// It runs.
    Running {
        /// Whether its time is over.
        past_deadline: bool,
    },
    /// Its state could not be learned.
    Unknown,
}

/// What to do about it.
#[derive(Clone, Copy, PartialEq, Eq, Debug, Structural)]
pub enum ChildAction {
    /// Go on to the next plugin.
    Next,
    /// Report that it crashed, and go on.
    ReportCrash,
    /// End it, report that it took too long, and go on.
    Kill,
    /// Wait a little and look again.
    Wait,
    /// Report the failure, and go on.
    ReportFailure,
}

/// What to do about the process that captures a plugin.
pub open spec fn action_on(state: ChildState) -> ChildAction {
    match state {
        ChildState::Exited { success: true } => ChildAction::Next,
        ChildState::Exited { success: false } => ChildAction::ReportCrash,
        ChildState::Running { past_deadline: true } => ChildAction::Kill,
        ChildState::Running { past_deadline: false } => ChildAction::Wait,
        ChildState::Unknown => ChildAction::ReportFailure,
    }
}

/// What to do about the process that captures a plugin.
#[must_use]
pub fn child_action(state: ChildState) -> (action: ChildAction)
    ensures
        action == action_on(state),
{
    match state {
        ChildState::Exited { success } => {
            if success {
                ChildAction::Next
            } else {
                ChildAction::ReportCrash
            }
        },
        ChildState::Running { past_deadline } => {
            if past_deadline {
                ChildAction::Kill
            } else {
                ChildAction::Wait
            }
        },
        ChildState::Unknown => ChildAction::ReportFailure,
    }
}

/// A plugin to capture.
#[derive(Debug)]
pub struct Target {
    /// Its format.
    pub format: Format,
    /// How it is called in reports.
    pub label: String,
    /// Its id.
    pub unique_id: String,
}

/// A plugin to capture.
pub struct TargetView {
    /// Its format.
    pub format: Format,
    /// How it is called in reports.
    pub label: Seq<char>,
    /// Its id.
    pub unique_id: Seq<char>,
}

impl View for Target {
    type V = TargetView;

    open spec fn view(&self) -> TargetView {
        TargetView { format: self.format, label: self.label@, unique_id: self.unique_id@ }
    }
}

/// The targets as they are viewed.
pub open spec fn target_views(targets: Seq<Target>) -> Seq<TargetView> {
    Seq::new(targets.len(), |i: int| targets[i]@)
}

/// What is captured of the plugins that scanning one format found.
pub open spec fn targets_of(only: Option<Format>, format: Format, found: Seq<PluginInfo>) -> Seq<
    TargetView,
> {
    if walked(only, format) {
        Seq::new(
            found.len(),
            |i: int|
                TargetView { format, label: label_of(found[i]@), unique_id: found[i]@.unique_id },
        )
    } else {
        Seq::empty()
    }
}

/// Appends what is captured of the plugins that scanning one format found.
fn append_targets(
    targets: &mut Vec<Target>,
    only: Option<Format>,
    format: Format,
    found: &[PluginInfo],
)
    ensures
        target_views(final(targets)@) == target_views(old(targets)@) + targets_of(
            only,
            format,
            found@,
        ),
{
    let ghost first = targets@;
    if is_walked(only, format) {
        let mut i: usize = 0;
        while i < found.len()
            invariant
                i <= found.len(),
                walked(only, format),
                target_views(targets@) == target_views(first) + targets_of(
                    only,
                    format,
                    found@,
                ).take(i as int),
            decreases found.len() - i,
        {
            let info = &found[i];
            let ghost before = targets@;
            targets.push(
                Target { format, label: plugin_label(info), unique_id: info.unique_id.clone() },
            );
            i += 1;
            assert(target_views(targets@) =~= target_views(first) + targets_of(
                only,
                format,
                found@,
            ).take(i as int)) by {
                assert(target_views(targets@) =~= target_views(before).push(
                    targets@[targets@.len() - 1]@,
                ));
            }
        }
        assert(targets_of(only, format, found@).take(i as int) =~= targets_of(
            only,
            format,
            found@,
        ));
    } else {
        assert(target_views(targets@) =~= target_views(first) + targets_of(only, format, found@));
    }
}

/// The plugins to capture of those that scanning found: CLAP, VST3, Audio Unit.
#[must_use]
pub fn walk_targets(
    only: Option<Format>,
    clap: &[PluginInfo],
    vst3: &[PluginInfo],
    au: &[PluginInfo],
) -> (targets: Vec<Target>)
    ensures
        target_views(targets@) == targets_of(only, Format::Clap, clap@) + targets_of(
            only,
            Format::Vst3,
            vst3@,
        ) + targets_of(only, Format::Au, au@),
{
    let mut targets: Vec<Target> = Vec::new();
    append_targets(&mut targets, only, Format::Clap, clap);
    append_targets(&mut targets, only, Format::Vst3, vst3);
    append_targets(&mut targets, only, Format::Au, au);
    assert(target_views(targets@) =~= targets_of(only, Format::Clap, clap@) + targets_of(
        only,
        Format::Vst3,
        vst3@,
    ) + targets_of(only, Format::Au, au@));
    targets
}

/// Every plugin that a walk over one format captures can be found again by its
/// id among the plugins of that format.
pub proof fn targets_can_be_found(only: Option<Format>, format: Format, found: Seq<PluginInfo>)
    ensures
        forall|i: int|
            #![trigger targets_of(only, format, found)[i]]
            0 <= i < targets_of(only, format, found).len() ==> exists|j: int|
                0 <= j < found.len() && (#[trigger] found[j])@.unique_id == targets_of(
                    only,
                    format,
                    found,
                )[i].unique_id,
{
    assert forall|i: int| 0 <= i < targets_of(only, format, found).len() implies exists|j: int|
        0 <= j < found.len() && (#[trigger] found[j])@.unique_id == (
        #[trigger] targets_of(only, format, found)[i]).unique_id by {
        assert(found[i]@.unique_id == targets_of(only, format, found)[i].unique_id);
    }
}

/// The first plugin with this id.
#[must_use]
pub fn find_target(entries: &[PluginInfo], unique_id: &str) -> (found: Option<usize>)
    ensures
        match found {
            Some(i) => i < entries@.len() && entries@[i as int]@.unique_id == unique_id@
                && forall|j: int| 0 <= j < i ==> (#[trigger] entries@[j])@.unique_id != unique_id@,
            None => forall|j: int|
                0 <= j < entries@.len() ==> (#[trigger] entries@[j])@.unique_id != unique_id@,
        },
{
    let mut i: usize = 0;
    while i < entries.len()
        invariant
            i <= entries.len(),
            forall|j: int| 0 <= j < i ==> (#[trigger] entries@[j])@.unique_id != unique_id@,
        decreases entries.len() - i,
    {
        if text::same_str(entries[i].unique_id.as_str(), unique_id) {
            return Some(i);
        }
        i += 1;
    }
    None
}

/// What came of capturing one plugin.
pub enum CaptureOutcome {
    /// Its format is not part of this build.
    FormatDisabled,
    /// No plugin has its id.
    NoMatch,
    /// It was not loaded, with a description.
    LoadFailed(String),
    /// It has no editor.
    NoEditor,
    /// Its editor was captured to this file.
    Captured(String),
    /// Its editor was not captured, with a description.
    CaptureFailed(String),
}

/// The exit status that reports an outcome: 2 where there is nothing to capture,
/// 1 where capturing failed, 0 otherwise.
pub open spec fn exit_status(outcome: CaptureOutcome) -> i32 {
    match outcome {
        CaptureOutcome::FormatDisabled => 2,
        CaptureOutcome::NoMatch => 2,
        CaptureOutcome::LoadFailed(_) => 1,
        CaptureOutcome::NoEditor => 0,
        CaptureOutcome::Captured(_) => 0,
        CaptureOutcome::CaptureFailed(_) => 1,
    }
}

/// The line that reports an outcome.
pub open spec fn outcome_line(
    format: Format,
    unique_id: Seq<char>,
    label: Seq<char>,
    outcome: CaptureOutcome,
) -> Seq<char> {
    let tag = format.tag_spec();
    match outcome {
        CaptureOutcome::FormatDisabled => "[err] "@ + tag + " format not enabled in this build"@,
        CaptureOutcome::NoMatch => "[err] "@ + tag + " no match for "@ + text::quoted(unique_id),
        CaptureOutcome::LoadFailed(why) => "[err] "@ + tag + " load: "@ + why@,
        CaptureOutcome::NoEditor => "[skip] "@ + tag + " \u{2014} "@ + label + " (no editor)"@,
        CaptureOutcome::Captured(path) => "[ok] "@ + tag + " \u{2014} "@ + label + " -> "@ + path@,
        CaptureOutcome::CaptureFailed(why) => "[err] "@ + tag + " \u{2014} "@ + label + ": "@
            + why@,
    }
}

/// The line and the exit status that report what came of capturing one plugin.
#[must_use]
pub fn direct_capture(
    format: Format,
    unique_id: &str,
    label: &str,
    outcome: &CaptureOutcome,
) -> (report: (String, i32))
    ensures
        report.0@ == outcome_line(format, unique_id@, label@, *outcome),
        report.1 == exit_status(*outcome),
{
    let mut line = String::from_str(
        match outcome {
            CaptureOutcome::NoEditor => "[skip] ",
            CaptureOutcome::Captured(_) => "[ok] ",
            _ => "[err] ",
        },
    );
    line.append(format.tag());
    let status: i32 = match outcome {
        CaptureOutcome::FormatDisabled => {
            line.append(" format not enabled in this build");
            2
        },
        CaptureOutcome::NoMatch => {
            line.append(" no match for ");
            line.append(text::quote(unique_id).as_str());
            2
        },
        CaptureOutcome::LoadFailed(why) => {
            line.append(" load: ");
            line.append(why.as_str());
            1
        },
        CaptureOutcome::NoEditor => {
            line.append(" \u{2014} ");
            line.append(label);
            line.append(" (no editor)");
            0
        },
        CaptureOutcome::Captured(path) => {
            line.append(" \u{2014} ");
            line.append(label);
            line.append(" -> ");
            line.append(path.as_str());
            0
        },
        CaptureOutcome::CaptureFailed(why) => {
            line.append(" \u{2014} ");
            line.append(label);
            line.append(": ");
            line.append(why.as_str());
            1
        },
    };
    (line, status)
}

// ---------------------------------------------------------------------------
// What names and reports mean
// ---------------------------------------------------------------------------

/// Whether `s` is small letters, digits and dashes.
pub open spec fn is_slug_of_letters(s: Seq<char>) -> bool {
    forall|i: int|
        0 <= i < s.len() ==> (is_alphanumeric(#[trigger] s[i]) && !('A' <= s[i] <= 'Z')) || s[i]
            == '-'
}

/// Whether `s` is letters and digits.
pub open spec fn all_alphanumeric(s: Seq<char>) -> bool {
    forall|i: int| 0 <= i < s.len() ==> is_alphanumeric(#[trigger] s[i])
}

/// Letters and digits stand behind what came before them, in small letters.
proof fn words_are_appended(before: Seq<char>, word: Seq<char>)
    requires
        all_alphanumeric(word),
    ensures
        dashed(before + word) == dashed(before) + text::ascii_lower(word),
    decreases word.len(),
{
    if word.len() == 0 {
        assert(before + word =~= before);
        assert(dashed(before) + text::ascii_lower(word) =~= dashed(before));
    } else {
        let less = word.drop_last();
        assert(all_alphanumeric(less)) by {
            assert forall|i: int| 0 <= i < less.len() implies is_alphanumeric(
                #[trigger] less[i],
            ) by {
                assert(less[i] == word[i]);
            }
        }
        words_are_appended(before, less);
        assert((before + word).drop_last() =~= before + less);
        assert(is_alphanumeric(word[word.len() - 1]));
        assert(dashed(before + word) =~= dashed(before) + text::ascii_lower(word));
    }
}

/// What a name becomes depends on its beginning only by what that becomes.
proof fn same_beginnings(a: Seq<char>, b: Seq<char>, rest: Seq<char>)
    requires
        dashed(a) == dashed(b),
    ensures
        dashed(a + rest) == dashed(b + rest),
    decreases rest.len(),
{
    if rest.len() == 0 {
        assert(a + rest =~= a && b + rest =~= b);
    } else {
        same_beginnings(a, b, rest.drop_last());
        assert((a + rest).drop_last() =~= a + rest.drop_last());
        assert((b + rest).drop_last() =~= b + rest.drop_last());
    }
}

/// A name of two words becomes those words in small letters with one dash between
/// them, whichever separator stands there.
pub proof fn words_are_joined_by_dashes(a: Seq<char>, separator: char, b: Seq<char>)
    requires
        a.len() > 0,
        b.len() > 0,
        all_alphanumeric(a),
        all_alphanumeric(b),
        separator == ' ' || separator == '/' || separator == '\\' || separator == '.' || separator
            == '_',
    ensures
        sanitized(a + seq![separator] + b) == text::ascii_lower(a) + seq!['-'] + text::ascii_lower(b),
{
    let low = text::ascii_lower(a);
    words_are_appended(Seq::empty(), a);
    assert(Seq::<char>::empty() + a =~= a);
    assert(dashed(Seq::<char>::empty()) + low =~= low);
    assert(is_alphanumeric(a[a.len() - 1]));
    assert(low.last() == text::ascii_lower_char(a[a.len() - 1]));
    let head = a + seq![separator];
    assert(head.drop_last() =~= a);
    assert(dashed(head) == low.push('-'));
    words_are_appended(head, b);
    let whole = dashed(head + b);
    assert(whole =~= low + seq!['-'] + text::ascii_lower(b));
    assert(is_alphanumeric(b[b.len() - 1]));
    assert(whole.last() == text::ascii_lower_char(b[b.len() - 1]));
}

/// A character that is neither a letter, a digit nor a separator is dropped, and of
/// neighbouring separators only one counts.
pub proof fn other_characters_are_dropped(a: Seq<char>, c: char, separator: char, b: Seq<char>)
    ensures
        !is_alphanumeric(c) && !is_separator(c) ==> sanitized(a + seq![c] + b) == sanitized(a + b),
        is_separator(c) && is_separator(separator) ==> sanitized(a + seq![separator, c] + b)
            == sanitized(a + seq![separator] + b),
{
    if !is_alphanumeric(c) && !is_separator(c) {
        assert((a + seq![c]).drop_last() =~= a);
        same_beginnings(a + seq![c], a, b);
    }
    if is_separator(c) && is_separator(separator) {
        let one = a + seq![separator];
        let two = a + seq![separator, c];
        assert(one.drop_last() =~= a);
        assert(two.drop_last() =~= one);
        same_beginnings(two, one, b);
    }
}

/// Only spaces, slashes of either kind, dots and underscores separate words.
pub proof fn separators_are_these(c: char)
    ensures
        is_separator(c) ==> !is_alphanumeric(c) && c != '-',
        is_separator(c) <==> seq![' ', '/', '\\', '.', '_'].contains(c),
{
    let all = seq![' ', '/', '\\', '.', '_'];
    assert(all[0] == ' ' && all[1] == '/' && all[2] == '\\' && all[3] == '.' && all[4] == '_');
}

/// The case of a name does not matter.
pub proof fn case_does_not_matter(name: Seq<char>)
    ensures
        sanitized(text::ascii_lower(name)) == sanitized(name),
{
    dashes_ignore_case(name);
}

proof fn dashes_ignore_case(name: Seq<char>)
    ensures
        dashed(text::ascii_lower(name)) == dashed(name),
    decreases name.len(),
{
    if name.len() > 0 {
        dashes_ignore_case(name.drop_last());
        assert(text::ascii_lower(name).drop_last() =~= text::ascii_lower(name.drop_last()));
    }
}

/// A screenshot's file is a picture whose name starts with the format and a dash, and
/// goes on with the plugin's name where that is small letters and digits.
pub proof fn screenshots_are_named_after_plugins(format: Format, name: Seq<char>)
    requires
        name.len() > 0,
        forall|i: int|
            0 <= i < name.len() ==> is_alphanumeric(#[trigger] name[i]) && !('A' <= name[i]
                <= 'Z'),
    ensures
        file_name_of(format, name) == format.tag_spec() + seq!['-'] + name + seq![
            '.',
            'p',
            'n',
            'g',
        ],
{
    reveal_strlit("-");
    reveal_strlit(".png");
    letters_and_digits_stay(name);
    assert("-"@ =~= seq!['-']);
    assert(".png"@ =~= seq!['.', 'p', 'n', 'g']);
}

/// A process is waited for just while it runs in time, and ended just where it runs
/// past it; one that ended is reported where it did not succeed.
pub proof fn processes_are_not_waited_for_in_vain(state: ChildState)
    ensures
        action_on(state) == ChildAction::Wait <==> state == (ChildState::Running {
            past_deadline: false,
        }),
        action_on(state) == ChildAction::Kill <==> state == (ChildState::Running {
            past_deadline: true,
        }),
        action_on(state) == ChildAction::Next <==> state == (ChildState::Exited { success: true }),
        action_on(state) == ChildAction::ReportCrash <==> state == (ChildState::Exited {
            success: false,
        }),
{
}

/// A report says that something went wrong just where the exit status does, and a
/// picture is reported with the status of success and its path at the end.
pub proof fn reports_agree_with_the_status(
    format: Format,
    unique_id: Seq<char>,
    label: Seq<char>,
    outcome: CaptureOutcome,
)
    ensures
        ({
            let line = outcome_line(format, unique_id, label, outcome);
            &&& exit_status(outcome) != 0 <==> line.take(5) == "[err]"@
            &&& outcome matches CaptureOutcome::Captured(path) ==> exit_status(outcome) == 0
                && line.take(4) == "[ok]"@ && text::ends_with_text(line, path@)
            &&& outcome matches CaptureOutcome::CaptureFailed(why) ==> exit_status(outcome) == 1
                && text::ends_with_text(line, why@)
            &&& outcome matches CaptureOutcome::LoadFailed(why) ==> exit_status(outcome) == 1
                && text::ends_with_text(line, why@)
            &&& outcome is NoEditor ==> line.take(6) == "[skip]"@
            &&& exit_status(outcome) == 2 <==> outcome is FormatDisabled || outcome is NoMatch
        }),
{
    reveal_strlit("[err] ");
    reveal_strlit("[err]");
    reveal_strlit("[ok] ");
    reveal_strlit("[ok]");
    reveal_strlit("[skip] ");
    reveal_strlit("[skip]");
    let line = outcome_line(format, unique_id, label, outcome);
    match outcome {
        CaptureOutcome::Captured(path) => {
            assert(line.take(4) =~= "[ok]"@);
            assert(line[1] == 'o' && "[err]"@[1] == 'e');
            assert(line.take(5)[1] == line[1]);
            assert(line.skip(line.len() - path@.len()) =~= path@);
        },
        CaptureOutcome::NoEditor => {
            assert(line.take(6) =~= "[skip]"@);
            assert(line[1] == 's' && "[err]"@[1] == 'e');
            assert(line.take(5)[1] == line[1]);
        },
        CaptureOutcome::CaptureFailed(why) => {
            assert(line.take(5) =~= "[err]"@);
            assert(line.skip(line.len() - why@.len()) =~= why@);
        },
        CaptureOutcome::LoadFailed(why) => {
            assert(line.take(5) =~= "[err]"@);
            assert(line.skip(line.len() - why@.len()) =~= why@);
        },
        _ => {
            assert(line.take(5) =~= "[err]"@);
        },
    }
}

/// A plugin's label starts with its vendor and ends with its name.
pub proof fn labels_start_with_the_vendor(info: PluginInfoView)
    ensures
        label_of(info).take(info.vendor.len() as int) == info.vendor,
        text::ends_with_text(label_of(info), info.name),
        label_of(info).len() > info.vendor.len() + info.name.len(),
{
    reveal_strlit(" \u{2014} ");
    let label = label_of(info);
    assert(label.take(info.vendor.len() as int) =~= info.vendor);
    assert(label.skip(label.len() - info.name.len()) =~= info.name);
}

/// Every plugin of a format that is asked for is captured, in the order in which it
/// was found, and none of another format; where no format is asked for all are.
pub proof fn only_the_format_that_was_asked_for(
    only: Option<Format>,
    format: Format,
    found: Seq<PluginInfo>,
)
    ensures
        only is None || only == Some(format) ==> targets_of(only, format, found).len()
            == found.len() && forall|i: int|
            0 <= i < found.len() ==> (#[trigger] targets_of(only, format, found)[i]).unique_id
                == found[i]@.unique_id && targets_of(only, format, found)[i].format == format,
        only is Some && only != Some(format) ==> targets_of(only, format, found).len() == 0,
{
}

} // verus!
