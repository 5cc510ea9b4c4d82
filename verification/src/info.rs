//! What scanners hand back and what plugins report about themselves.

use crate::text;
use vstd::prelude::*;
use vstd::string::StringExecFns;

verus! {

/// What kind of plugin this is.
#[derive(Clone, Copy, Debug, PartialEq, Eq, Structural)]
pub enum PluginCategory {
    /// Takes audio in, produces audio out.
    Effect,
    /// Takes MIDI in, produces audio out.
    Instrument,
    /// Takes MIDI in, produces MIDI out.
    NoteEffect,
    /// Observes audio, may not produce any.
    Analyzer,
    /// Any other tool.
    Tool,
}

impl PluginCategory {
    /// The name of the variant.
    pub open spec fn name_spec(self) -> Seq<char> {
        match self {
            PluginCategory::Effect => "Effect"@,
            PluginCategory::Instrument => "Instrument"@,
            PluginCategory::NoteEffect => "NoteEffect"@,
            PluginCategory::Analyzer => "Analyzer"@,
            PluginCategory::Tool => "Tool"@,
        }
    }

    /// The name of the variant.
    pub fn name(self) -> (name: &'static str)
        ensures
            name@ == self.name_spec(),
    {
        match self {
            PluginCategory::Effect => "Effect",
            PluginCategory::Instrument => "Instrument",
            PluginCategory::NoteEffect => "NoteEffect",
            PluginCategory::Analyzer => "Analyzer",
            PluginCategory::Tool => "Tool",
        }
    }
}

/// Info about a discovered plugin.
#[derive(Debug)]
pub struct PluginInfo {
    /// Display name.
    pub name: String,
    /// Vendor name.
    pub vendor: String,
    /// Plugin version, packed as the host saw it.
    pub version: u32,
    /// Category for browser UIs.
    pub category: PluginCategory,
    /// Filesystem path to the bundle or library, where applicable.
    pub path: String,
    /// Format-specific stable id.
    pub unique_id: String,
    /// Which format produced this entry.
    pub format: &'static str,
    /// Whether the plugin reports a custom editor view.
    pub has_editor: bool,
    /// Whether the plugin handles MIDI input.
    pub accepts_midi: bool,
}

/// Plugin info with its strings as text.
pub struct PluginInfoView {
    /// Display name.
    pub name: Seq<char>,
    /// Vendor name.
    pub vendor: Seq<char>,
    /// Plugin version.
    pub version: u32,
    /// Category.
    pub category: PluginCategory,
    /// Path.
    pub path: Seq<char>,
    /// Stable id.
    pub unique_id: Seq<char>,
    /// Format.
    pub format: Seq<char>,
    /// Whether there is an editor.
    pub has_editor: bool,
    /// Whether MIDI is handled.
    pub accepts_midi: bool,
}

impl View for PluginInfo {
    type V = PluginInfoView;

    open spec fn view(&self) -> PluginInfoView {
        PluginInfoView {
            name: self.name@,
            vendor: self.vendor@,
            version: self.version,
            category: self.category,
            path: self.path@,
            unique_id: self.unique_id@,
            format: self.format@,
            has_editor: self.has_editor,
            accepts_midi: self.accepts_midi,
        }
    }
}

impl Clone for PluginInfo {
    fn clone(&self) -> (info: Self)
        ensures
            info@ == self@,
    {
        PluginInfo {
            name: self.name.clone(),
            vendor: self.vendor.clone(),
            version: self.version,
            category: self.category,
            path: self.path.clone(),
            unique_id: self.unique_id.clone(),
            format: self.format,
            has_editor: self.has_editor,
            accepts_midi: self.accepts_midi,
        }
    }
}

impl PluginInfoView {
    /// The line that lists a plugin.
    pub open spec fn text(self) -> Seq<char> {
        "["@ + self.format + "] "@ + self.name + " \u{2014} "@ + self.vendor + " (v"@ + text::decimal(
            self.version as nat,
        ) + ", "@ + self.category.name_spec() + ")"@
    }
}

impl PluginInfo {
    /// The line that lists this plugin.
    #[must_use]
    pub fn describe(&self) -> (out: String)
        ensures
            out@ == self@.text(),
    {
        let mut out = String::from_str("[");
        out.append(self.format);
        out.append("] ");
        out.append(self.name.as_str());
        out.append(" \u{2014} ");
        out.append(self.vendor.as_str());
        out.append(" (v");
        text::push_decimal(&mut out, self.version as u64);
        out.append(", ");
        out.append(self.category.name());
        out.append(")");
        out
    }
}

/// Capabilities and host hints of a parameter, one bit each.
#[derive(Clone, Copy, Debug, PartialEq, Eq, Structural)]
pub struct ParameterFlags {
    /// The bits.
    pub bits: u32,
}

/// The plugin's master bypass switch.
pub const BYPASS: u32 = 1;

/// Can be automated.
pub const AUTOMATABLE: u32 = 2;

/// Not shown in parameter lists.
pub const HIDDEN: u32 = 4;

/// Written by the plugin, read by the host.
pub const READ_ONLY: u32 = 8;

/// Values are an enumeration with named entries.
pub const ENUMERATED: u32 = 16;

impl ParameterFlags {
    /// The set of the flags that are `true`.
    pub open spec fn of(
        bypass: bool,
        automatable: bool,
        hidden: bool,
        read_only: bool,
        enumerated: bool,
    ) -> ParameterFlags {
        ParameterFlags {
            bits: ((if bypass {
                BYPASS as int
            } else {
                0
            }) + (if automatable {
                AUTOMATABLE as int
            } else {
                0
            }) + (if hidden {
                HIDDEN as int
            } else {
                0
            }) + (if read_only {
                READ_ONLY as int
            } else {
                0
            }) + (if enumerated {
                ENUMERATED as int
            } else {
                0
            })) as u32,
        }
    }

    /// The set of the flags that are `true`.
    #[must_use]
    pub fn new(
        bypass: bool,
        automatable: bool,
        hidden: bool,
        read_only: bool,
        enumerated: bool,
    ) -> (flags: ParameterFlags)
        ensures
            flags == ParameterFlags::of(bypass, automatable, hidden, read_only, enumerated),
    {
        let mut bits: u32 = 0;
        if bypass {
            bits += BYPASS;
        }
        if automatable {
            bits += AUTOMATABLE;
        }
        if hidden {
            bits += HIDDEN;
        }
        if read_only {
            bits += READ_ONLY;
        }
        if enumerated {
            bits += ENUMERATED;
        }
        ParameterFlags { bits }
    }

    /// Whether every bit of `flags` is in the set.
    pub open spec fn has(self, flags: u32) -> bool {
        self.bits & flags == flags
    }

    /// Whether every bit of `flags` is in the set.
    #[must_use]
    pub fn contains(self, flags: u32) -> (found: bool)
        ensures
            found == (self.bits & flags == flags),
    {
        self.bits & flags == flags
    }
}

/// A set of flags holds just the flags it was made of.
pub proof fn flags_hold_what_they_were_made_of(
    bypass: bool,
    automatable: bool,
    hidden: bool,
    read_only: bool,
    enumerated: bool,
)
    ensures
        ({
            let f = ParameterFlags::of(bypass, automatable, hidden, read_only, enumerated);
            &&& f.has(BYPASS) == bypass
            &&& f.has(AUTOMATABLE) == automatable
            &&& f.has(HIDDEN) == hidden
            &&& f.has(READ_ONLY) == read_only
            &&& f.has(ENUMERATED) == enumerated
        }),
{
    let f = ParameterFlags::of(bypass, automatable, hidden, read_only, enumerated);
    let bits = f.bits;
    assert((bits & 1 == 1) == bypass && (bits & 2 == 2) == automatable && (bits & 4 == 4) == hidden
        && (bits & 8 == 8) == read_only && (bits & 16 == 16) == enumerated) by (bit_vector)
        requires
            bits == ((if bypass {
                1u32
            } else {
                0u32
            }) + (if automatable {
                2u32
            } else {
                0u32
            }) + (if hidden {
                4u32
            } else {
                0u32
            }) + (if read_only {
                8u32
            } else {
                0u32
            }) + (if enumerated {
                16u32
            } else {
                0u32
            })) as u32,
    ;
}

/// A set holds two groups of flags together just where it holds each of them, and
/// always holds itself and no flags at all.
pub proof fn flags_are_held_together(set: ParameterFlags, a: u32, b: u32)
    ensures
        set.has(a | b) == (set.has(a) && set.has(b)),
        set.has(set.bits),
        set.has(0),
{
    let bits = set.bits;
    assert((bits & (a | b) == a | b) == (bits & a == a && bits & b == b)) by (bit_vector);
    assert(bits & bits == bits && bits & 0 == 0) by (bit_vector);
}

/// A factory preset entry.
#[derive(Debug, Clone)]
pub struct PresetInfo {
    /// Zero-based index in the plugin's preset list.
    pub index: usize,
    /// Preset display name.
    pub name: String,
    /// Format-specific id.
    pub preset_number: i32,
}

/// No two categories have the same name.
pub proof fn categories_have_different_names(a: PluginCategory, b: PluginCategory)
    ensures
        a.name_spec() == b.name_spec() ==> a == b,
{
    reveal_strlit("Effect");
    reveal_strlit("Instrument");
    reveal_strlit("NoteEffect");
    reveal_strlit("Analyzer");
    reveal_strlit("Tool");
    assert("Instrument"@[0] == 'I' && "NoteEffect"@[0] == 'N');
    assert("Effect"@.len() == 6 && "Instrument"@.len() == 10 && "NoteEffect"@.len() == 10
        && "Analyzer"@.len() == 8 && "Tool"@.len() == 4);
}

/// The line that lists a plugin starts with its format in brackets and its name, and
/// ends with its vendor, its version and its category.
pub proof fn lines_list_what_is_known(info: PluginInfoView)
    ensures
        ({
            let line = info.text();
            let front = "["@ + info.format + "] "@ + info.name;
            &&& line.take(front.len() as int) == front
            &&& text::ends_with_text(
                line,
                info.vendor + " (v"@ + text::decimal(info.version as nat) + ", "@
                    + info.category.name_spec() + ")"@,
            )
        }),
{
    let line = info.text();
    let front = "["@ + info.format + "] "@ + info.name;
    let tail = info.vendor + " (v"@ + text::decimal(info.version as nat) + ", "@
        + info.category.name_spec() + ")"@;
    assert(line.take(front.len() as int) =~= front);
    assert(line.skip(line.len() - tail.len()) =~= tail);
}

} // verus!
