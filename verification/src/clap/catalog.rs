//! Finding CLAP plugins and describing them.

use crate::au::ids;
use crate::info::{
    flags_hold_what_they_were_made_of, ParameterFlags, PluginCategory, PluginInfo, PluginInfoView,
    AUTOMATABLE, BYPASS, ENUMERATED, HIDDEN, READ_ONLY,
};
use crate::text;
use vstd::prelude::*;
use vstd::string::StringExecFns;

verus! {

/// File name extension of CLAP plugins.
pub const CLAP_EXTENSION: &'static str = ".clap";

/// Scans for CLAP plugins. It has no state.
#[derive(Clone, Copy, Debug, Default, PartialEq, Eq, Structural)]
pub struct ClapScanner;

impl ClapScanner {
    /// A scanner.
    #[must_use]
    pub fn new() -> (scanner: Self)
        ensures
            scanner == ClapScanner,
    {
        ClapScanner
    }
}

/// The platforms whose plugin directories are known.
#[derive(Clone, Copy, Debug, PartialEq, Eq, Structural)]
pub enum Platform {
    /// macOS.
    MacOs,
    /// Linux.
    Linux,
    /// Windows.
    Windows,
    /// Any other.
    Other,
}

/// What a plugin directory is relative to.
#[derive(Clone, Copy, Debug, PartialEq, Eq, Structural)]
pub enum SearchBase {
    /// The user's home directory.
    Home,
    /// The root of the file system.
    Root,
    /// The directory of files that programs share.
    CommonPrograms,
}

/// A directory where plugins are looked for.
#[derive(Clone, Copy, Debug)]
pub struct SearchDir {
    /// What `path` is relative to.
    pub base: SearchBase,
    /// The path.
    pub path: &'static str,
}

/// Where plugins are looked for in the home directory.
pub open spec fn home_dir_spec(platform: Platform) -> Seq<char> {
    match platform {
        Platform::MacOs => "Library/Audio/Plug-Ins/CLAP"@,
        Platform::Linux => ".clap"@,
        Platform::Windows => "AppData/Local/Programs/Common/CLAP"@,
        Platform::Other => ""@,
    }
}

/// The standard install locations, the user's first.
pub open spec fn search_dirs(platform: Platform, has_home: bool, has_common: bool) -> Seq<
    (SearchBase, Seq<char>),
> {
    (if has_home {
        seq![(SearchBase::Home, home_dir_spec(platform))]
    } else {
        Seq::empty()
    }) + (match platform {
        Platform::MacOs => seq![(SearchBase::Root, "/Library/Audio/Plug-Ins/CLAP"@)],
        Platform::Linux => seq![(SearchBase::Root, "/usr/lib/clap"@)],
        Platform::Windows => if has_common {
            seq![(SearchBase::CommonPrograms, "CLAP"@)]
        } else {
            Seq::empty()
        },
        Platform::Other => Seq::empty(),
    })
}

/// The directories where CLAP plugins are looked for on `platform`, where the
/// home directory and the directory of shared program files are known or not.
#[must_use]
pub fn default_clap_paths(platform: Platform, has_home: bool, has_common: bool) -> (dirs: Vec<
    SearchDir,
>)
    ensures
        dirs@.len() == search_dirs(platform, has_home, has_common).len(),
        forall|i: int|
            0 <= i < dirs@.len() ==> ((#[trigger] dirs@[i]).base, dirs@[i].path@) == search_dirs(
                platform,
                has_home,
                has_common,
            )[i],
{
    let mut dirs: Vec<SearchDir> = Vec::new();
    if has_home {
        let path = match platform {
            Platform::MacOs => "Library/Audio/Plug-Ins/CLAP",
            Platform::Linux => ".clap",
            Platform::Windows => "AppData/Local/Programs/Common/CLAP",
            Platform::Other => "",
        };
        dirs.push(SearchDir { base: SearchBase::Home, path });
    }
    match platform {
        Platform::MacOs => {
            dirs.push(SearchDir { base: SearchBase::Root, path: "/Library/Audio/Plug-Ins/CLAP" });
        },
        Platform::Linux => {
            dirs.push(SearchDir { base: SearchBase::Root, path: "/usr/lib/clap" });
        },
        Platform::Windows => {
            if has_common {
                dirs.push(SearchDir { base: SearchBase::CommonPrograms, path: "CLAP" });
            }
        },
        Platform::Other => {},
    }
    dirs
}

/// Whether a directory entry of this name is a CLAP plugin.
#[must_use]
pub fn is_clap_file_name(name: &str) -> (is_plugin: bool)
    ensures
        is_plugin == text::ends_with_text(name@, CLAP_EXTENSION@),
{
    text::ends_with(text::chars_of(name).as_slice(), text::chars_of(CLAP_EXTENSION).as_slice())
}

/// The library inside a bundle. On macOS a bundle that is a directory holds it
/// under `Contents/MacOS` with the bundle's stem for a name; any other bundle is
/// the library itself.
pub open spec fn binary_path(
    bundle: Seq<char>,
    stem: Seq<char>,
    is_dir: bool,
    platform: Platform,
) -> Seq<char> {
    if is_dir && platform == Platform::MacOs {
        text::joined(text::joined(bundle, '/', "Contents/MacOS"@), '/', stem)
    } else {
        bundle
    }
}

/// The library inside the bundle at `bundle`, whose file name without extension
/// is `stem`. `is_dir` tells whether it is a directory.
#[must_use]
pub fn bundle_binary_path(bundle: &str, stem: &str, is_dir: bool, platform: Platform) -> (path:
    String)
    ensures
        path@ == binary_path(bundle@, stem@, is_dir, platform),
{
    match platform {
        Platform::MacOs if is_dir => {
            let dir = text::join(bundle, '/', "Contents/MacOS");
            text::join(dir.as_str(), '/', stem)
        },
        _ => String::from_str(bundle),
    }
}

// ---------------------------------------------------------------------------
// Versions and categories
// ---------------------------------------------------------------------------

/// A version component: a number that fits 32 bits, or 0.
pub open spec fn component(s: Seq<char>) -> u32 {
    match text::number_up_to(s, 10, u32::MAX as nat) {
        Some(n) => n as u32,
        None => 0,
    }
}

/// A dotted version packed into one number: major, minor and patch from bit 16,
/// 8 and 0 on.
pub open spec fn packed_version(s: Seq<char>) -> u32 {
    (component(text::piece(s, '.', 0)) << 16u32) | (component(text::piece(s, '.', 1)) << 8u32)
        | component(text::piece(s, '.', 2))
}

fn parse_component(s: &[char]) -> (n: u32)
    ensures
        n == component(s@),
{
    match text::parse_number(s, 10, u32::MAX as u64) {
        Some(n) => n as u32,
        None => 0,
    }
}

/// Packs the first three components of a dotted version.
#[must_use]
pub fn parse_version(s: &str) -> (version: u32)
    ensures
        version == packed_version(s@),
{
    let chars = text::chars_of(s);
    let whole = chars.as_slice();
    proof {
        reveal_with_fuel(text::pieces, 4);
        assert(component(Seq::<char>::empty()) == 0);
    }
    let (first, rest) = text::split_first(whole, '.');
    proof {
        text::index_or_len_is_first(whole@, '.');
        assert(whole@.take(whole@.len() as int) =~= whole@);
    }
    let major: u32 = parse_component(first);
    let mut minor: u32 = 0;
    let mut patch: u32 = 0;
    if let Some(rest) = rest {
        proof {
            text::index_or_len_is_first(rest@, '.');
            assert(rest@.take(rest@.len() as int) =~= rest@);
            assert(text::piece(s@, '.', 1) == text::piece(rest@, '.', 0));
            assert(text::piece(s@, '.', 2) == text::piece(rest@, '.', 1));
        }
        let (second, rest2) = text::split_first(rest, '.');
        minor = parse_component(second);
        if let Some(rest2) = rest2 {
            proof {
                text::index_or_len_is_first(rest2@, '.');
                assert(rest2@.take(rest2@.len() as int) =~= rest2@);
                assert(text::piece(rest@, '.', 1) == text::piece(rest2@, '.', 0));
            }
            let (third, _) = text::split_first(rest2, '.');
            patch = parse_component(third);
        }
    }
    (major << 16u32) | (minor << 8u32) | patch
}

/// The category and the MIDI capability that feature strings tell. Of several
/// features that tell a category the last one counts.
pub open spec fn category_of(features: Seq<Seq<char>>) -> (PluginCategory, bool)
    decreases features.len(),
{
    if features.len() == 0 {
        (PluginCategory::Effect, false)
    } else {
        let (category, midi) = category_of(features.drop_last());
        let f = features.last();
        if f == "instrument"@ {
            (PluginCategory::Instrument, midi)
        } else if f == "note-effect"@ {
            (PluginCategory::NoteEffect, true)
        } else if f == "analyzer"@ {
            (PluginCategory::Analyzer, midi)
        } else if f == "utility"@ {
            (PluginCategory::Tool, midi)
        } else if f == "note-input"@ {
            (category, true)
        } else {
            (category, midi)
        }
    }
}

/// The texts of a list of strings.
pub open spec fn texts(list: Seq<String>) -> Seq<Seq<char>> {
    Seq::new(list.len(), |i: int| list[i]@)
}

/// The category and the MIDI capability that `features` tell.
#[must_use]
pub fn categorize(features: &[String]) -> (told: (PluginCategory, bool))
    ensures
        told == category_of(texts(features@)),
{
    let mut category = PluginCategory::Effect;
    let mut accepts_midi: bool = false;
    let mut i: usize = 0;
    assert(texts(features@).take(0) =~= Seq::<Seq<char>>::empty());
    while i < features.len()
        invariant
            i <= features.len(),
            (category, accepts_midi) == category_of(texts(features@).take(i as int)),
        decreases features.len() - i,
    {
        proof {
            assert(texts(features@).take(i + 1).drop_last() =~= texts(features@).take(i as int));
            assert(texts(features@).take(i + 1).last() == features@[i as int]@);
        }
        let f = features[i].as_str();
        if text::same_str(f, "instrument") {
            category = PluginCategory::Instrument;
        } else if text::same_str(f, "note-effect") {
            category = PluginCategory::NoteEffect;
            accepts_midi = true;
        } else if text::same_str(f, "analyzer") {
            category = PluginCategory::Analyzer;
        } else if text::same_str(f, "utility") {
            category = PluginCategory::Tool;
        } else if text::same_str(f, "note-input") {
            accepts_midi = true;
        }
        i += 1;
    }
    assert(texts(features@).take(i as int) =~= texts(features@));
    (category, accepts_midi)
}

/// What a plugin's descriptor says.
pub struct Descriptor {
    /// The plugin's id.
    pub id: String,
    /// Display name.
    pub name: String,
    /// Vendor name.
    pub vendor: String,
    /// Dotted version.
    pub version: String,
    /// Feature strings.
    pub features: Vec<String>,
}

/// The catalog entry of the plugin that `desc` describes, found at
/// `bundle_path`. Whether it has an editor shows only when it is loaded.
pub open spec fn entry_of(bundle_path: Seq<char>, desc: Descriptor) -> PluginInfoView {
    PluginInfoView {
        name: desc.name@,
        vendor: desc.vendor@,
        version: packed_version(desc.version@),
        category: category_of(texts(desc.features@)).0,
        path: bundle_path,
        unique_id: desc.id@,
        format: super::FORMAT@,
        has_editor: false,
        accepts_midi: category_of(texts(desc.features@)).1,
    }
}

/// The catalog entry of the plugin that `desc` describes, found at
/// `bundle_path`. Whether it has an editor shows only when it is loaded.
#[must_use]
pub fn descriptor_to_info(bundle_path: &str, desc: &Descriptor) -> (info: PluginInfo)
    ensures
        info@ == entry_of(bundle_path@, *desc),
{
    let (category, accepts_midi) = categorize(desc.features.as_slice());
    PluginInfo {
        name: desc.name.clone(),
        vendor: desc.vendor.clone(),
        version: parse_version(desc.version.as_str()),
        category,
        path: String::from_str(bundle_path),
        unique_id: desc.id.clone(),
        format: super::FORMAT,
        has_editor: false,
        accepts_midi,
    }
}

// ---------------------------------------------------------------------------
// Parameters
// ---------------------------------------------------------------------------

/// Parameter values are whole numbers.
pub const CLAP_PARAM_IS_STEPPED: u32 = 1;

/// Not shown to users.
pub const CLAP_PARAM_IS_HIDDEN: u32 = 4;

/// Not to be set by the host.
pub const CLAP_PARAM_IS_READONLY: u32 = 8;

/// The plugin's bypass switch.
pub const CLAP_PARAM_IS_BYPASS: u32 = 16;

/// Can be automated.
pub const CLAP_PARAM_IS_AUTOMATABLE: u32 = 32;

/// Values have names.
pub const CLAP_PARAM_IS_ENUM: u32 = 65536;

/// Whether the flag `flag`, a power of two, is set in `flags`.
pub open spec fn flag_set(flags: u32, flag: u32) -> bool {
    (flags / flag) % 2 == 1
}

fn has_flag(flags: u32, flag: u32) -> (set: bool)
    requires
        flag > 0,
    ensures
        set == flag_set(flags, flag),
{
    (flags / flag) % 2 == 1
}

/// The parameter flags that CLAP's flags stand for.
pub open spec fn flags_of(flags: u32) -> ParameterFlags {
    ParameterFlags::of(
        flag_set(flags, CLAP_PARAM_IS_BYPASS),
        flag_set(flags, CLAP_PARAM_IS_AUTOMATABLE),
        flag_set(flags, CLAP_PARAM_IS_HIDDEN),
        flag_set(flags, CLAP_PARAM_IS_READONLY),
        flag_set(flags, CLAP_PARAM_IS_ENUM),
    )
}

/// The parameter flags that CLAP's flags stand for.
#[must_use]
pub fn parameter_flags(flags: u32) -> (out: ParameterFlags)
    ensures
        out == flags_of(flags),
{
    ParameterFlags::new(
        has_flag(flags, CLAP_PARAM_IS_BYPASS),
        has_flag(flags, CLAP_PARAM_IS_AUTOMATABLE),
        has_flag(flags, CLAP_PARAM_IS_HIDDEN),
        has_flag(flags, CLAP_PARAM_IS_READONLY),
        has_flag(flags, CLAP_PARAM_IS_ENUM),
    )
}

/// The number of values of a stepped parameter whose range spans `span`, and 0
/// for a continuous one or where the number does not fit.
pub open spec fn steps_of(flags: u32, span: int) -> int {
    if flag_set(flags, CLAP_PARAM_IS_STEPPED) && 0 <= span + 1 <= u32::MAX {
        span + 1
    } else {
        0
    }
}

/// The number of values of a stepped parameter whose range spans `span`, and 0
/// for a continuous one or where the number does not fit.
#[must_use]
pub fn step_count(flags: u32, span: i64) -> (n: u32)
    ensures
        n == steps_of(flags, span as int),
{
    if has_flag(flags, CLAP_PARAM_IS_STEPPED) && -1 <= span && span < u32::MAX as i64 {
        (span + 1) as u32
    } else {
        0
    }
}

/// The bytes of `buf` before its first NUL.
pub open spec fn before_nul(buf: Seq<u8>) -> Seq<u8>
    decreases buf.len(),
{
    if buf.len() == 0 || buf[0] == 0 {
        Seq::empty()
    } else {
        seq![buf[0]] + before_nul(buf.skip(1))
    }
}

/// The text in a fixed buffer that a NUL ends where it is not full.
#[must_use]
pub fn c_buf_to_string(buf: &[u8]) -> (s: String)
    ensures
        s@ == text::lossy_utf8(before_nul(buf@)),
        vstd::utf8::valid_utf8(before_nul(buf@)) ==> s@ == vstd::utf8::decode_utf8(
            before_nul(buf@),
        ),
{
    let mut n: usize = 0;
    assert(buf@.skip(0) =~= buf@);
    assert(buf@.take(0) + before_nul(buf@) =~= before_nul(buf@));
    while n < buf.len() && buf[n] != 0
        invariant
            n <= buf.len(),
            buf@.take(n as int) + before_nul(buf@.skip(n as int)) == before_nul(buf@),
        decreases buf.len() - n,
    {
        proof {
            let rest = buf@.skip(n as int);
            assert(rest[0] == buf@[n as int]);
            assert(rest.skip(1) =~= buf@.skip(n + 1));
            assert(buf@.take(n as int) + (seq![rest[0]] + before_nul(rest.skip(1))) =~= buf@.take(
                n + 1,
            ) + before_nul(buf@.skip(n + 1)));
        }
        n += 1;
    }
    let part = vstd::slice::slice_subrange(buf, 0, n);
    proof {
        let rest = buf@.skip(n as int);
        if n < buf.len() {
            assert(rest[0] == buf@[n as int]);
        }
        assert(before_nul(rest) =~= Seq::<u8>::empty());
        assert(part@ =~= before_nul(buf@));
    }
    text::decode_lossy(part)
}

// ---------------------------------------------------------------------------
// What descriptions mean
// ---------------------------------------------------------------------------

/// Each of CLAP's flags is taken over as the parameter flag of the same meaning,
/// whatever the others are.
pub proof fn flags_keep_their_meaning(flags: u32)
    ensures
        flags_of(flags).has(BYPASS) == (flags & 16 == 16),
        flags_of(flags).has(AUTOMATABLE) == (flags & 32 == 32),
        flags_of(flags).has(HIDDEN) == (flags & 4 == 4),
        flags_of(flags).has(READ_ONLY) == (flags & 8 == 8),
        flags_of(flags).has(ENUMERATED) == (flags & 65536 == 65536),
{
    assert(((flags / 16) % 2 == 1) == (flags & 16 == 16) && ((flags / 32) % 2 == 1) == (flags & 32
        == 32) && ((flags / 4) % 2 == 1) == (flags & 4 == 4) && ((flags / 8) % 2 == 1) == (flags & 8
        == 8) && ((flags / 65536) % 2 == 1) == (flags & 65536 == 65536)) by (bit_vector);
    flags_hold_what_they_were_made_of(
        flag_set(flags, CLAP_PARAM_IS_BYPASS),
        flag_set(flags, CLAP_PARAM_IS_AUTOMATABLE),
        flag_set(flags, CLAP_PARAM_IS_HIDDEN),
        flag_set(flags, CLAP_PARAM_IS_READONLY),
        flag_set(flags, CLAP_PARAM_IS_ENUM),
    );
}

/// A stepped parameter has one value where its range spans nothing, and one more
/// for each whole number that its range gains. Any other parameter has no steps.
pub proof fn steps_are_whole_numbers(flags: u32, span: int)
    requires
        0 <= span < u32::MAX - 1,
    ensures
        flags % 2 == 1 ==> steps_of(flags, 0) == 1 && steps_of(flags, span + 1) == steps_of(
            flags,
            span,
        ) + 1,
        flags % 2 == 0 ==> steps_of(flags, span) == 0,
{
}

/// The bytes before the first NUL hold no NUL, and they end at one or at the end
/// of the buffer.
pub proof fn buffers_end_at_their_first_nul(buf: Seq<u8>)
    ensures
        before_nul(buf).len() <= buf.len(),
        buf.take(before_nul(buf).len() as int) == before_nul(buf),
        !before_nul(buf).contains(0),
        before_nul(buf).len() < buf.len() ==> buf[before_nul(buf).len() as int] == 0,
    decreases buf.len(),
{
    if buf.len() > 0 && buf[0] != 0 {
        let rest = buf.skip(1);
        buffers_end_at_their_first_nul(rest);
        let n = before_nul(rest).len() as int;
        assert(rest.take(n) =~= buf.subrange(1, n + 1));
        assert(buf.take(n + 1) =~= seq![buf[0]] + buf.subrange(1, n + 1));
        if before_nul(buf).contains(0) {
            let i = choose|i: int| 0 <= i < before_nul(buf).len() && before_nul(buf)[i] == 0;
            assert(before_nul(rest)[i - 1] == 0);
        }
    } else {
        assert(buf.take(0) =~= Seq::<u8>::empty());
    }
}

/// A version that is written with dots is packed from its numbers; numbers that
/// are left out count as 0.
pub proof fn versions_are_packed(major: nat, minor: nat, patch: nat)
    requires
        major < 0x1_0000,
        minor < 0x100,
        patch < 0x100,
    ensures
        packed_version(
            text::decimal(major) + seq!['.'] + text::decimal(minor) + seq!['.'] + text::decimal(patch),
        ) == major * 0x1_0000 + minor * 0x100 + patch,
        packed_version(text::decimal(major) + seq!['.'] + text::decimal(minor)) == major * 0x1_0000
            + minor * 0x100,
        packed_version(text::decimal(major)) == major * 0x1_0000,
{
    let a = text::decimal(major);
    let b = text::decimal(minor);
    let c = text::decimal(patch);
    text::decimals_are_digits(major);
    text::decimals_are_digits(minor);
    text::decimals_are_digits(patch);
    text::decimals_stay_as_they_are(major);
    text::decimals_stay_as_they_are(minor);
    text::decimals_stay_as_they_are(patch);
    let tail = b + seq!['.'] + c;
    assert(a + seq!['.'] + b + seq!['.'] + c =~= a + seq!['.'] + tail);
    ids::pieces_of_joined(a, '.', tail);
    ids::pieces_of_joined(b, '.', c);
    ids::pieces_of_joined(a, '.', b);
    one_piece(a);
    one_piece(b);
    one_piece(c);
    assert(component(Seq::<char>::empty()) == 0);
    let (x, y, z) = (major as u32, minor as u32, patch as u32);
    assert((x << 16u32) | (y << 8u32) | z == x * 0x1_0000 + y * 0x100 + z && (x << 16u32) | (y
        << 8u32) | 0u32 == x * 0x1_0000 + y * 0x100 && (x << 16u32) | (0u32 << 8u32) | 0u32 == x
        * 0x1_0000) by (bit_vector)
        requires
            x < 0x1_0000,
            y < 0x100,
            z < 0x100,
    ;
}

/// A text without a dot is one piece.
proof fn one_piece(s: Seq<char>)
    requires
        !s.contains('.'),
    ensures
        text::pieces(s, '.') == seq![s],
{
    text::index_or_len_is_first(s, '.');
    if text::index_or_len(s, '.') < s.len() {
        assert(s.contains(s[text::index_or_len(s, '.')]));
    }
    ids::pieces_step(s, '.');
    assert(s.take(s.len() as int) =~= s);
}

/// Whether a feature tells a category.
pub open spec fn tells_category(feature: Seq<char>) -> bool {
    feature == "instrument"@ || feature == "note-effect"@ || feature == "analyzer"@ || feature
        == "utility"@
}

/// What a feature tells alone: its category, where it tells one, and MIDI for those
/// that handle notes. A plugin whose features tell nothing is an effect.
pub proof fn features_tell_categories()
    ensures
        category_of(Seq::empty()) == (PluginCategory::Effect, false),
        category_of(seq!["instrument"@]) == (PluginCategory::Instrument, false),
        category_of(seq!["note-effect"@]) == (PluginCategory::NoteEffect, true),
        category_of(seq!["analyzer"@]) == (PluginCategory::Analyzer, false),
        category_of(seq!["utility"@]) == (PluginCategory::Tool, false),
        category_of(seq!["note-input"@]) == (PluginCategory::Effect, true),
        forall|f: Seq<char>|
            !tells_category(f) && f != "note-input"@ ==> (#[trigger] category_of(seq![f])) == (
                PluginCategory::Effect,
                false,
            ),
{
    reveal_strlit("instrument");
    reveal_strlit("note-effect");
    reveal_strlit("analyzer");
    reveal_strlit("utility");
    reveal_strlit("note-input");
    assert("instrument"@.len() == 10 && "note-effect"@.len() == 11 && "analyzer"@.len() == 8
        && "utility"@.len() == 7 && "note-input"@.len() == 10);
    assert("instrument"@[0] == 'i' && "note-input"@[0] == 'n');
    reveal_with_fuel(category_of, 2);
    assert forall|f: Seq<char>| #![trigger category_of(seq![f])] true implies seq![f].drop_last()
        =~= Seq::<Seq<char>>::empty() by {}
}

/// Of two lists of features the later one tells the category, where it tells one at
/// all, and either tells that MIDI is handled.
pub proof fn later_features_count(a: Seq<Seq<char>>, b: Seq<Seq<char>>)
    ensures
        category_of(a + b).0 == (if exists|i: int|
            0 <= i < b.len() && tells_category(#[trigger] b[i]) {
            category_of(b).0
        } else {
            category_of(a).0
        }),
        category_of(a + b).1 == (category_of(a).1 || category_of(b).1),
    decreases b.len(),
{
    if b.len() == 0 {
        assert(a + b =~= a);
    } else {
        let less = b.drop_last();
        later_features_count(a, less);
        assert((a + b).drop_last() =~= a + less);
        let told = exists|i: int| 0 <= i < less.len() && tells_category(#[trigger] less[i]);
        let tells = exists|i: int| 0 <= i < b.len() && tells_category(#[trigger] b[i]);
        if told {
            let i = choose|i: int| 0 <= i < less.len() && tells_category(#[trigger] less[i]);
            assert(b[i] == less[i]);
        }
        if tells && !tells_category(b.last()) {
            let i = choose|i: int| 0 <= i < b.len() && tells_category(#[trigger] b[i]);
            assert(less[i] == b[i]);
        }
        if tells_category(b.last()) {
            assert(b[b.len() - 1] == b.last());
        }
    }
}

/// A file whose name ends in `.clap` is a plugin. A bundle's library is the bundle
/// itself, except for a directory on macOS, which holds it as
/// `Contents/MacOS/` and the bundle's stem.
pub proof fn libraries_are_found(bundle: Seq<char>, stem: Seq<char>, platform: Platform)
    requires
        bundle.len() > 0,
        bundle.last() != '/',
    ensures
        text::ends_with_text(stem + ".clap"@, CLAP_EXTENSION@),
        CLAP_EXTENSION@.len() == 5,
        binary_path(bundle, stem, false, platform) == bundle,
        binary_path(bundle, stem, true, platform) == (if platform == Platform::MacOs {
            bundle + "/Contents/MacOS/"@ + stem
        } else {
            bundle
        }),
{
    reveal_strlit(".clap");
    reveal_strlit("Contents/MacOS");
    reveal_strlit("/Contents/MacOS/");
    text::texts_are_found_where_they_are(stem, ".clap"@, Seq::empty());
    text::joined_paths_have_one_separator(bundle, "Contents/MacOS"@);
    let dir = bundle + seq!['/'] + "Contents/MacOS"@;
    assert(dir.last() == 'S');
    text::joined_paths_have_one_separator(dir, stem);
    assert(dir + seq!['/'] + stem =~= bundle + "/Contents/MacOS/"@ + stem);
}

/// The user's directory comes first, where the home directory is known, and what is
/// looked for elsewhere does not depend on it. On macOS the system's directory has
/// the user's path, from the root on.
pub proof fn the_user_comes_first(platform: Platform, has_common: bool)
    ensures
        search_dirs(platform, true, has_common).len() == 1 + search_dirs(
            platform,
            false,
            has_common,
        ).len(),
        search_dirs(platform, true, has_common)[0].0 == SearchBase::Home,
        search_dirs(platform, true, has_common).skip(1) == search_dirs(platform, false, has_common),
        forall|i: int|
            0 <= i < search_dirs(platform, false, has_common).len() ==> (#[trigger] search_dirs(
                platform,
                false,
                has_common,
            )[i]).0 != SearchBase::Home,
        platform == Platform::MacOs ==> search_dirs(platform, false, has_common) == seq![
            (SearchBase::Root, seq!['/'] + search_dirs(platform, true, has_common)[0].1),
        ],
        platform == Platform::Windows ==> search_dirs(platform, false, has_common).len() == (if
            has_common {
            1int
        } else {
            0
        }),
        platform == Platform::Linux ==> search_dirs(platform, true, has_common)[0].1
            == CLAP_EXTENSION@ && search_dirs(platform, false, has_common)[0].1 == "/usr/lib/"@
            + CLAP_EXTENSION@.skip(1),
{
    reveal_strlit("Library/Audio/Plug-Ins/CLAP");
    reveal_strlit("/Library/Audio/Plug-Ins/CLAP");
    reveal_strlit(".clap");
    reveal_strlit("/usr/lib/clap");
    reveal_strlit("/usr/lib/");
    assert(seq!['/'] + "Library/Audio/Plug-Ins/CLAP"@ =~= "/Library/Audio/Plug-Ins/CLAP"@);
    assert("/usr/lib/"@ + ".clap"@.skip(1) =~= "/usr/lib/clap"@);
    assert(search_dirs(platform, true, has_common).skip(1) =~= search_dirs(
        platform,
        false,
        has_common,
    ));
}

/// An entry can be looked up by what the descriptor says of the plugin: its id, its name
/// and its vendor, each in its own place, and where it was found. The line that lists it
/// names the format, the plugin and its vendor in that order.
pub proof fn entries_say_what_descriptors_say(bundle_path: Seq<char>, desc: Descriptor)
    ensures
        ({
            let info = entry_of(bundle_path, desc);
            let front = "["@ + "clap"@ + "] "@ + desc.name@;
            &&& info.unique_id == desc.id@
            &&& info.path == bundle_path
            &&& info.text().take(front.len() as int) == front
            &&& text::contains_text(info.text(), desc.vendor@ + " (v"@)
        }),
{
    let info = entry_of(bundle_path, desc);
    crate::info::lines_list_what_is_known(info);
    let line = info.text();
    let front = "["@ + "clap"@ + "] "@ + desc.name@ + " \u{2014} "@;
    let rest = text::decimal(info.version as nat) + ", "@ + info.category.name_spec() + ")"@;
    assert(front + (desc.vendor@ + " (v"@) + rest =~= line);
    text::texts_are_found_where_they_are(front, desc.vendor@ + " (v"@, rest);
}

} // verus!
