//! Finding VST3 plugins: class ids, fixed strings and catalog entries.

use crate::clap::catalog::{self, Platform, SearchBase, SearchDir};
use crate::info::{
    flags_hold_what_they_were_made_of, ParameterFlags, PluginCategory, PluginInfo, PluginInfoView,
    AUTOMATABLE, BYPASS, ENUMERATED, HIDDEN, READ_ONLY,
};
use crate::text;
use vstd::prelude::*;
use vstd::string::StringExecFns;

verus! {

/// File name extension of VST3 plugins.
pub const VST3_EXTENSION: &'static str = ".vst3";

/// The category of classes that process audio.
pub const AUDIO_MODULE_CLASS: &'static str = "Audio Module Class";

/// Scans for VST3 plugins. It has no state.
#[derive(Clone, Copy, Debug, Default, PartialEq, Eq, Structural)]
pub struct Vst3Scanner;

impl Vst3Scanner {
    /// A scanner.
    #[must_use]
    pub fn new() -> (scanner: Self)
        ensures
            scanner == Vst3Scanner,
    {
        Vst3Scanner
    }
}

/// Where plugins are looked for in the home directory.
pub open spec fn home_dir_spec(platform: Platform) -> Seq<char> {
    match platform {
        Platform::MacOs => "Library/Audio/Plug-Ins/VST3"@,
        Platform::Linux => ".vst3"@,
        Platform::Windows => "AppData/Local/Programs/Common/VST3"@,
        Platform::Other => ""@,
    }
}

/// The standard install locations, the user's first.
pub open spec fn search_dirs(platform: Platform, has_home: bool, has_common: bool) -> Seq<
    (SearchBase, Seq<char>),
> {
    (if has_home {
        seq![(SearchBase::Home, home_dir_spec(platform))]
    } else {
        Seq::empty()
    }) + (match platform {
        Platform::MacOs => seq![(SearchBase::Root, "/Library/Audio/Plug-Ins/VST3"@)],
        Platform::Linux => seq![(SearchBase::Root, "/usr/lib/vst3"@)],
        Platform::Windows => if has_common {
            seq![(SearchBase::CommonPrograms, "VST3"@)]
        } else {
            Seq::empty()
        },
        Platform::Other => Seq::empty(),
    })
}

/// The directories where VST3 plugins are looked for on `platform`, where the
/// home directory and the directory of shared program files are known or not.
#[must_use]
pub fn default_vst3_paths(platform: Platform, has_home: bool, has_common: bool) -> (dirs: Vec<
    SearchDir,
>)
    ensures
        dirs@.len() == search_dirs(platform, has_home, has_common).len(),
        forall|i: int|
            0 <= i < dirs@.len() ==> ((#[trigger] dirs@[i]).base, dirs@[i].path@) == search_dirs(
                platform,
                has_home,
                has_common,
            )[i],
{
    let mut dirs: Vec<SearchDir> = Vec::new();
    if has_home {
        let path = match platform {
            Platform::MacOs => "Library/Audio/Plug-Ins/VST3",
            Platform::Linux => ".vst3",
            Platform::Windows => "AppData/Local/Programs/Common/VST3",
            Platform::Other => "",
        };
        dirs.push(SearchDir { base: SearchBase::Home, path });
    }
    match platform {
        Platform::MacOs => {
            dirs.push(SearchDir { base: SearchBase::Root, path: "/Library/Audio/Plug-Ins/VST3" });
        },
        Platform::Linux => {
            dirs.push(SearchDir { base: SearchBase::Root, path: "/usr/lib/vst3" });
        },
        Platform::Windows => {
            if has_common {
                dirs.push(SearchDir { base: SearchBase::CommonPrograms, path: "VST3" });
            }
        },
        Platform::Other => {},
    }
    dirs
}

/// Whether a file of this name is a VST3 bundle. `None` stands for a path
/// without a name, or with one that is no text.
#[must_use]
pub fn is_vst3_bundle_path(file_name: Option<&str>) -> (is_bundle: bool)
    ensures
        is_bundle == (file_name matches Some(name) && text::ends_with_text(
            name@,
            VST3_EXTENSION@,
        )),
{
    match file_name {
        Some(name) => text::ends_with(
            text::chars_of(name).as_slice(),
            text::chars_of(VST3_EXTENSION).as_slice(),
        ),
        None => false,
    }
}

/// The library inside a bundle. A bundle that is a directory holds it under
/// `Contents` and the directory of the architecture; any other bundle is the
/// library itself.
pub open spec fn binary_path(
    bundle: Seq<char>,
    stem: Seq<char>,
    is_dir: bool,
    arch: Seq<char>,
    platform: Platform,
) -> Seq<char> {
    if is_dir && platform == Platform::Linux {
        text::joined(
            text::joined(text::joined(bundle, '/', "Contents"@), '/', arch + "-linux"@),
            '/',
            stem + ".so"@,
        )
    } else if is_dir && platform == Platform::Windows {
        text::joined(
            text::joined(text::joined(bundle, '\\', "Contents"@), '\\', arch + "-win"@),
            '\\',
            stem + ".vst3"@,
        )
    } else {
        bundle
    }
}

/// The library inside the bundle at `bundle`, whose file name without extension
/// is `stem`, for the architecture named `arch`.
#[must_use]
pub fn bundle_binary_path(
    bundle: &str,
    stem: &str,
    is_dir: bool,
    arch: &str,
    platform: Platform,
) -> (path: String)
    ensures
        path@ == binary_path(bundle@, stem@, is_dir, arch@, platform),
{
    let (separator, suffix, extension) = match platform {
        Platform::Linux => ('/', "-linux", ".so"),
        Platform::Windows => ('\\', "-win", ".vst3"),
        _ => {
            return String::from_str(bundle);
        },
    };
    if !is_dir {
        return String::from_str(bundle);
    }
    let mut arch_dir = String::from_str(arch);
    arch_dir.append(suffix);
    let mut binary = String::from_str(stem);
    binary.append(extension);
    let contents = text::join(bundle, separator, "Contents");
    let dir = text::join(contents.as_str(), separator, arch_dir.as_str());
    text::join(dir.as_str(), separator, binary.as_str())
}

// ---------------------------------------------------------------------------
// Fixed strings
// ---------------------------------------------------------------------------

/// The byte with the bits of `b`.
pub open spec fn byte_bits(b: i8) -> u8 {
    if b < 0 {
        (b + 256) as u8
    } else {
        b as u8
    }
}

/// The signed byte with the bits of `b`.
pub open spec fn signed_bits(b: u8) -> i8 {
    if b >= 128 {
        (b - 256) as i8
    } else {
        b as i8
    }
}

fn to_byte(b: i8) -> (out: u8)
    ensures
        out == byte_bits(b),
{
    if b < 0 {
        (b as i16 + 256) as u8
    } else {
        b as u8
    }
}

fn to_signed(b: u8) -> (out: i8)
    ensures
        out == signed_bits(b),
{
    if b >= 128 {
        (b as i16 - 256) as i8
    } else {
        b as i8
    }
}

/// The bytes of signed characters.
pub open spec fn bytes_of(array: Seq<i8>) -> Seq<u8> {
    Seq::new(array.len(), |i: int| byte_bits(array[i]))
}

/// The text in a fixed array of 8-bit characters that a NUL ends where it is not
/// full.
#[must_use]
pub fn char8_array_to_string(array: &[i8]) -> (s: String)
    ensures
        s@ == text::lossy_utf8(catalog::before_nul(bytes_of(array@))),
        vstd::utf8::valid_utf8(catalog::before_nul(bytes_of(array@))) ==> s@
            == vstd::utf8::decode_utf8(catalog::before_nul(bytes_of(array@))),
{
    let mut bytes: Vec<u8> = Vec::new();
    let mut i: usize = 0;
    while i < array.len()
        invariant
            i <= array.len(),
            bytes@ == bytes_of(array@).take(i as int),
        decreases array.len() - i,
    {
        bytes.push(to_byte(array[i]));
        i += 1;
    }
    assert(bytes@ =~= bytes_of(array@));
    catalog::c_buf_to_string(bytes.as_slice())
}

/// The units of `buf` before its first NUL.
pub open spec fn units_before_nul(buf: Seq<u16>) -> Seq<u16>
    decreases buf.len(),
{
    if buf.len() == 0 || buf[0] == 0 {
        Seq::empty()
    } else {
        seq![buf[0]] + units_before_nul(buf.skip(1))
    }
}

/// The text in a fixed array of 128 16-bit characters that a NUL ends where it
/// is not full.
#[must_use]
pub fn string128_to_string(buf: &[u16; 128]) -> (s: String)
    ensures
        s@ == text::lossy_utf16(units_before_nul(buf@)),
        text::has_no_surrogates(units_before_nul(buf@)) ==> s@ == Seq::new(
            units_before_nul(buf@).len(),
            |i: int| units_before_nul(buf@)[i] as char,
        ),
{
    let units = buf.as_slice();
    let mut n: usize = 0;
    assert(units@.skip(0) =~= units@);
    assert(units@.take(0) + units_before_nul(units@) =~= units_before_nul(units@));
    while n < units.len() && units[n] != 0
        invariant
            n <= units.len(),
            units@.take(n as int) + units_before_nul(units@.skip(n as int)) == units_before_nul(
                units@,
            ),
        decreases units.len() - n,
    {
        proof {
            let rest = units@.skip(n as int);
            assert(rest[0] == units@[n as int]);
            assert(rest.skip(1) =~= units@.skip(n + 1));
            assert(units@.take(n as int) + (seq![rest[0]] + units_before_nul(rest.skip(1)))
                =~= units@.take(n + 1) + units_before_nul(units@.skip(n + 1)));
        }
        n += 1;
    }
    let part = vstd::slice::slice_subrange(units, 0, n);
    proof {
        let rest = units@.skip(n as int);
        if n < units.len() {
            assert(rest[0] == units@[n as int]);
        }
        assert(units_before_nul(rest) =~= Seq::<u16>::empty());
        assert(part@ =~= units_before_nul(units@));
    }
    text::decode_utf16_lossy(part)
}

// ---------------------------------------------------------------------------
// Class ids
// ---------------------------------------------------------------------------

/// A class id in hexadecimal: two digits per byte.
pub open spec fn hex_of(cid: Seq<i8>) -> Seq<char>
    decreases cid.len(),
{
    if cid.len() == 0 {
        Seq::empty()
    } else {
        hex_of(cid.drop_last()) + text::padded_text(byte_bits(cid.last()) as nat, 16, 2)
    }
}

/// A class id in hexadecimal.
#[must_use]
pub fn tuid_to_hex(cid: &[i8; 16]) -> (hex: String)
    ensures
        hex@ == hex_of(cid@),
{
    let bytes = cid.as_slice();
    let mut hex = String::new();
    let mut i: usize = 0;
    while i < bytes.len()
        invariant
            i <= bytes.len(),
            hex@ == hex_of(bytes@.take(i as int)),
        decreases bytes.len() - i,
    {
        proof {
            assert(bytes@.take(i + 1).drop_last() =~= bytes@.take(i as int));
        }
        text::push_hex(&mut hex, to_byte(bytes[i]) as u64, 2);
        i += 1;
    }
    assert(bytes@.take(i as int) =~= bytes@);
    hex
}

/// The byte that characters `2 * i` and `2 * i + 1` of `hex` write.
pub open spec fn hex_byte(hex: Seq<char>, i: int) -> Option<nat> {
    text::number_up_to(hex.subrange(2 * i, 2 * i + 2), 16, 255)
}

/// Whether `hex` writes a class id: 32 characters, each pair of them a byte.
pub open spec fn is_hex_id(hex: Seq<char>) -> bool {
    hex.len() == 32 && forall|i: int| 0 <= i < 16 ==> #[trigger] hex_byte(hex, i) is Some
}

/// The class id that `hex` writes.
#[must_use]
pub fn hex_to_tuid(hex: &str) -> (cid: Option<[i8; 16]>)
    ensures
        match cid {
            Some(c) => is_hex_id(hex@) && forall|i: int|
                0 <= i < 16 ==> #[trigger] c@[i] == signed_bits(hex_byte(hex@, i)->0 as u8),
            None => !is_hex_id(hex@),
        },
{
    let chars = text::chars_of(hex);
    if chars.len() != 32 {
        return None;
    }
    let mut cid: [i8; 16] = [0i8; 16];
    let mut i: usize = 0;
    while i < 16
        invariant
            i <= 16,
            chars@ == hex@,
            chars@.len() == 32,
            forall|j: int| 0 <= j < i ==> #[trigger] hex_byte(hex@, j) is Some,
            forall|j: int|
                0 <= j < i ==> #[trigger] cid@[j] == signed_bits(hex_byte(hex@, j)->0 as u8),
        decreases 16 - i,
    {
        let pair = vstd::slice::slice_subrange(chars.as_slice(), 2 * i, 2 * i + 2);
        match text::parse_number(pair, 16, 255) {
            Some(n) => {
                assert(hex_byte(hex@, i as int) == Some(n as nat));
                cid[i] = to_signed(n as u8);
            },
            None => {
                assert(hex_byte(hex@, i as int) is None);
                return None;
            },
        }
        i += 1;
    }
    Some(cid)
}

/// The digits of byte `i` stand at their place in the hexadecimal form.
proof fn hex_of_places(cid: Seq<i8>, i: int)
    requires
        0 <= i < cid.len(),
    ensures
        hex_of(cid).len() == 2 * cid.len(),
        hex_of(cid).subrange(2 * i, 2 * i + 2) == text::padded_text(
            byte_bits(cid[i]) as nat,
            16,
            2,
        ),
    decreases cid.len(),
{
    let last = text::padded_text(byte_bits(cid.last()) as nat, 16, 2);
    hex_of_len(cid);
    hex_of_len(cid.drop_last());
    reveal_with_fuel(text::padded_text, 3);
    if i == cid.len() - 1 {
        assert(hex_of(cid).subrange(2 * i, 2 * i + 2) =~= last);
    } else {
        hex_of_places(cid.drop_last(), i);
        assert(hex_of(cid).subrange(2 * i, 2 * i + 2) =~= hex_of(cid.drop_last()).subrange(
            2 * i,
            2 * i + 2,
        ));
    }
}

proof fn hex_of_len(cid: Seq<i8>)
    ensures
        hex_of(cid).len() == 2 * cid.len(),
    decreases cid.len(),
{
    reveal_with_fuel(text::padded_text, 3);
    if cid.len() > 0 {
        hex_of_len(cid.drop_last());
    }
}

/// Reading a class id's hexadecimal form gives the class id back.
pub proof fn class_id_round_trip(cid: Seq<i8>)
    requires
        cid.len() == 16,
    ensures
        is_hex_id(hex_of(cid)),
        forall|i: int|
            0 <= i < 16 ==> signed_bits((#[trigger] hex_byte(hex_of(cid), i))->0 as u8) == cid[i],
{
    hex_of_len(cid);
    assert forall|i: int| 0 <= i < 16 implies (#[trigger] hex_byte(hex_of(cid), i)) is Some
        && signed_bits(hex_byte(hex_of(cid), i)->0 as u8) == cid[i] by {
        let b = byte_bits(cid[i]) as nat;
        hex_of_places(cid, i);
        reveal(vstd::arithmetic::power::pow);
        reveal_with_fuel(vstd::arithmetic::power::pow, 3);
        assert(vstd::arithmetic::power::pow(16, 2) == 256);
        text::padded_text_reads_back(b, 16, 2);
        let t = text::padded_text(b, 16, 2);
        assert(text::digit_value(t[0]) < 16);
        assert(t[0] != '+');
        assert(text::unsigned_part(t) == t);
    }
}

// ---------------------------------------------------------------------------
// Catalog entries and parameters
// ---------------------------------------------------------------------------

/// The catalog entry of the class named `name` in the bundle at `bundle`.
pub open spec fn entry_of(bundle: Seq<char>, name: Seq<char>, cid: Seq<i8>) -> PluginInfoView {
    PluginInfoView {
        name,
        vendor: Seq::empty(),
        version: 0,
        category: PluginCategory::Effect,
        path: bundle,
        unique_id: hex_of(cid),
        format: super::FORMAT@,
        has_editor: false,
        accepts_midi: false,
    }
}

/// The catalog entry of the class named `name` in the bundle at `bundle`, where
/// it is one that processes audio.
#[must_use]
pub fn class_to_info(bundle: &str, category: &str, name: &str, cid: &[i8; 16]) -> (info: Option<
    PluginInfo,
>)
    ensures
        match info {
            Some(info) => category@ == AUDIO_MODULE_CLASS@ && info@ == entry_of(
                bundle@,
                name@,
                cid@,
            ),
            None => category@ != AUDIO_MODULE_CLASS@,
        },
{
    if !text::same_str(category, AUDIO_MODULE_CLASS) {
        return None;
    }
    Some(
        PluginInfo {
            name: String::from_str(name),
            vendor: String::new(),
            version: 0,
            category: PluginCategory::Effect,
            path: String::from_str(bundle),
            unique_id: tuid_to_hex(cid),
            format: super::FORMAT,
            has_editor: false,
            accepts_midi: false,
        },
    )
}

/// Can be automated.
pub const CAN_AUTOMATE: u32 = 1;

/// Not to be set by the host.
pub const IS_READ_ONLY: u32 = 2;

/// Values have names.
pub const IS_LIST: u32 = 8;

/// Not shown to users.
pub const IS_HIDDEN: u32 = 16;

/// The plugin's bypass switch.
pub const IS_BYPASS: u32 = 65536;

/// The parameter flags that VST3's flags, given by their bits, stand for.
pub open spec fn flags_of(flags: u32) -> ParameterFlags {
    ParameterFlags::of(
        catalog::flag_set(flags, IS_BYPASS),
        catalog::flag_set(flags, CAN_AUTOMATE),
        catalog::flag_set(flags, IS_HIDDEN),
        catalog::flag_set(flags, IS_READ_ONLY),
        catalog::flag_set(flags, IS_LIST),
    )
}

/// The parameter flags that VST3's flags, given by their bits, stand for.
#[must_use]
pub fn parameter_flags(flags: u32) -> (out: ParameterFlags)
    ensures
        out == flags_of(flags),
{
    ParameterFlags::new(
        (flags / IS_BYPASS) % 2 == 1,
        (flags / CAN_AUTOMATE) % 2 == 1,
        (flags / IS_HIDDEN) % 2 == 1,
        (flags / IS_READ_ONLY) % 2 == 1,
        (flags / IS_LIST) % 2 == 1,
    )
}

/// The number of steps, or 0 where the plugin states a negative one.
#[must_use]
pub fn step_count(count: i32) -> (n: u32)
    ensures
        n == (if count >= 0 {
            count as int
        } else {
            0
        }),
{
    if count >= 0 {
        count as u32
    } else {
        0
    }
}

// ---------------------------------------------------------------------------
// What descriptions mean
// ---------------------------------------------------------------------------

/// Each of VST3's flags is taken over as the parameter flag of the same meaning,
/// whatever the others are.
pub proof fn flags_keep_their_meaning(flags: u32)
    ensures
        flags_of(flags).has(AUTOMATABLE) == (flags & 1 == 1),
        flags_of(flags).has(READ_ONLY) == (flags & 2 == 2),
        flags_of(flags).has(ENUMERATED) == (flags & 8 == 8),
        flags_of(flags).has(HIDDEN) == (flags & 16 == 16),
        flags_of(flags).has(BYPASS) == (flags & 65536 == 65536),
{
    assert(((flags / 1) % 2 == 1) == (flags & 1 == 1) && ((flags / 2) % 2 == 1) == (flags & 2 == 2)
        && ((flags / 8) % 2 == 1) == (flags & 8 == 8) && ((flags / 16) % 2 == 1) == (flags & 16
        == 16) && ((flags / 65536) % 2 == 1) == (flags & 65536 == 65536)) by (bit_vector);
    flags_hold_what_they_were_made_of(
        catalog::flag_set(flags, IS_BYPASS),
        catalog::flag_set(flags, CAN_AUTOMATE),
        catalog::flag_set(flags, IS_HIDDEN),
        catalog::flag_set(flags, IS_READ_ONLY),
        catalog::flag_set(flags, IS_LIST),
    );
}

/// A character's byte and its signed form have the same bits: they differ by 0 or
/// by 256, and each comes back from the other.
pub proof fn bytes_keep_their_bits(signed: i8, byte: u8)
    ensures
        byte_bits(signed) == signed as u8,
        signed_bits(byte) == byte as i8,
        byte_bits(signed_bits(byte)) == byte,
        signed_bits(byte_bits(signed)) == signed,
{
    assert(signed < 0 ==> signed as u8 == signed + 256) by (bit_vector);
    assert(byte >= 128 ==> byte as i8 == byte - 256) by (bit_vector);
}

/// The units before the first NUL hold no NUL, and they end at one or at the end of
/// the array.
pub proof fn arrays_end_at_their_first_nul(buf: Seq<u16>)
    ensures
        units_before_nul(buf).len() <= buf.len(),
        buf.take(units_before_nul(buf).len() as int) == units_before_nul(buf),
        !units_before_nul(buf).contains(0),
        units_before_nul(buf).len() < buf.len() ==> buf[units_before_nul(buf).len() as int] == 0,
    decreases buf.len(),
{
    if buf.len() > 0 && buf[0] != 0 {
        let rest = buf.skip(1);
        arrays_end_at_their_first_nul(rest);
        let n = units_before_nul(rest).len() as int;
        assert(rest.take(n) =~= buf.subrange(1, n + 1));
        assert(buf.take(n + 1) =~= seq![buf[0]] + buf.subrange(1, n + 1));
        if units_before_nul(buf).contains(0) {
            let i = choose|i: int|
                0 <= i < units_before_nul(buf).len() && units_before_nul(buf)[i] == 0;
            assert(units_before_nul(rest)[i - 1] == 0);
        }
    } else {
        assert(buf.take(0) =~= Seq::<u16>::empty());
    }
}

/// Byte `i` of a class id stands as characters `2 * i` and `2 * i + 1` of its
/// hexadecimal form, the higher digit first, with small letters.
pub proof fn class_ids_are_written_in_order(cid: Seq<i8>, i: int)
    requires
        0 <= i < cid.len(),
    ensures
        hex_of(cid).len() == 2 * cid.len(),
        16 * text::digit_value(hex_of(cid)[2 * i]) + text::digit_value(hex_of(cid)[2 * i + 1])
            == byte_bits(cid[i]),
        forall|k: int|
            2 * i <= k <= 2 * i + 1 ==> ('0' <= #[trigger] hex_of(cid)[k] <= '9' || 'a'
                <= hex_of(cid)[k] <= 'f'),
{
    hex_of_places(cid, i);
    let b = byte_bits(cid[i]) as nat;
    let pair = text::padded_text(b, 16, 2);
    reveal_with_fuel(text::padded_text, 3);
    assert(pair =~= seq![text::digit_char((b / 16) % 16), text::digit_char(b % 16)]);
    text::digit_round_trip((b / 16) % 16);
    text::digit_round_trip(b % 16);
    assert(hex_of(cid).subrange(2 * i, 2 * i + 2)[0] == hex_of(cid)[2 * i]);
    assert(hex_of(cid).subrange(2 * i, 2 * i + 2)[1] == hex_of(cid)[2 * i + 1]);
    assert(pair[0] == hex_of(cid)[2 * i] && pair[1] == hex_of(cid)[2 * i + 1]);
    text::digits_are_the_usual_ones(pair[0]);
    text::digits_are_the_usual_ones(pair[1]);
}

/// A file whose name ends in `.vst3` is a bundle. A bundle's library is the bundle
/// itself, except for a directory on Linux or Windows, which holds it below
/// `Contents`, in the directory of the architecture.
pub proof fn libraries_are_found(bundle: Seq<char>, stem: Seq<char>, arch: Seq<char>)
    requires
        bundle.len() > 0,
        bundle.last() != '/',
        bundle.last() != '\\',
    ensures
        text::ends_with_text(stem + ".vst3"@, VST3_EXTENSION@),
        VST3_EXTENSION@.len() == 5,
        binary_path(bundle, stem, true, arch, Platform::Linux) == bundle + "/Contents/"@ + arch
            + "-linux/"@ + stem + ".so"@,
        binary_path(bundle, stem, true, arch, Platform::Windows) == bundle + "\\Contents\\"@ + arch
            + "-win\\"@ + stem + ".vst3"@,
        binary_path(bundle, stem, true, arch, Platform::MacOs) == bundle,
        forall|p: Platform| #[trigger] binary_path(bundle, stem, false, arch, p) == bundle,
{
    reveal_strlit(".vst3");
    reveal_strlit(".so");
    reveal_strlit("Contents");
    reveal_strlit("-linux");
    reveal_strlit("-win");
    reveal_strlit("/Contents/");
    reveal_strlit("\\Contents\\");
    reveal_strlit("-linux/");
    reveal_strlit("-win\\");
    text::texts_are_found_where_they_are(stem, ".vst3"@, Seq::empty());
    text::joined_paths_have_one_separator(bundle, "Contents"@);
    let unix = bundle + seq!['/'] + "Contents"@;
    assert(unix.last() == 's');
    text::joined_paths_have_one_separator(unix, arch + "-linux"@);
    let dir = unix + seq!['/'] + (arch + "-linux"@);
    assert(dir.last() == 'x');
    text::joined_paths_have_one_separator(dir, stem + ".so"@);
    assert(dir + seq!['/'] + (stem + ".so"@) =~= bundle + "/Contents/"@ + arch + "-linux/"@ + stem
        + ".so"@);
    let windows = bundle + seq!['\\'] + "Contents"@;
    assert(windows.last() == 's');
    text::joined_paths_have_one_separator(windows, arch + "-win"@);
    let dir = windows + seq!['\\'] + (arch + "-win"@);
    assert(dir.last() == 'n');
    text::joined_paths_have_one_separator(dir, stem + ".vst3"@);
    assert(dir + seq!['\\'] + (stem + ".vst3"@) =~= bundle + "\\Contents\\"@ + arch + "-win\\"@
        + stem + ".vst3"@);
}

/// The user's directory comes first, where the home directory is known, and what is
/// looked for elsewhere does not depend on it. On macOS the system's directory has
/// the user's path, from the root on.
pub proof fn the_user_comes_first(platform: Platform, has_common: bool)
    ensures
        search_dirs(platform, true, has_common).len() == 1 + search_dirs(
            platform,
            false,
            has_common,
        ).len(),
        search_dirs(platform, true, has_common)[0].0 == SearchBase::Home,
        search_dirs(platform, true, has_common).skip(1) == search_dirs(platform, false, has_common),
        forall|i: int|
            0 <= i < search_dirs(platform, false, has_common).len() ==> (#[trigger] search_dirs(
                platform,
                false,
                has_common,
            )[i]).0 != SearchBase::Home,
        platform == Platform::MacOs ==> search_dirs(platform, false, has_common) == seq![
            (SearchBase::Root, seq!['/'] + search_dirs(platform, true, has_common)[0].1),
        ],
        platform == Platform::Windows ==> search_dirs(platform, false, has_common).len() == (if
            has_common {
            1int
        } else {
            0
        }),
        platform == Platform::Linux ==> search_dirs(platform, true, has_common)[0].1
            == VST3_EXTENSION@ && search_dirs(platform, false, has_common)[0].1 == "/usr/lib/"@
            + VST3_EXTENSION@.skip(1),
{
    reveal_strlit("Library/Audio/Plug-Ins/VST3");
    reveal_strlit("/Library/Audio/Plug-Ins/VST3");
    reveal_strlit(".vst3");
    reveal_strlit("/usr/lib/vst3");
    reveal_strlit("/usr/lib/");
    assert(seq!['/'] + "Library/Audio/Plug-Ins/VST3"@ =~= "/Library/Audio/Plug-Ins/VST3"@);
    assert("/usr/lib/"@ + ".vst3"@.skip(1) =~= "/usr/lib/vst3"@);
    assert(search_dirs(platform, true, has_common).skip(1) =~= search_dirs(
        platform,
        false,
        has_common,
    ));
}

/// A text is a class id just where it has 32 characters that write 16 bytes, as 32
/// hexadecimal digits do.
pub proof fn only_class_ids_are_read(hex: Seq<char>, i: int)
    ensures
        hex.len() != 32 ==> !is_hex_id(hex),
        0 <= i < 16 && hex_byte(hex, i) is None ==> !is_hex_id(hex),
        hex.len() == 32 && (forall|k: int|
            0 <= k < 32 ==> text::digit_value(#[trigger] hex[k]) < 16) ==> is_hex_id(hex),
        hex.len() == 32 && 0 <= i < 16 && text::digit_value(hex[2 * i]) < 16 && text::digit_value(
            hex[2 * i + 1],
        ) < 16 ==> hex_byte(hex, i) == Some(
            (16 * text::digit_value(hex[2 * i]) + text::digit_value(hex[2 * i + 1])) as nat,
        ),
{
    if hex.len() == 32 {
        assert forall|k: int|
            0 <= k < 16 && text::digit_value(hex[2 * k]) < 16 && text::digit_value(hex[2 * k + 1])
                < 16 implies #[trigger] hex_byte(hex, k) == Some(
            (16 * text::digit_value(hex[2 * k]) + text::digit_value(hex[2 * k + 1])) as nat,
        ) by {
            let pair = hex.subrange(2 * k, 2 * k + 2);
            assert(pair[0] == hex[2 * k] && pair[1] == hex[2 * k + 1]);
            assert(text::unsigned_part(pair) == pair);
            assert(text::all_digits(pair, 16));
            reveal_with_fuel(text::digits_value, 3);
            assert(pair.drop_last() =~= seq![pair[0]]);
            assert(seq![pair[0]].drop_last() =~= Seq::<char>::empty());
        }
        if forall|k: int| 0 <= k < 32 ==> text::digit_value(#[trigger] hex[k]) < 16 {
            assert forall|k: int| 0 <= k < 16 implies #[trigger] hex_byte(hex, k) is Some by {
                assert(text::digit_value(hex[2 * k]) < 16);
                assert(text::digit_value(hex[2 * k + 1]) < 16);
            }
        }
    }
}

/// An entry leads back to its class: its id is read as the class id, its path is where it
/// was found, and the line that lists it names the format and the class.
pub proof fn entries_lead_back_to_their_class(bundle: Seq<char>, name: Seq<char>, cid: Seq<i8>)
    requires
        cid.len() == 16,
    ensures
        ({
            let info = entry_of(bundle, name, cid);
            let front = "["@ + "vst3"@ + "] "@ + name;
            &&& is_hex_id(info.unique_id)
            &&& forall|i: int|
                0 <= i < 16 ==> signed_bits((#[trigger] hex_byte(info.unique_id, i))->0 as u8)
                    == cid[i]
            &&& info.path == bundle
            &&& info.text().take(front.len() as int) == front
            &&& !info.has_editor && !info.accepts_midi
        }),
{
    class_id_round_trip(cid);
    crate::info::lines_list_what_is_known(entry_of(bundle, name, cid));
}

} // verus!
