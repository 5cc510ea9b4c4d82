//! Finding Audio Units: four-character codes and catalog entries.

use crate::au;
use crate::info::{PluginCategory, PluginInfo, PluginInfoView};
use crate::text;
use vstd::prelude::*;
use vstd::string::StringExecFns;

verus! {

/// Effects: `aufx`.
pub const TYPE_EFFECT: u32 = 0x61756678;

/// Instruments: `aumu`.
pub const TYPE_MUSIC_DEVICE: u32 = 0x61756D75;

/// Generators: `augn`.
pub const TYPE_GENERATOR: u32 = 0x6175676E;

/// Effects that take MIDI: `aumf`.
pub const TYPE_MUSIC_EFFECT: u32 = 0x61756D66;

/// MIDI processors: `aumi`.
pub const TYPE_MIDI_PROCESSOR: u32 = 0x61756D69;

/// Mixers: `aumx`.
pub const TYPE_MIXER: u32 = 0x61756D78;

/// The type families in the order in which they are scanned. System plumbing
/// such as outputs and format converters is not among them.
pub open spec fn scan_types_spec() -> Seq<u32> {
    seq![
        TYPE_EFFECT,
        TYPE_MUSIC_DEVICE,
        TYPE_GENERATOR,
        TYPE_MUSIC_EFFECT,
        TYPE_MIDI_PROCESSOR,
        TYPE_MIXER,
    ]
}

/// The type families in the order in which they are scanned.
#[must_use]
pub fn scan_types() -> (types: Vec<u32>)
    ensures
        types@ == scan_types_spec(),
{
    let mut types: Vec<u32> = Vec::new();
    types.push(TYPE_EFFECT);
    types.push(TYPE_MUSIC_DEVICE);
    types.push(TYPE_GENERATOR);
    types.push(TYPE_MUSIC_EFFECT);
    types.push(TYPE_MIDI_PROCESSOR);
    types.push(TYPE_MIXER);
    assert(types@ =~= scan_types_spec());
    types
}

/// Scans for Audio Units. It has no state.
#[derive(Clone, Copy, Debug, Default, PartialEq, Eq, Structural)]
pub struct AuScanner;

impl AuScanner {
    /// A scanner.
    #[must_use]
    pub fn new() -> (scanner: Self)
        ensures
            scanner == AuScanner,
    {
        AuScanner
    }
}

// ---------------------------------------------------------------------------
// Four-character codes
// ---------------------------------------------------------------------------

/// The four bytes of a code, most significant first.
pub open spec fn code_bytes(code: u32) -> Seq<u8> {
    seq![
        (code / 0x100_0000) as u8,
        ((code / 0x1_0000) % 0x100) as u8,
        ((code / 0x100) % 0x100) as u8,
        (code % 0x100) as u8,
    ]
}

/// Whether a byte is a printable ASCII character other than a space.
pub open spec fn is_graphic(b: int) -> bool {
    0x21 <= b <= 0x7E
}

/// Whether a code can be written as text: all its bytes are printable, and none
/// is a colon.
pub open spec fn is_printable(code: u32) -> bool {
    forall|i: int|
        0 <= i < 4 ==> is_graphic((#[trigger] code_bytes(code)[i]) as int) && code_bytes(code)[i]
            != ':' as u8
}

/// A code as text: its characters where it is printable, and eight hexadecimal
/// digits otherwise.
pub open spec fn four_cc_text(code: u32) -> Seq<char> {
    if is_printable(code) {
        Seq::new(4, |i: int| code_bytes(code)[i] as char)
    } else {
        text::padded_text(code as nat, 16, 8)
    }
}

fn printable_byte(b: u8) -> (ok: bool)
    ensures
        ok == (is_graphic(b as int) && b != ':' as u8),
{
    0x21 <= b && b <= 0x7E && b != 58
}

/// A code as text.
#[must_use]
pub fn four_cc(code: u32) -> (s: String)
    ensures
        s@ == four_cc_text(code),
{
    let b0: u8 = (code / 0x100_0000) as u8;
    let b1: u8 = ((code / 0x1_0000) % 0x100) as u8;
    let b2: u8 = ((code / 0x100) % 0x100) as u8;
    let b3: u8 = (code % 0x100) as u8;
    let mut s = String::new();
    let ghost bytes = code_bytes(code);
    assert(bytes[0] == b0 && bytes[1] == b1 && bytes[2] == b2 && bytes[3] == b3);
    if printable_byte(b0) && printable_byte(b1) && printable_byte(b2) && printable_byte(b3) {
        assert(is_printable(code));
        s.push(b0 as char);
        s.push(b1 as char);
        s.push(b2 as char);
        s.push(b3 as char);
        assert(s@ =~= four_cc_text(code));
    } else {
        assert(!is_printable(code)) by {
            assert(!printable_at(bytes, 0) || !printable_at(bytes, 1) || !printable_at(bytes, 2)
                || !printable_at(bytes, 3));
        }
        text::push_hex(&mut s, code as u64, 8);
        assert(s@ =~= four_cc_text(code));
    }
    s
}

spec fn printable_at(bytes: Seq<u8>, i: int) -> bool {
    is_graphic(bytes[i] as int) && bytes[i] != ':' as u8
}

/// Whether all of `s` are printable ASCII characters other than spaces.
pub open spec fn all_graphic(s: Seq<char>) -> bool {
    forall|i: int| 0 <= i < s.len() ==> is_graphic((#[trigger] s[i]) as int)
}

/// The code that `s` writes: four printable characters, or eight hexadecimal
/// digits.
pub open spec fn four_cc_of(s: Seq<char>) -> Option<u32> {
    if s.len() == 4 && all_graphic(s) {
        Some(
            (s[0] as int * 0x100_0000 + s[1] as int * 0x1_0000 + s[2] as int * 0x100
                + s[3] as int) as u32,
        )
    } else if s.len() == 8 {
        match text::number_up_to(s, 16, u32::MAX as nat) {
            Some(n) => Some(n as u32),
            None => None,
        }
    } else {
        None
    }
}

fn graphic(chars: &[char]) -> (ok: bool)
    ensures
        ok == all_graphic(chars@),
{
    let mut i: usize = 0;
    while i < chars.len()
        invariant
            i <= chars.len(),
            forall|j: int| 0 <= j < i ==> is_graphic((#[trigger] chars@[j]) as int),
        decreases chars.len() - i,
    {
        let c = chars[i];
        if c < '!' || c > '~' {
            assert(!is_graphic(chars@[i as int] as int));
            return false;
        }
        i += 1;
    }
    true
}

/// The code that the characters write, where they write one.
fn code_of(chars: &[char]) -> (code: Option<u32>)
    ensures
        code == four_cc_of(chars@),
{
    if chars.len() == 4 && graphic(chars) {
        assert(is_graphic(chars@[0] as int) && is_graphic(chars@[1] as int) && is_graphic(
            chars@[2] as int,
        ) && is_graphic(chars@[3] as int));
        Some(
            chars[0] as u32 * 0x100_0000 + chars[1] as u32 * 0x1_0000 + chars[2] as u32 * 0x100
                + chars[3] as u32,
        )
    } else if chars.len() == 8 {
        match text::parse_number(chars, 16, u32::MAX as u64) {
            Some(n) => Some(n as u32),
            None => None,
        }
    } else {
        None
    }
}

/// The code that `s` writes, where it writes one.
#[must_use]
pub fn parse_four_cc(s: &str) -> (code: Option<u32>)
    ensures
        code == four_cc_of(s@),
{
    let chars = text::chars_of(s);
    code_of(chars.as_slice())
}

/// Eight hexadecimal digits hold every code.
proof fn codes_fit()
    ensures
        vstd::arithmetic::power::pow(16, 8) == 0x1_0000_0000,
{
    reveal(vstd::arithmetic::power::pow);
    assert(vstd::arithmetic::power::pow(16, 1) == 16 * vstd::arithmetic::power::pow(16, 0));
    assert(vstd::arithmetic::power::pow(16, 2) == 16 * vstd::arithmetic::power::pow(16, 1));
    assert(vstd::arithmetic::power::pow(16, 3) == 16 * vstd::arithmetic::power::pow(16, 2));
    assert(vstd::arithmetic::power::pow(16, 4) == 16 * vstd::arithmetic::power::pow(16, 3));
    assert(vstd::arithmetic::power::pow(16, 5) == 16 * vstd::arithmetic::power::pow(16, 4));
    assert(vstd::arithmetic::power::pow(16, 6) == 16 * vstd::arithmetic::power::pow(16, 5));
    assert(vstd::arithmetic::power::pow(16, 7) == 16 * vstd::arithmetic::power::pow(16, 6));
    assert(vstd::arithmetic::power::pow(16, 8) == 16 * vstd::arithmetic::power::pow(16, 7));
}

/// Every code comes back from its text, which holds no colon.
pub proof fn four_cc_round_trip(code: u32)
    ensures
        four_cc_of(four_cc_text(code)) == Some(code),
        !four_cc_text(code).contains(':'),
{
    let t = four_cc_text(code);
    let bytes = code_bytes(code);
    if is_printable(code) {
        assert forall|i: int| 0 <= i < t.len() implies is_graphic((#[trigger] t[i]) as int) && t[i]
            != ':' by {
            assert(t[i] == bytes[i] as char);
        }
        assert(t[0] as int == bytes[0] && t[1] as int == bytes[1] && t[2] as int == bytes[2]
            && t[3] as int == bytes[3]);
    } else {
        codes_fit();
        text::padded_text_reads_back(code as nat, 16, 8);
        assert(text::digit_value(t[0]) < 16);
        assert(text::unsigned_part(t) == t);
        assert forall|i: int| 0 <= i < t.len() implies #[trigger] t[i] != ':' by {
            assert(text::digit_value(t[i]) < 16);
        }
    }
}

// ---------------------------------------------------------------------------
// Descriptions
// ---------------------------------------------------------------------------

/// What identifies a component.
#[derive(Clone, Copy, Debug, PartialEq, Eq, Structural)]
pub struct ComponentId {
    /// Type.
    pub component_type: u32,
    /// Subtype.
    pub component_sub_type: u32,
    /// Manufacturer.
    pub component_manufacturer: u32,
}

/// A component's stable id: its three codes with colons between them.
pub open spec fn unique_id_text(id: ComponentId) -> Seq<char> {
    four_cc_text(id.component_type) + seq![':'] + four_cc_text(id.component_sub_type) + seq![':']
        + four_cc_text(id.component_manufacturer)
}

/// A component's stable id.
#[must_use]
pub fn format_unique_id(id: &ComponentId) -> (s: String)
    ensures
        s@ == unique_id_text(*id),
{
    let mut s = four_cc(id.component_type);
    s.push(':');
    s.append(four_cc(id.component_sub_type).as_str());
    s.push(':');
    s.append(four_cc(id.component_manufacturer).as_str());
    assert(s@ =~= unique_id_text(*id));
    s
}

/// The component that a stable id names: its first three parts are codes.
pub open spec fn component_of(s: Seq<char>) -> Option<ComponentId> {
    let parts = text::pieces(s, ':');
    if parts.len() < 3 {
        None
    } else {
        match (four_cc_of(parts[0]), four_cc_of(parts[1]), four_cc_of(parts[2])) {
            (Some(t), Some(st), Some(m)) => Some(
                ComponentId {
                    component_type: t,
                    component_sub_type: st,
                    component_manufacturer: m,
                },
            ),
            _ => None,
        }
    }
}

/// The component that a stable id names, where it names one.
#[must_use]
pub fn parse_unique_id(s: &str) -> (id: Option<ComponentId>)
    ensures
        id == component_of(s@),
{
    let chars = text::chars_of(s);
    let ghost parts = text::pieces(chars@, ':');
    let (first, rest) = text::split_first(chars.as_slice(), ':');
    proof {
        text::index_or_len_is_first(chars@, ':');
        pieces_step(chars@, ':');
    }
    let rest = match rest {
        Some(rest) => rest,
        None => return None,
    };
    let (second, third) = text::split_first(rest, ':');
    proof {
        text::index_or_len_is_first(rest@, ':');
        pieces_step(rest@, ':');
    }
    let rest = match third {
        Some(rest) => rest,
        None => return None,
    };
    let (third, _) = text::split_first(rest, ':');
    proof {
        text::index_or_len_is_first(rest@, ':');
        pieces_step(rest@, ':');
    }
    assert(parts.len() >= 3);
    assert(parts[0] == first@ && parts[1] == second@ && parts[2] == third@);
    match (code_of(first), code_of(second), code_of(third)) {
        (Some(t), Some(st), Some(m)) => Some(
            ComponentId { component_type: t, component_sub_type: st, component_manufacturer: m },
        ),
        _ => None,
    }
}

/// The first piece of a text, and the others.
pub(crate) proof fn pieces_step(s: Seq<char>, c: char)
    ensures
        text::pieces(s, c).len() >= 1,
        text::pieces(s, c)[0] == s.take(text::index_or_len(s, c)),
        text::index_or_len(s, c) == s.len() ==> text::pieces(s, c).len() == 1,
        text::index_or_len(s, c) < s.len() ==> text::pieces(s, c) == seq![
            s.take(text::index_or_len(s, c)),
        ] + text::pieces(s.skip(text::index_or_len(s, c) + 1), c),
{
    text::index_or_len_is_first(s, c);
    assert(s.take(s.len() as int) =~= s);
}

/// The first piece of `a`, `c` and `b` is `a`, where `c` is not in `a`; the
/// others are those of `b`.
pub(crate) proof fn pieces_of_joined(a: Seq<char>, c: char, b: Seq<char>)
    requires
        !a.contains(c),
    ensures
        text::pieces(a + seq![c] + b, c) == seq![a] + text::pieces(b, c),
{
    let s = a + seq![c] + b;
    text::index_or_len_is_first(s, c);
    let i = text::index_or_len(s, c);
    assert(s[a.len() as int] == c);
    if i == s.len() {
        assert(s.contains(s[a.len() as int]));
    } else if i < a.len() {
        assert(a.contains(a[i]));
    }
    assert(i == a.len());
    assert(s.take(i) =~= a);
    assert(s.skip(i + 1) =~= b);
    pieces_step(s, c);
}

/// Every component comes back from its stable id.
pub proof fn unique_id_round_trip(id: ComponentId)
    ensures
        component_of(unique_id_text(id)) == Some(id),
{
    let t = four_cc_text(id.component_type);
    let st = four_cc_text(id.component_sub_type);
    let m = four_cc_text(id.component_manufacturer);
    four_cc_round_trip(id.component_type);
    four_cc_round_trip(id.component_sub_type);
    four_cc_round_trip(id.component_manufacturer);
    let tail = st + seq![':'] + m;
    assert(unique_id_text(id) =~= t + seq![':'] + tail);
    pieces_of_joined(t, ':', tail);
    pieces_of_joined(st, ':', m);
    text::index_or_len_is_first(m, ':');
    if text::index_or_len(m, ':') < m.len() {
        assert(m.contains(m[text::index_or_len(m, ':')]));
    }
    pieces_step(m, ':');
    assert(m.take(m.len() as int) =~= m);
    let parts = text::pieces(unique_id_text(id), ':');
    assert(parts.len() == 3);
    assert(parts[0] == t && parts[1] == st && parts[2] == m);
}

// ---------------------------------------------------------------------------
// Catalog entries
// ---------------------------------------------------------------------------

/// The category of a type family.
pub open spec fn category_of(type_code: u32) -> PluginCategory {
    if type_code == TYPE_MUSIC_DEVICE {
        PluginCategory::Instrument
    } else if type_code == TYPE_MIDI_PROCESSOR {
        PluginCategory::NoteEffect
    } else if type_code == TYPE_MIXER {
        PluginCategory::Tool
    } else {
        PluginCategory::Effect
    }
}

/// The category of a type family.
#[must_use]
pub fn type_category(type_code: u32) -> (category: PluginCategory)
    ensures
        category == category_of(type_code),
{
    if type_code == TYPE_MUSIC_DEVICE {
        PluginCategory::Instrument
    } else if type_code == TYPE_MIDI_PROCESSOR {
        PluginCategory::NoteEffect
    } else if type_code == TYPE_MIXER {
        PluginCategory::Tool
    } else {
        PluginCategory::Effect
    }
}

/// Where `": "` first stands in `s`, or the length of `s` where it does not.
pub open spec fn break_index(s: Seq<char>) -> int
    decreases s.len(),
{
    if s.len() < 2 {
        s.len() as int
    } else if s[0] == ':' && s[1] == ' ' {
        0
    } else {
        1 + break_index(s.skip(1))
    }
}

/// The vendor and the display name in a component's name: what stands before
/// and after the first `": "`, or no vendor where there is none.
pub open spec fn name_parts(full: Seq<char>) -> (Seq<char>, Seq<char>) {
    let i = break_index(full);
    if i + 2 <= full.len() {
        (full.take(i), full.skip(i + 2))
    } else {
        (Seq::empty(), full)
    }
}

/// The vendor and the display name in a component's name.
#[must_use]
pub fn split_name(full: &str) -> (parts: (String, String))
    ensures
        (parts.0@, parts.1@) == name_parts(full@),
{
    let chars = text::chars_of(full);
    let len: usize = chars.len();
    let mut i: usize = 0;
    assert(chars@.skip(0) =~= chars@);
    while i < len
        invariant
            i <= len,
            len == chars@.len(),
            chars@ == full@,
            break_index(chars@) == i + break_index(chars@.skip(i as int)),
        decreases len - i,
    {
        let ghost rest = chars@.skip(i as int);
        if len - i >= 2 && chars[i] == ':' && chars[i + 1] == ' ' {
            assert(rest[0] == chars@[i as int] && rest[1] == chars@[i + 1]);
            let vendor = text::string_of(
                vstd::slice::slice_subrange(chars.as_slice(), 0, i),
            );
            let name = text::string_of(
                vstd::slice::slice_subrange(chars.as_slice(), i + 2, len),
            );
            assert(vendor@ =~= full@.take(i as int));
            assert(name@ =~= full@.skip(i + 2));
            return (vendor, name);
        }
        proof {
            if rest.len() >= 2 {
                assert(rest[0] == chars@[i as int] && rest[1] == chars@[i + 1]);
                assert(rest.skip(1) =~= chars@.skip(i + 1));
            } else {
                assert(rest.skip(1).len() == 0);
                assert(chars@.skip(i + 1).len() == 0);
            }
        }
        i += 1;
    }
    assert(break_index(chars@.skip(i as int)) == 0);
    (String::new(), String::from_str(full))
}

/// A vendor without `": "` in its name comes back from a component's name.
pub proof fn names_split_where_they_were_joined(vendor: Seq<char>, name: Seq<char>)
    requires
        break_index(vendor) == vendor.len(),
        vendor.len() > 0 ==> vendor.last() != ':',
    ensures
        name_parts(vendor + seq![':', ' '] + name) == (vendor, name),
{
    let full = vendor + seq![':', ' '] + name;
    break_index_of_joined(vendor, name);
    assert(full.take(vendor.len() as int) =~= vendor);
    assert(full.skip(vendor.len() as int + 2) =~= name);
}

proof fn break_index_of_joined(vendor: Seq<char>, name: Seq<char>)
    requires
        break_index(vendor) == vendor.len(),
        vendor.len() > 0 ==> vendor.last() != ':',
    ensures
        break_index(vendor + seq![':', ' '] + name) == vendor.len(),
    decreases vendor.len(),
{
    let full = vendor + seq![':', ' '] + name;
    if vendor.len() == 0 {
        assert(full[0] == ':' && full[1] == ' ');
    } else {
        assert(full.skip(1) =~= vendor.skip(1) + seq![':', ' '] + name);
        if vendor.len() == 1 {
            assert(vendor[0] == vendor.last());
            assert(full[0] == vendor[0]);
            assert(break_index(vendor.skip(1)) == 0);
        } else {
            assert(full[0] == vendor[0] && full[1] == vendor[1]);
            assert(vendor.skip(1).last() == vendor.last());
        }
        break_index_of_joined(vendor.skip(1), name);
    }
}

/// What the registry says of a component.
pub struct ComponentFacts {
    /// What identifies it.
    pub id: ComponentId,
    /// Whether it is an app extension.
    pub is_v3: bool,
    /// Its full name, or nothing where it has none.
    pub name: String,
    /// Its version, or 0.
    pub version: u32,
}

/// The catalog entry of a component of the family `family`.
pub open spec fn entry(facts: ComponentFacts, family: u32, format: Seq<char>) -> PluginInfoView {
    PluginInfoView {
        name: name_parts(facts.name@).1,
        vendor: name_parts(facts.name@).0,
        version: facts.version,
        category: category_of(family),
        path: Seq::empty(),
        unique_id: unique_id_text(facts.id),
        format,
        has_editor: false,
        accepts_midi: family != TYPE_EFFECT && family != TYPE_GENERATOR,
    }
}

/// The catalog entry of a component of the family `family`.
pub(crate) fn make_entry(facts: &ComponentFacts, family: u32, format: &'static str) -> (info:
    PluginInfo)
    ensures
        info@ == entry(*facts, family, format@),
{
    let (vendor, name) = split_name(facts.name.as_str());
    PluginInfo {
        name,
        vendor,
        version: facts.version,
        category: type_category(family),
        path: String::new(),
        unique_id: format_unique_id(&facts.id),
        format,
        has_editor: false,
        accepts_midi: family != TYPE_EFFECT && family != TYPE_GENERATOR,
    }
}

/// The catalog entry of a component that was found in the family `family`. App
/// extensions get none here.
pub open spec fn listed(facts: ComponentFacts, family: u32) -> Option<PluginInfoView> {
    if facts.is_v3 {
        None
    } else {
        Some(entry(facts, family, au::FORMAT@))
    }
}

/// The catalog entry of a component that was found in the family `family`. App
/// extensions get none here.
#[must_use]
pub fn component_to_info(facts: &ComponentFacts, family: u32) -> (info: Option<PluginInfo>)
    ensures
        match info {
            Some(i) => listed(*facts, family) == Some(i@),
            None => listed(*facts, family) is None,
        },
{
    if facts.is_v3 {
        None
    } else {
        Some(make_entry(facts, family, au::FORMAT))
    }
}

// ---------------------------------------------------------------------------
// What codes and names mean
// ---------------------------------------------------------------------------

/// Four bytes come back from the number that they make.
proof fn code_splits(a: int, b: int, c: int, d: int)
    requires
        0 <= a < 0x100,
        0 <= b < 0x100,
        0 <= c < 0x100,
        0 <= d < 0x100,
    ensures
        ({
            let code = a * 0x100_0000 + b * 0x1_0000 + c * 0x100 + d;
            &&& code / 0x100_0000 == a
            &&& (code / 0x1_0000) % 0x100 == b
            &&& (code / 0x100) % 0x100 == c
            &&& code % 0x100 == d
        }),
{
    let code = a * 0x100_0000 + b * 0x1_0000 + c * 0x100 + d;
    assert(code / 0x1_0000 == a * 0x100 + b);
    assert(code / 0x100 == (a * 0x100 + b) * 0x100 + c);
}

/// The characters of a code stand in its text from its highest byte to its lowest.
pub proof fn codes_are_written_from_the_highest_byte(a: u8, b: u8, c: u8, d: u8)
    requires
        is_graphic(a as int) && a != ':' as u8,
        is_graphic(b as int) && b != ':' as u8,
        is_graphic(c as int) && c != ':' as u8,
        is_graphic(d as int) && d != ':' as u8,
    ensures
        four_cc_text((a * 0x100_0000 + b * 0x1_0000 + c * 0x100 + d) as u32) == seq![
            a as char,
            b as char,
            c as char,
            d as char,
        ],
        four_cc_of(seq![a as char, b as char, c as char, d as char]) == Some(
            (a * 0x100_0000 + b * 0x1_0000 + c * 0x100 + d) as u32,
        ),
{
    let code = (a * 0x100_0000 + b * 0x1_0000 + c * 0x100 + d) as u32;
    code_splits(a as int, b as int, c as int, d as int);
    assert(code_bytes(code) =~= seq![a, b, c, d]);
    assert(four_cc_text(code) =~= seq![a as char, b as char, c as char, d as char]);
    four_cc_round_trip(code);
}

/// Printable characters are those that show: neither control characters nor spaces.
pub proof fn printable_characters_show(b: u8)
    ensures
        is_graphic(b as int) <==> (b > ' ' as u8 && b <= '~' as u8),
{
}

/// A code that cannot be written with its characters is written with eight
/// hexadecimal digits, the highest first.
pub proof fn other_codes_are_hexadecimal(code: u32)
    requires
        !is_printable(code),
    ensures
        four_cc_text(code).len() == 8,
        text::number_of(four_cc_text(code), 16) == Some(code as nat),
{
    codes_fit();
    let t = four_cc_text(code);
    text::padded_text_reads_back(code as nat, 16, 8);
    assert(text::digit_value(t[0]) < 16);
    assert(text::unsigned_part(t) == t);
}

/// The families have the codes by which Audio Units are known.
pub proof fn families_have_their_codes()
    ensures
        four_cc_of("aufx"@) == Some(TYPE_EFFECT),
        four_cc_of("aumu"@) == Some(TYPE_MUSIC_DEVICE),
        four_cc_of("augn"@) == Some(TYPE_GENERATOR),
        four_cc_of("aumf"@) == Some(TYPE_MUSIC_EFFECT),
        four_cc_of("aumi"@) == Some(TYPE_MIDI_PROCESSOR),
        four_cc_of("aumx"@) == Some(TYPE_MIXER),
{
    reveal_strlit("aufx");
    reveal_strlit("aumu");
    reveal_strlit("augn");
    reveal_strlit("aumf");
    reveal_strlit("aumi");
    reveal_strlit("aumx");
}

/// A stable id is read from left to right: the type, the subtype and the
/// manufacturer.
pub proof fn stable_ids_name_the_type_first(id: ComponentId)
    ensures
        ({
            let s = unique_id_text(id);
            let t = four_cc_text(id.component_type);
            let m = four_cc_text(id.component_manufacturer);
            &&& text::pieces(s, ':') == seq![t, four_cc_text(id.component_sub_type), m]
            &&& s.take(t.len() as int) == t
            &&& text::ends_with_text(s, m)
        }),
{
    let t = four_cc_text(id.component_type);
    let st = four_cc_text(id.component_sub_type);
    let m = four_cc_text(id.component_manufacturer);
    four_cc_round_trip(id.component_type);
    four_cc_round_trip(id.component_sub_type);
    four_cc_round_trip(id.component_manufacturer);
    let tail = st + seq![':'] + m;
    let s = unique_id_text(id);
    assert(s =~= t + seq![':'] + tail);
    pieces_of_joined(t, ':', tail);
    pieces_of_joined(st, ':', m);
    text::index_or_len_is_first(m, ':');
    if text::index_or_len(m, ':') < m.len() {
        assert(m.contains(m[text::index_or_len(m, ':')]));
    }
    pieces_step(m, ':');
    assert(m.take(m.len() as int) =~= m);
    assert(text::pieces(s, ':') =~= seq![t, st, m]);
    assert(s.take(t.len() as int) =~= t);
    assert(s.skip(s.len() - m.len()) =~= m);
}

/// Which families take MIDI, and what category each has: instruments and MIDI
/// processors have their own, mixers are tools, and all others are effects. An app
/// extension is not listed here; every other component is, once, by its id.
pub proof fn families_have_their_kind(facts: ComponentFacts, family: u32)
    ensures
        facts.is_v3 ==> listed(facts, family) is None,
        !facts.is_v3 ==> {
            &&& listed(facts, family) matches Some(info)
            &&& component_of(info.unique_id) == Some(facts.id)
            &&& info.version == facts.version
            &&& (Some(family) == four_cc_of("aumu"@) <==> info.category == PluginCategory::Instrument)
            &&& (Some(family) == four_cc_of("aumi"@) <==> info.category == PluginCategory::NoteEffect)
            &&& (Some(family) == four_cc_of("aumx"@) <==> info.category == PluginCategory::Tool)
            &&& (Some(family) == four_cc_of("aufx"@) ==> info.category == PluginCategory::Effect)
            &&& info.category != PluginCategory::Analyzer
            &&& (Some(family) == four_cc_of("aufx"@) || Some(family) == four_cc_of("augn"@)
                <==> !info.accepts_midi)
        },
{
    families_have_their_codes();
    unique_id_round_trip(facts.id);
}

/// Each of the families is scanned, and none twice.
pub proof fn every_family_is_scanned_once(i: int, j: int)
    requires
        0 <= i < j < scan_types_spec().len(),
    ensures
        scan_types_spec()[i] != scan_types_spec()[j],
        scan_types_spec().len() == 6,
        scan_types_spec().contains(TYPE_EFFECT),
        scan_types_spec().contains(TYPE_MUSIC_DEVICE),
        scan_types_spec().contains(TYPE_GENERATOR),
        scan_types_spec().contains(TYPE_MUSIC_EFFECT),
        scan_types_spec().contains(TYPE_MIDI_PROCESSOR),
        scan_types_spec().contains(TYPE_MIXER),
{
    let all = scan_types_spec();
    assert(all[0] == TYPE_EFFECT && all[1] == TYPE_MUSIC_DEVICE && all[2] == TYPE_GENERATOR
        && all[3] == TYPE_MUSIC_EFFECT && all[4] == TYPE_MIDI_PROCESSOR && all[5] == TYPE_MIXER);
}

/// Four characters are a code just where each of them is printable; any other text is
/// one just where it is eight hexadecimal digits.
pub proof fn only_codes_are_read(s: Seq<char>)
    ensures
        s.len() == 4 ==> (four_cc_of(s) is Some <==> is_graphic(s[0] as int) && is_graphic(
            s[1] as int,
        ) && is_graphic(s[2] as int) && is_graphic(s[3] as int)),
        s.len() == 8 ==> (four_cc_of(s) is Some <==> text::number_of(s, 16) is Some
            && text::number_of(s, 16)->0 < 0x1_0000_0000),
        s.len() != 4 && s.len() != 8 ==> four_cc_of(s) is None,
{
    if s.len() == 4 && is_graphic(s[0] as int) && is_graphic(s[1] as int) && is_graphic(s[2] as int)
        && is_graphic(s[3] as int) {
        assert(all_graphic(s));
    }
    if s.len() == 4 && all_graphic(s) {
        assert(is_graphic(s[0] as int) && is_graphic(s[1] as int) && is_graphic(s[2] as int)
            && is_graphic(s[3] as int));
    }
}

/// A component is listed under the name and the vendor that its full name holds, the
/// vendor first; one without a vendor under its full name.
pub proof fn components_are_listed_by_name(
    facts: ComponentFacts,
    family: u32,
    format: Seq<char>,
    vendor: Seq<char>,
    name: Seq<char>,
)
    requires
        break_index(vendor) == vendor.len(),
        vendor.len() > 0 ==> vendor.last() != ':',
    ensures
        facts.name@ == vendor + seq![':', ' '] + name ==> entry(facts, family, format).vendor
            == vendor && entry(facts, family, format).name == name,
        facts.name@ == vendor ==> entry(facts, family, format).name == vendor && entry(
            facts,
            family,
            format,
        ).vendor.len() == 0,
        entry(facts, family, format).format == format,
        entry(facts, family, format).path.len() == 0,
{
    names_split_where_they_were_joined(vendor, name);
}

/// Nothing breaks a name but a colon with a space behind it, and the first one does.
pub proof fn names_break_at_the_first_colon(s: Seq<char>)
    ensures
        0 <= break_index(s) <= s.len(),
        break_index(s) < s.len() - 1 ==> s[break_index(s)] == ':' && s[break_index(s) + 1] == ' ',
        forall|i: int, j: int|
            #![trigger s[i], s[j]]
            0 <= i && j == i + 1 && j < s.len() && i < break_index(s) ==> !(s[i] == ':' && s[j]
                == ' '),
    decreases s.len(),
{
    if s.len() >= 2 && !(s[0] == ':' && s[1] == ' ') {
        let rest = s.skip(1);
        names_break_at_the_first_colon(rest);
        assert forall|i: int, j: int|
            #![trigger s[i], s[j]]
            0 <= i && j == i + 1 && j < s.len() && i < break_index(s) implies !(s[i] == ':' && s[j]
            == ' ') by {
            if i > 0 {
                assert(rest[i - 1] == s[i] && rest[j - 1] == s[j]);
            }
        }
    }
}

} // verus!
