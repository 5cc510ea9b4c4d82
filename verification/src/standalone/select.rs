//! Choosing the format and the plugin to run.

use crate::error::{Error, ErrorView};
use crate::au::ids;
use crate::info::{PluginInfo, PluginInfoView};
use crate::text;
use vstd::prelude::*;
use vstd::string::StringExecFns;

verus! {

/// The formats that the runner knows. It can be asked for all but app extensions,
/// which it lists only.
#[derive(Debug, Clone, Copy, PartialEq, Eq, Structural)]
pub enum Format {
    /// CLAP.
    Clap,
    /// VST3.
    Vst3,
    /// Audio Unit.
    Au,
    /// LV2.
    Lv2,
    /// Audio Unit app extension.
    Au3,
}

impl Format {
    /// The short name of the format.
    pub open spec fn tag_spec(self) -> Seq<char> {
        match self {
            Format::Clap => "clap"@,
            Format::Vst3 => "vst3"@,
            Format::Au => "au"@,
            Format::Lv2 => "lv2"@,
            Format::Au3 => "au3"@,
        }
    }

    /// The format that `s` asks for by its short name, whatever its case.
    pub open spec fn of_text(s: Seq<char>) -> Option<Format> {
        let lowered = text::ascii_lower(s);
        if lowered == "clap"@ {
            Some(Format::Clap)
        } else if lowered == "vst3"@ {
            Some(Format::Vst3)
        } else if lowered == "au"@ {
            Some(Format::Au)
        } else if lowered == "lv2"@ {
            Some(Format::Lv2)
        } else {
            None
        }
    }

    /// The format that `s` asks for, where it asks for one.
    #[must_use]
    pub fn parse(s: &str) -> (format: Option<Format>)
        ensures
            format == Format::of_text(s@),
    {
        let lowered = text::lower(text::chars_of(s).as_slice());
        let l = lowered.as_slice();
        if text::is_text(l, "clap") {
            Some(Format::Clap)
        } else if text::is_text(l, "vst3") {
            Some(Format::Vst3)
        } else if text::is_text(l, "au") {
            Some(Format::Au)
        } else if text::is_text(l, "lv2") {
            Some(Format::Lv2)
        } else {
            None
        }
    }

    /// The short name of the format, for lists and file names.
    #[must_use]
    pub fn tag(self) -> (tag: &'static str)
        ensures
            tag@ == self.tag_spec(),
    {
        match self {
            Format::Clap => "clap",
            Format::Vst3 => "vst3",
            Format::Au => "au",
            Format::Lv2 => "lv2",
            Format::Au3 => "au3",
        }
    }
}

/// Every format that can be asked for comes back from its short name.
pub proof fn tags_round_trip(format: Format)
    requires
        format != Format::Au3,
    ensures
        Format::of_text(format.tag_spec()) == Some(format),
{
    reveal_strlit("clap");
    reveal_strlit("vst3");
    reveal_strlit("au");
    reveal_strlit("lv2");
    let t = format.tag_spec();
    assert(text::ascii_lower(t) =~= t);
    assert("clap"@[0] != "vst3"@[0]);
    assert("clap"@.len() == 4 && "vst3"@.len() == 4 && "au"@.len() == 2 && "lv2"@.len() == 3);
}

/// How the plugin to run is named.
#[derive(Debug)]
pub enum PluginSelector {
    /// By its whole id.
    Id(String),
    /// By part of its name, whatever its case.
    Name(String),
}

/// What the user said.
pub open spec fn selector_text(selector: PluginSelector) -> Seq<char> {
    match selector {
        PluginSelector::Id(s) => s@,
        PluginSelector::Name(s) => s@,
    }
}

/// Whether a plugin is the one that is named.
pub open spec fn selects(selector: PluginSelector, info: PluginInfo) -> bool {
    match selector {
        PluginSelector::Id(id) => info@.unique_id == id@,
        PluginSelector::Name(name) => text::contains_text(
            text::ascii_lower(info@.name),
            text::ascii_lower(name@),
        ),
    }
}

fn selected(selector: &PluginSelector, info: &PluginInfo) -> (found: bool)
    ensures
        found == selects(*selector, *info),
{
    match selector {
        PluginSelector::Id(id) => text::same_str(info.unique_id.as_str(), id.as_str()),
        PluginSelector::Name(name) => {
            let needle = text::lower(text::chars_of(name.as_str()).as_slice());
            let hay = text::lower(text::chars_of(info.name.as_str()).as_slice());
            text::contains(hay.as_slice(), needle.as_slice())
        },
    }
}

/// The first plugin that is the one that is named.
pub fn load_by_selector<'a>(entries: &'a [PluginInfo], selector: &PluginSelector) -> (result: Result<
    &'a PluginInfo,
    Error,
>)
    ensures
        match result {
            Ok(info) => exists|i: int|
                0 <= i < entries@.len() && *info == #[trigger] entries@[i] && selects(
                    *selector,
                    entries@[i],
                ) && forall|j: int| 0 <= j < i ==> !selects(*selector, #[trigger] entries@[j]),
            Err(e) => (forall|j: int|
                0 <= j < entries@.len() ==> !selects(*selector, #[trigger] entries@[j])) && e@
                == ErrorView::PluginNotFound(selector_text(*selector)),
        },
{
    let mut i: usize = 0;
    while i < entries.len()
        invariant
            i <= entries.len(),
            forall|j: int| 0 <= j < i ==> !selects(*selector, #[trigger] entries@[j]),
        decreases entries.len() - i,
    {
        if selected(selector, &entries[i]) {
            assert(entries@[i as int] == entries@[i as int]);
            return Ok(&entries[i]);
        }
        i += 1;
    }
    Err(
        Error::PluginNotFound(
            match selector {
                PluginSelector::Id(s) => s.clone(),
                PluginSelector::Name(s) => s.clone(),
            },
        ),
    )
}

/// The plugins of one format, with the format.
pub open spec fn tagged(format: Format, entries: Seq<PluginInfo>) -> Seq<(Format, PluginInfo)> {
    Seq::new(entries.len(), |i: int| (format, entries[i]))
}

/// What scanning one format gave, where it succeeded, with the format.
pub open spec fn tagged_scan(format: Format, scan: Option<Vec<PluginInfo>>) -> Seq<
    (Format, PluginInfo),
> {
    match scan {
        Some(entries) => tagged(format, entries@),
        None => Seq::empty(),
    }
}

/// Appends what scanning one format gave, where it succeeded.
fn append_scan(
    out: &mut Vec<(Format, PluginInfo)>,
    format: Format,
    scan: Option<Vec<PluginInfo>>,
)
    ensures
        final(out)@ == old(out)@ + tagged_scan(format, scan),
{
    let ghost first = out@;
    match scan {
        Some(entries) => {
            let mut entries = entries;
            let ghost all = entries@;
            let ghost mut i: int = 0;
            while entries.len() > 0
                invariant
                    0 <= i <= all.len(),
                    entries@ == all.skip(i),
                    out@ == first + tagged(format, all.take(i)),
                decreases entries.len(),
            {
                assert(entries@[0] == all[i]);
                let info = entries.remove(0);
                out.push((format, info));
                proof {
                    i = i + 1;
                    assert(entries@ =~= all.skip(i));
                    assert(out@ =~= first + tagged(format, all.take(i)));
                }
            }
            assert(all.take(i) =~= all);
        },
        None => {
            assert(out@ =~= first + tagged_scan(format, scan));
        },
    }
}

/// What scanning the formats gave, one after the other.
pub open spec fn listing(
    clap: Option<Vec<PluginInfo>>,
    vst3: Option<Vec<PluginInfo>>,
    au: Option<Vec<PluginInfo>>,
    lv2: Option<Vec<PluginInfo>>,
    au3: Option<Vec<PluginInfo>>,
) -> Seq<(Format, PluginInfo)> {
    tagged_scan(Format::Clap, clap) + tagged_scan(Format::Vst3, vst3) + tagged_scan(Format::Au, au)
        + tagged_scan(Format::Lv2, lv2) + tagged_scan(Format::Au3, au3)
}

/// What scanning `format` gave.
pub open spec fn scan_of(
    format: Format,
    clap: Option<Vec<PluginInfo>>,
    vst3: Option<Vec<PluginInfo>>,
    au: Option<Vec<PluginInfo>>,
    lv2: Option<Vec<PluginInfo>>,
    au3: Option<Vec<PluginInfo>>,
) -> Option<Vec<PluginInfo>> {
    match format {
        Format::Clap => clap,
        Format::Vst3 => vst3,
        Format::Au => au,
        Format::Lv2 => lv2,
        Format::Au3 => au3,
    }
}

/// Every plugin that was found, with its format: CLAP, VST3, Audio Unit, LV2,
/// Audio Unit app extension. A format whose scan failed, or that was not scanned,
/// has none.
#[must_use]
pub fn list_plugins(
    clap: Option<Vec<PluginInfo>>,
    vst3: Option<Vec<PluginInfo>>,
    au: Option<Vec<PluginInfo>>,
    lv2: Option<Vec<PluginInfo>>,
    au3: Option<Vec<PluginInfo>>,
) -> (all: Vec<(Format, PluginInfo)>)
    ensures
        all@ == listing(clap, vst3, au, lv2, au3),
{
    let mut all: Vec<(Format, PluginInfo)> = Vec::new();
    append_scan(&mut all, Format::Clap, clap);
    append_scan(&mut all, Format::Vst3, vst3);
    append_scan(&mut all, Format::Au, au);
    append_scan(&mut all, Format::Lv2, lv2);
    append_scan(&mut all, Format::Au3, au3);
    assert(all@ =~= listing(clap, vst3, au, lv2, au3));
    all
}

/// Every plugin that scanning any of the formats found is listed, with the format
/// that it was found by.
pub proof fn found_plugins_are_listed(
    clap: Option<Vec<PluginInfo>>,
    vst3: Option<Vec<PluginInfo>>,
    au: Option<Vec<PluginInfo>>,
    lv2: Option<Vec<PluginInfo>>,
    au3: Option<Vec<PluginInfo>>,
    format: Format,
    i: int,
)
    requires
        ({
            let scan = scan_of(format, clap, vst3, au, lv2, au3);
            scan is Some && 0 <= i < scan->0@.len()
        }),
    ensures
        listing(clap, vst3, au, lv2, au3).contains(
            (format, scan_of(format, clap, vst3, au, lv2, au3)->0@[i]),
        ),
{
    let a = tagged_scan(Format::Clap, clap);
    let b = tagged_scan(Format::Vst3, vst3);
    let c = tagged_scan(Format::Au, au);
    let d = tagged_scan(Format::Lv2, lv2);
    let e = tagged_scan(Format::Au3, au3);
    let all = listing(clap, vst3, au, lv2, au3);
    match format {
        Format::Clap => assert(all[i] == a[i]),
        Format::Vst3 => assert(all[a.len() + i] == b[i]),
        Format::Au => assert(all[a.len() + b.len() + i] == c[i]),
        Format::Lv2 => assert(all[a.len() + b.len() + c.len() + i] == d[i]),
        Format::Au3 => assert(all[a.len() + b.len() + c.len() + d.len() + i] == e[i]),
    }
}

/// The line that lists a plugin for scripts.
pub open spec fn line_of(format: Format, info: PluginInfoView) -> Seq<char> {
    format.tag_spec() + " "@ + info.vendor + " "@ + info.name + " "@ + info.unique_id + " "@ + (if
        info.has_editor {
        "editor"@
    } else {
        "-"@
    })
}

/// The line that lists a plugin for scripts.
#[must_use]
pub fn list_line(format: Format, info: &PluginInfo) -> (line: String)
    ensures
        line@ == line_of(format, info@),
{
    let mut line = String::from_str(format.tag());
    line.append(" ");
    line.append(info.vendor.as_str());
    line.append(" ");
    line.append(info.name.as_str());
    line.append(" ");
    line.append(info.unique_id.as_str());
    line.append(" ");
    line.append(
        if info.has_editor {
            "editor"
        } else {
            "-"
        },
    );
    line
}

// ---------------------------------------------------------------------------
// What choices mean
// ---------------------------------------------------------------------------

/// No two formats have the same short name. A text asks for a format just where it
/// is that format's short name, whatever its case; app extensions cannot be asked
/// for.
pub proof fn formats_are_told_apart(a: Format, b: Format, s: Seq<char>)
    ensures
        a.tag_spec() == b.tag_spec() ==> a == b,
        Format::of_text(s) == Some(a) <==> a != Format::Au3 && text::ascii_lower(s) == a.tag_spec(),
        Format::of_text(s) != Some(Format::Au3),
{
    reveal_strlit("clap");
    reveal_strlit("vst3");
    reveal_strlit("au");
    reveal_strlit("lv2");
    reveal_strlit("au3");
    assert("clap"@[0] == 'c' && "vst3"@[0] == 'v' && "lv2"@[0] == 'l' && "au3"@[0] == 'a');
    assert("clap"@.len() == 4 && "vst3"@.len() == 4 && "au"@.len() == 2 && "lv2"@.len() == 3
        && "au3"@.len() == 3);
}

/// A plugin can be named by any part of its name, whatever the case of either; two
/// plugins of the same name are named by the same words.
pub proof fn names_select_plugins(
    before: Seq<char>,
    part: String,
    after: Seq<char>,
    info: PluginInfo,
    other: PluginInfo,
)
    ensures
        info@.name == before + part@ + after ==> selects(PluginSelector::Name(part), info),
        text::ascii_lower(info@.name) == text::ascii_lower(other@.name) ==> selects(
            PluginSelector::Name(part),
            info,
        ) == selects(PluginSelector::Name(part), other),
        part@.len() > info@.name.len() ==> !selects(PluginSelector::Name(part), info),
{
    if info@.name == before + part@ + after {
        let low = text::ascii_lower(info@.name);
        assert(low =~= text::ascii_lower(before) + text::ascii_lower(part@) + text::ascii_lower(
            after,
        ));
        text::texts_are_found_where_they_are(
            text::ascii_lower(before),
            text::ascii_lower(part@),
            text::ascii_lower(after),
        );
    }
}

/// An id names the plugins that have just that id.
pub proof fn ids_select_plugins(id: String, info: PluginInfo, other: PluginInfo)
    ensures
        selects(PluginSelector::Id(id), info) <==> info@.unique_id == id@,
        selects(PluginSelector::Id(id), info) && selects(PluginSelector::Id(id), other)
            ==> info@.unique_id == other@.unique_id,
{
}

/// The place of a format in lists.
pub open spec fn rank(format: Format) -> int {
    match format {
        Format::Clap => 0,
        Format::Vst3 => 1,
        Format::Au => 2,
        Format::Lv2 => 3,
        Format::Au3 => 4,
    }
}

/// How many plugins a scan found.
pub open spec fn found(scan: Option<Vec<PluginInfo>>) -> nat {
    match scan {
        Some(entries) => entries@.len(),
        None => 0,
    }
}

/// The listing holds nothing but what was found, one format after the other.
pub proof fn listings_are_in_order(
    clap: Option<Vec<PluginInfo>>,
    vst3: Option<Vec<PluginInfo>>,
    au: Option<Vec<PluginInfo>>,
    lv2: Option<Vec<PluginInfo>>,
    au3: Option<Vec<PluginInfo>>,
)
    ensures
        listing(clap, vst3, au, lv2, au3).len() == found(clap) + found(vst3) + found(au) + found(
            lv2,
        ) + found(au3),
        forall|i: int, j: int|
            0 <= i < j < listing(clap, vst3, au, lv2, au3).len() ==> rank(
                (#[trigger] listing(clap, vst3, au, lv2, au3)[i]).0,
            ) <= rank((#[trigger] listing(clap, vst3, au, lv2, au3)[j]).0),
{
}

/// Whether a text holds no space.
pub open spec fn is_word(s: Seq<char>) -> bool {
    !s.contains(' ')
}

/// A script that splits a line at its spaces reads the format, the vendor, the name,
/// the id, and whether there is an editor, where none of these holds a space.
pub proof fn lines_can_be_split(format: Format, info: PluginInfoView)
    requires
        is_word(info.vendor),
        is_word(info.name),
        is_word(info.unique_id),
    ensures
        text::pieces(line_of(format, info), ' ') == seq![
            format.tag_spec(),
            info.vendor,
            info.name,
            info.unique_id,
            if info.has_editor {
                "editor"@
            } else {
                "-"@
            },
        ],
{
    reveal_strlit("clap");
    reveal_strlit("vst3");
    reveal_strlit("au");
    reveal_strlit("lv2");
    reveal_strlit("au3");
    reveal_strlit("editor");
    reveal_strlit("-");
    reveal_strlit(" ");
    let tag = format.tag_spec();
    let last = if info.has_editor {
        "editor"@
    } else {
        "-"@
    };
    assert(is_word(tag)) by {
        assert forall|i: int| 0 <= i < tag.len() implies #[trigger] tag[i] != ' ' by {}
    }
    assert(is_word(last)) by {
        assert forall|i: int| 0 <= i < last.len() implies #[trigger] last[i] != ' ' by {}
    }
    let s4 = info.unique_id + seq![' '] + last;
    let s3 = info.name + seq![' '] + s4;
    let s2 = info.vendor + seq![' '] + s3;
    let s1 = tag + seq![' '] + s2;
    assert(" "@ =~= seq![' ']);
    assert(line_of(format, info) =~= s1);
    ids::pieces_of_joined(tag, ' ', s2);
    ids::pieces_of_joined(info.vendor, ' ', s3);
    ids::pieces_of_joined(info.name, ' ', s4);
    ids::pieces_of_joined(info.unique_id, ' ', last);
    text::index_or_len_is_first(last, ' ');
    if text::index_or_len(last, ' ') < last.len() {
        assert(last.contains(last[text::index_or_len(last, ' ')]));
    }
    ids::pieces_step(last, ' ');
    assert(last.take(last.len() as int) =~= last);
    assert(text::pieces(line_of(format, info), ' ') =~= seq![
        tag,
        info.vendor,
        info.name,
        info.unique_id,
        last,
    ]);
}

} // verus!
