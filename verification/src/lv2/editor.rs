//! The user interface of an LV2 plugin: opening it, what it writes, and what it
//! is told when the host is idle.

use crate::error::{Error, ErrorView};
use crate::lv2::host::{EditorState, Lv2Plugin};
use crate::text;
use vstd::prelude::*;
use vstd::string::StringExecFns;

verus! {

/// Descriptors that a library is asked for at most.
pub const MAX_DESCRIPTORS: u32 = 64;

/// What happened while a user interface is being opened.
pub enum OpenEvent {
    /// The host asks for it to be opened.
    Start,
    /// Its library was loaded, or failed to with a description.
    Library(Option<String>),
    /// The library's entry point was found, or not, with a description.
    Symbol(Option<String>),
    /// The library was asked for the descriptor with this index and has the one
    /// of this URI.
    Descriptor {
        /// The index.
        index: u32,
        /// The descriptor's URI, where it has one.
        uri: Option<String>,
    },
    /// The library was asked for a descriptor and has no more.
    NoDescriptor,
    /// The user interface was instantiated, or not.
    Instantiated {
        /// Whether there is an instance.
        ok: bool,
        /// Whether it wants to be called when the host is idle.
        has_idle: bool,
        /// Whether it can be resized.
        has_resize: bool,
    },
}

/// What to do next.
pub enum OpenAction {
    /// Load the library.
    LoadLibrary,
    /// Look up its entry point.
    FindSymbol,
    /// Ask for the descriptor with this index.
    AskDescriptor(u32),
    /// Instantiate it, with this bundle directory.
    Instantiate(String),
    /// Nothing: it is open.
    Done,
}

/// What to do next, with text.
pub enum OpenActionView {
    /// Load the library.
    LoadLibrary,
    /// Look up its entry point.
    FindSymbol,
    /// Ask for the descriptor with this index.
    AskDescriptor(u32),
    /// Instantiate it, with this bundle directory.
    Instantiate(Seq<char>),
    /// Nothing: it is open.
    Done,
}

impl View for OpenAction {
    type V = OpenActionView;

    open spec fn view(&self) -> OpenActionView {
        match self {
            OpenAction::LoadLibrary => OpenActionView::LoadLibrary,
            OpenAction::FindSymbol => OpenActionView::FindSymbol,
            OpenAction::AskDescriptor(index) => OpenActionView::AskDescriptor(*index),
            OpenAction::Instantiate(dir) => OpenActionView::Instantiate(dir@),
            OpenAction::Done => OpenActionView::Done,
        }
    }
}

/// `path` with the separator at its end.
pub open spec fn with_separator(path: Seq<char>, separator: char) -> Seq<char> {
    if path.len() > 0 && path.last() == separator {
        path
    } else {
        path.push(separator)
    }
}

/// The path of a bundle as LV2 wants it: with the separator at its end, and
/// without a NUL in it.
pub fn path_with_trailing_separator(path: &str, separator: char) -> (result: Result<String, Error>)
    ensures
        match result {
            Ok(out) => !with_separator(path@, separator).contains('\0') && out@ == with_separator(
                path@,
                separator,
            ),
            Err(e) => with_separator(path@, separator).contains('\0') && e@ == ErrorView::Other(
                "lv2 ui bundle path contains NUL"@,
            ),
        },
{
    let chars = text::chars_of(path);
    let mut out = String::from_str(path);
    if chars.len() == 0 || chars[chars.len() - 1] != separator {
        out.push(separator);
    }
    if text::has_char(out.as_str(), '\0') {
        Err(Error::other("lv2 ui bundle path contains NUL"))
    } else {
        Ok(out)
    }
}

/// What follows `event` while a user interface is being opened.
pub open spec fn open_step_spec(
    plugin: Lv2Plugin,
    event: OpenEvent,
    separator: char,
    shown_uri: Seq<char>,
) -> Result<OpenActionView, ErrorView> {
    let no_match = Err::<OpenActionView, ErrorView>(
        ErrorView::Other("no lv2ui_descriptor matching "@ + shown_uri),
    );
    match plugin.ui {
        None => Err(ErrorView::Other("lv2 plugin has no UI"@)),
        Some(ui) => {
            let dir = with_separator(ui.bundle_path@, separator);
            match event {
                OpenEvent::Start => if plugin.editor is Some {
                    Ok(OpenActionView::Done)
                } else {
                    Ok(OpenActionView::LoadLibrary)
                },
                OpenEvent::Library(None) => Ok(OpenActionView::FindSymbol),
                OpenEvent::Library(Some(why)) => Err(
                    ErrorView::Other("lv2 ui dlopen "@ + ui.binary_path@ + ": "@ + why@),
                ),
                OpenEvent::Symbol(None) => Ok(OpenActionView::AskDescriptor(0)),
                OpenEvent::Symbol(Some(why)) => Err(
                    ErrorView::Other("lv2 ui_descriptor symbol: "@ + why@),
                ),
                OpenEvent::NoDescriptor => no_match,
                OpenEvent::Descriptor { index, uri } => if uri is Some && uri->0@ == ui.ui_uri@ {
                    if plugin.info.unique_id@.contains('\0') {
                        Err(ErrorView::Other("lv2 plugin uri contains NUL"@))
                    } else if dir.contains('\0') {
                        Err(ErrorView::Other("lv2 ui bundle path contains NUL"@))
                    } else {
                        Ok(OpenActionView::Instantiate(dir))
                    }
                } else if index + 1 < MAX_DESCRIPTORS {
                    Ok(OpenActionView::AskDescriptor((index + 1) as u32))
                } else {
                    no_match
                },
                OpenEvent::Instantiated { ok, .. } => if ok {
                    Ok(OpenActionView::Done)
                } else {
                    Err(ErrorView::Other("lv2 ui instantiate returned NULL"@))
                },
            }
        },
    }
}

/// The user interface that an event leaves open, where it changes that.
pub open spec fn opened_by(event: OpenEvent, values: Seq<u32>, editor: EditorState) -> bool {
    event matches OpenEvent::Instantiated { ok: true, has_idle, has_resize } && editor.has_idle
        == has_idle && editor.has_resize == has_resize && editor.snapshot@ == values
}

impl Lv2Plugin {
    /// Decides what follows `event` while the user interface is being opened,
    /// and keeps it once it is. `separator` is the platform's path separator;
    /// `shown_uri` is the user interface's URI as error messages show it.
    pub fn open_step(&mut self, event: OpenEvent, separator: char, shown_uri: &str) -> (result:
        Result<OpenAction, Error>)
        requires
            old(self).wf(),
        ensures
            final(self).wf(),
            match result {
                Ok(action) => open_step_spec(*old(self), event, separator, shown_uri@) == Ok::<
                    OpenActionView,
                    ErrorView,
                >(action@),
                Err(e) => open_step_spec(*old(self), event, separator, shown_uri@) == Err::<
                    OpenActionView,
                    ErrorView,
                >(e@),
            },
            result is Ok && event is Instantiated ==> final(self).editor is Some && opened_by(
                event,
                old(self).table.control_values@,
                final(self).editor->0,
            ) && *final(self) == (Lv2Plugin { editor: final(self).editor, ..*old(self) }),
            !(result is Ok && event is Instantiated) ==> *final(self) == *old(self),
    {
        let ui = match &self.ui {
            None => return Err(Error::other("lv2 plugin has no UI")),
            Some(ui) => ui,
        };
        match event {
            OpenEvent::Start => {
                if self.editor.is_some() {
                    Ok(OpenAction::Done)
                } else {
                    Ok(OpenAction::LoadLibrary)
                }
            },
            OpenEvent::Library(None) => Ok(OpenAction::FindSymbol),
            OpenEvent::Library(Some(why)) => {
                let mut message = String::from_str("lv2 ui dlopen ");
                message.append(ui.binary_path.as_str());
                message.append(": ");
                message.append(why.as_str());
                Err(Error::Other(message))
            },
            OpenEvent::Symbol(None) => Ok(OpenAction::AskDescriptor(0)),
            OpenEvent::Symbol(Some(why)) => {
                let mut message = String::from_str("lv2 ui_descriptor symbol: ");
                message.append(why.as_str());
                Err(Error::Other(message))
            },
            OpenEvent::NoDescriptor => Err(no_descriptor(shown_uri)),
            OpenEvent::Descriptor { index, uri } => {
                let found: bool = match &uri {
                    Some(uri) => text::same_str(uri.as_str(), ui.ui_uri.as_str()),
                    None => false,
                };
                if found {
                    if text::has_char(self.info.unique_id.as_str(), '\0') {
                        return Err(Error::other("lv2 plugin uri contains NUL"));
                    }
                    match path_with_trailing_separator(ui.bundle_path.as_str(), separator) {
                        Ok(dir) => Ok(OpenAction::Instantiate(dir)),
                        Err(e) => Err(e),
                    }
                } else if index < MAX_DESCRIPTORS - 1 {
                    Ok(OpenAction::AskDescriptor(index + 1))
                } else {
                    Err(no_descriptor(shown_uri))
                }
            },
            OpenEvent::Instantiated { ok, has_idle, has_resize } => {
                if !ok {
                    return Err(Error::other("lv2 ui instantiate returned NULL"));
                }
                let snapshot = vstd::slice::slice_to_vec(self.table.control_values.as_slice());
                self.editor = Some(EditorState { has_idle, has_resize, snapshot });
                Ok(OpenAction::Done)
            },
        }
    }
}

fn no_descriptor(shown_uri: &str) -> (error: Error)
    ensures
        error@ == ErrorView::Other("no lv2ui_descriptor matching "@ + shown_uri@),
{
    let mut message = String::from_str("no lv2ui_descriptor matching ");
    message.append(shown_uri);
    Error::Other(message)
}

/// Where asking for descriptors ends: at the first whose URI is `wanted`, unless
/// the library runs out of descriptors or of the questions it is asked first.
pub open spec fn chosen_descriptor(
    uris: Seq<Option<Seq<char>>>,
    wanted: Seq<char>,
    index: nat,
) -> Option<nat>
    decreases uris.len() - index,
{
    if index >= uris.len() || index >= MAX_DESCRIPTORS {
        None
    } else if uris[index as int] == Some(wanted) {
        Some(index)
    } else {
        chosen_descriptor(uris, wanted, index + 1)
    }
}

/// Asking one descriptor after the other ends at the first of the first 64 whose
/// URI is the wanted one, and finds none where there is none.
pub proof fn first_match_is_chosen(uris: Seq<Option<Seq<char>>>, wanted: Seq<char>, from: nat)
    ensures
        match chosen_descriptor(uris, wanted, from) {
            Some(i) => from <= i < MAX_DESCRIPTORS && i < uris.len() && uris[i as int] == Some(
                wanted,
            ) && forall|j: int| from <= j < i ==> uris[j] != Some(wanted),
            None => forall|j: int|
                from <= j < MAX_DESCRIPTORS && j < uris.len() ==> uris[j] != Some(wanted),
        },
    decreases uris.len() - from,
{
    if from < uris.len() && from < MAX_DESCRIPTORS && uris[from as int] != Some(wanted) {
        first_match_is_chosen(uris, wanted, from + 1);
    }
}

/// Each answer moves the search on as [`chosen_descriptor`] says: a match ends
/// it, another descriptor asks for the next one while questions are left.
pub proof fn answers_drive_the_search(
    plugin: Lv2Plugin,
    index: u32,
    uri: Option<String>,
    uris: Seq<Option<Seq<char>>>,
    separator: char,
    shown_uri: Seq<char>,
)
    requires
        plugin.ui is Some,
        index < MAX_DESCRIPTORS,
        index < uris.len(),
        uris[index as int] == (match uri {
            Some(text) => Some(text@),
            None => None,
        }),
    ensures
        ({
            let wanted = plugin.ui->0.ui_uri@;
            let next = open_step_spec(
                plugin,
                OpenEvent::Descriptor { index, uri },
                separator,
                shown_uri,
            );
            &&& next matches Ok(OpenActionView::AskDescriptor(i)) ==> i == index + 1
                && chosen_descriptor(uris, wanted, index as nat) == chosen_descriptor(
                uris,
                wanted,
                i as nat,
            )
            &&& next matches Ok(OpenActionView::Instantiate(dir)) ==> chosen_descriptor(
                uris,
                wanted,
                index as nat,
            ) == Some(index as nat)
        }),
{
}

// ---------------------------------------------------------------------------
// While it is open
// ---------------------------------------------------------------------------

/// Takes a write of the user interface to a control port. Only the plain float
/// protocol, number 0 with four bytes, reaches control values.
pub fn ui_write(
    values: &mut Vec<u32>,
    offsets: &[usize],
    port_index: u32,
    buffer_size: u32,
    port_protocol: u32,
    value_bits: u32,
)
    ensures
        final(values)@ == written(
            old(values)@,
            offsets@,
            port_index,
            buffer_size,
            port_protocol,
            value_bits,
        ),
{
    if port_protocol != 0 || buffer_size != 4 {
        return;
    }
    if port_index as u64 >= offsets.len() as u64 {
        return;
    }
    let off: usize = offsets[port_index as usize];
    if off == usize::MAX || off >= values.len() {
        return;
    }
    values.set(off, value_bits);
}

/// The control values after a write of the user interface.
pub open spec fn written(
    values: Seq<u32>,
    offsets: Seq<usize>,
    port_index: u32,
    buffer_size: u32,
    port_protocol: u32,
    value_bits: u32,
) -> Seq<u32> {
    if port_protocol == 0 && buffer_size == 4 && port_index < offsets.len()
        && offsets[port_index as int] != usize::MAX && offsets[port_index as int] < values.len() {
        values.update(offsets[port_index as int] as int, value_bits)
    } else {
        values
    }
}

/// Whether a single-precision bit pattern is not a number.
pub open spec fn is_nan(bits: u32) -> bool {
    bits % 0x8000_0000 > 0x7F80_0000
}

/// Whether two single-precision bit patterns are unequal numbers. What is not a
/// number is unequal to everything; the two zeros are equal.
pub open spec fn differs(a: u32, b: u32) -> bool {
    is_nan(a) || is_nan(b) || (a != b && !(a % 0x8000_0000 == 0 && b % 0x8000_0000 == 0))
}

fn float_differs(a: u32, b: u32) -> (unequal: bool)
    ensures
        unequal == differs(a, b),
{
    a % 0x8000_0000 > 0x7F80_0000 || b % 0x8000_0000 > 0x7F80_0000 || (a != b && !(a % 0x8000_0000
        == 0 && b % 0x8000_0000 == 0))
}

/// A control value that the user interface is to be told.
#[derive(Clone, Copy, Debug, PartialEq, Eq, Structural)]
pub struct PortUpdate {
    /// The port's index.
    pub port_index: u32,
    /// Bit pattern of the value.
    pub value_bits: u32,
}

/// Whether the value of port `i` is to be told.
pub open spec fn port_changed(
    offsets: Seq<usize>,
    values: Seq<u32>,
    snapshot: Seq<u32>,
    i: int,
) -> bool {
    offsets[i] != usize::MAX && offsets[i] < values.len() && differs(
        values[offsets[i] as int],
        snapshot[offsets[i] as int],
    )
}

/// The values to tell of the first `n` ports, and what has been told then.
pub open spec fn updates_of(
    offsets: Seq<usize>,
    values: Seq<u32>,
    snapshot: Seq<u32>,
    n: nat,
) -> (Seq<PortUpdate>, Seq<u32>)
    decreases n,
{
    if n == 0 {
        (Seq::empty(), snapshot)
    } else {
        let (told, seen) = updates_of(offsets, values, snapshot, (n - 1) as nat);
        let i = n - 1;
        if port_changed(offsets, values, seen, i) {
            let bits = values[offsets[i] as int];
            (
                told.push(PortUpdate { port_index: i as u32, value_bits: bits }),
                seen.update(offsets[i] as int, bits),
            )
        } else {
            (told, seen)
        }
    }
}

proof fn updates_keep_length(offsets: Seq<usize>, values: Seq<u32>, snapshot: Seq<u32>, n: nat)
    requires
        snapshot.len() == values.len(),
    ensures
        updates_of(offsets, values, snapshot, n).1.len() == snapshot.len(),
    decreases n,
{
    if n > 0 {
        updates_keep_length(offsets, values, snapshot, (n - 1) as nat);
    }
}

impl Lv2Plugin {
    /// Whether the user interface is open.
    #[must_use]
    pub fn is_open(&self) -> (open: bool)
        ensures
            open == self.editor is Some,
    {
        self.editor.is_some()
    }

    /// Whether the host can resize the user interface.
    #[must_use]
    pub fn is_resizable(&self) -> (resizable: bool)
        ensures
            resizable == (self.editor is Some && self.editor->0.has_resize),
    {
        match &self.editor {
            Some(editor) => editor.has_resize,
            None => false,
        }
    }

    /// Closes the user interface and tells whether there is one to clean up.
    pub fn close_editor(&mut self) -> (clean_up: bool)
        requires
            old(self).wf(),
        ensures
            clean_up == old(self).editor is Some,
            *final(self) == (Lv2Plugin { editor: None, ..*old(self) }),
            final(self).wf(),
    {
        let clean_up: bool = self.editor.is_some();
        self.editor = None;
        clean_up
    }

    /// Takes what the user interface answered when it was called idle; anything
    /// but 0 asks to be closed. Tells whether it was closed.
    pub fn idle_answered(&mut self, answer: i32) -> (closed: bool)
        requires
            old(self).wf(),
        ensures
            closed == (answer != 0 && old(self).editor is Some),
            *final(self) == (if answer != 0 {
                Lv2Plugin { editor: None, ..*old(self) }
            } else {
                *old(self)
            }),
            final(self).wf(),
    {
        if answer != 0 {
            self.close_editor()
        } else {
            false
        }
    }

    /// The control values that changed since the user interface was last told,
    /// which count as told from here on.
    pub fn port_updates(&mut self) -> (updates: Vec<PortUpdate>)
        requires
            old(self).wf(),
        ensures
            final(self).wf(),
            match old(self).editor {
                None => updates@.len() == 0 && *final(self) == *old(self),
                Some(editor) => {
                    let (told, seen) = updates_of(
                        old(self).table.control_offsets@,
                        old(self).table.control_values@,
                        editor.snapshot@,
                        old(self).table.control_offsets@.len(),
                    );
                    &&& updates@ == told
                    &&& final(self).editor matches Some(after) && after.snapshot@ == seen
                        && after.has_idle == editor.has_idle && after.has_resize
                        == editor.has_resize
                    &&& *final(self) == (Lv2Plugin { editor: final(self).editor, ..*old(self) })
                },
            },
    {
        let mut updates: Vec<PortUpdate> = Vec::new();
        let mut editor = match self.editor.take() {
            Some(editor) => editor,
            None => return updates,
        };
        let ghost first = editor.snapshot@;
        let ghost offsets = self.table.control_offsets@;
        let ghost values = self.table.control_values@;
        let mut i: usize = 0;
        while i < self.table.control_offsets.len()
            invariant
                i <= self.table.control_offsets.len(),
                *self == (Lv2Plugin { editor: None, ..*old(self) }),
                self.wf(),
                offsets == self.table.control_offsets@,
                values == self.table.control_values@,
                first.len() == values.len(),
                editor.snapshot@.len() == values.len(),
                editor.has_idle == (old(self).editor->0).has_idle,
                editor.has_resize == (old(self).editor->0).has_resize,
                (updates@, editor.snapshot@) == updates_of(offsets, values, first, i as nat),
            decreases self.table.control_offsets.len() - i,
        {
            let off: usize = self.table.control_offsets[i];
            if off != usize::MAX && off < self.table.control_values.len() {
                let value_bits: u32 = self.table.control_values[off];
                if float_differs(value_bits, editor.snapshot[off]) {
                    updates.push(PortUpdate { port_index: i as u32, value_bits });
                    editor.snapshot.set(off, value_bits);
                }
            }
            i += 1;
        }
        self.editor = Some(editor);
        updates
    }
}

/// Once told, a value that is a number is not told again until it changes: the
/// next tick has nothing to tell.
pub proof fn told_values_are_not_told_again(
    offsets: Seq<usize>,
    values: Seq<u32>,
    snapshot: Seq<u32>,
    n: nat,
    m: nat,
)
    requires
        n <= m <= offsets.len(),
        snapshot.len() == values.len(),
        forall|i: int| 0 <= i < values.len() ==> !is_nan(#[trigger] values[i]),
    ensures
        updates_of(
            offsets,
            values,
            updates_of(offsets, values, snapshot, m).1,
            n,
        ).0.len() == 0,
        updates_of(offsets, values, updates_of(offsets, values, snapshot, m).1, n).1 == updates_of(
            offsets,
            values,
            snapshot,
            m,
        ).1,
    decreases n,
{
    let seen = updates_of(offsets, values, snapshot, m).1;
    if n > 0 {
        told_values_are_not_told_again(offsets, values, snapshot, (n - 1) as nat, m);
        told_values_agree(offsets, values, snapshot, n - 1, m);
    }
}

/// After the first `m` ports the snapshot agrees with the value of each of them.
proof fn told_values_agree(
    offsets: Seq<usize>,
    values: Seq<u32>,
    snapshot: Seq<u32>,
    i: int,
    m: nat,
)
    requires
        0 <= i < m <= offsets.len(),
        snapshot.len() == values.len(),
        forall|k: int| 0 <= k < values.len() ==> !is_nan(#[trigger] values[k]),
    ensures
        !port_changed(offsets, values, updates_of(offsets, values, snapshot, m).1, i),
    decreases m,
{
    updates_keep_length(offsets, values, snapshot, m);
    updates_keep_length(offsets, values, snapshot, (m - 1) as nat);
    if i < m - 1 {
        told_values_agree(offsets, values, snapshot, i, (m - 1) as nat);
    }
}

/// A size as the user interface takes it.
#[must_use]
pub fn clamp_size(n: u32) -> (size: i32)
    ensures
        size == (if n <= i32::MAX {
            n as int
        } else {
            i32::MAX as int
        }),
{
    if n <= 0x7FFF_FFFF {
        n as i32
    } else {
        0x7FFF_FFFF
    }
}

/// The size that the user interface has adopted: the one it was asked for, where
/// it accepted it.
#[must_use]
pub fn adopted_size(answer: i32, width: u32, height: u32) -> (size: Option<(u32, u32)>)
    ensures
        size == (if answer == 0 {
            Some((width, height))
        } else {
            None
        }),
{
    if answer == 0 {
        Some((width, height))
    } else {
        None
    }
}

// ---------------------------------------------------------------------------
// What steps and values mean
// ---------------------------------------------------------------------------

/// A path ends in one separator, and is otherwise what it was.
pub proof fn paths_end_in_a_separator(path: Seq<char>, separator: char)
    ensures
        with_separator(path, separator).last() == separator,
        with_separator(path, separator) == path || with_separator(path, separator) == path + seq![
            separator,
        ],
        with_separator(with_separator(path, separator), separator) == with_separator(
            path,
            separator,
        ),
        path.len() > 0 && path.last() == separator ==> with_separator(path, separator) == path,
{
    assert(path.push(separator) =~= path + seq![separator]);
}

/// Opening a user interface takes one step after the other: the library, its entry
/// point, its descriptors from the first on, and the instance. What is open is not
/// opened again, and what does not succeed ends it.
pub proof fn opening_takes_its_steps_in_order(
    plugin: Lv2Plugin,
    why: String,
    index: u32,
    separator: char,
    shown_uri: Seq<char>,
)
    requires
        plugin.ui is Some,
    ensures
        ({
            let next = |event: OpenEvent| open_step_spec(plugin, event, separator, shown_uri);
            &&& next(OpenEvent::Start) == Ok::<OpenActionView, ErrorView>(
                if plugin.editor is Some {
                    OpenActionView::Done
                } else {
                    OpenActionView::LoadLibrary
                },
            )
            &&& next(OpenEvent::Library(None)) == Ok::<OpenActionView, ErrorView>(
                OpenActionView::FindSymbol,
            )
            &&& next(OpenEvent::Library(Some(why))) is Err
            &&& next(OpenEvent::Symbol(None)) == Ok::<OpenActionView, ErrorView>(
                OpenActionView::AskDescriptor(0),
            )
            &&& next(OpenEvent::Symbol(Some(why))) is Err
            &&& next(OpenEvent::NoDescriptor) is Err
            &&& next(OpenEvent::Descriptor { index, uri: None }) == (if index < 63 {
                Ok::<OpenActionView, ErrorView>(OpenActionView::AskDescriptor((index + 1) as u32))
            } else {
                next(OpenEvent::NoDescriptor)
            })
            &&& forall|has_idle: bool, has_resize: bool|
                #![auto]
                next(OpenEvent::Instantiated { ok: true, has_idle, has_resize }) == Ok::<
                    OpenActionView,
                    ErrorView,
                >(OpenActionView::Done) && next(
                    OpenEvent::Instantiated { ok: false, has_idle, has_resize },
                ) is Err
        }),
{
}

/// The user interface whose URI was chosen is instantiated with the directory of its
/// bundle, where neither that nor the plugin's URI holds a NUL.
pub proof fn the_chosen_interface_is_instantiated(
    plugin: Lv2Plugin,
    index: u32,
    uri: String,
    separator: char,
    shown_uri: Seq<char>,
)
    requires
        plugin.ui is Some,
        uri@ == plugin.ui->0.ui_uri@,
        !plugin.info.unique_id@.contains('\0'),
        !plugin.ui->0.bundle_path@.contains('\0'),
        separator != '\0',
    ensures
        open_step_spec(
            plugin,
            OpenEvent::Descriptor { index, uri: Some(uri) },
            separator,
            shown_uri,
        ) matches Ok(OpenActionView::Instantiate(dir)) && dir.last() == separator && (dir
            == plugin.ui->0.bundle_path@ || dir == plugin.ui->0.bundle_path@ + seq![separator]),
{
    let path = plugin.ui->0.bundle_path@;
    paths_end_in_a_separator(path, separator);
    let dir = with_separator(path, separator);
    if dir.contains('\0') {
        let i = choose|i: int| 0 <= i < dir.len() && dir[i] == '\0';
        if i < path.len() {
            assert(path.contains(path[i]));
        }
    }
}

/// A write of one plain number to a control port is what that port's value is then, and
/// leaves all others; any other write changes nothing.
pub proof fn writes_reach_their_port(
    values: Seq<u32>,
    offsets: Seq<usize>,
    port_index: u32,
    buffer_size: u32,
    port_protocol: u32,
    value_bits: u32,
)
    ensures
        ({
            let after = written(
                values,
                offsets,
                port_index,
                buffer_size,
                port_protocol,
                value_bits,
            );
            let plain = port_protocol == 0 && buffer_size == 4 && port_index < offsets.len()
                && offsets[port_index as int] != usize::MAX && offsets[port_index as int]
                < values.len();
            &&& after.len() == values.len()
            &&& plain ==> after[offsets[port_index as int] as int] == value_bits
            &&& !plain ==> after == values
            &&& forall|k: int|
                0 <= k < values.len() && !(plain && k == offsets[port_index as int])
                    ==> #[trigger] after[k] == values[k]
        }),
{
}

/// A pattern is no number just where all bits of its exponent are set and some bit
/// after them is.
pub proof fn patterns_that_are_no_number(bits: u32)
    ensures
        is_nan(bits) <==> bits & 0x7F80_0000 == 0x7F80_0000 && bits & 0x7F_FFFF != 0,
{
    assert((bits % 0x8000_0000 > 0x7F80_0000) == (bits & 0x7F80_0000 == 0x7F80_0000 && bits
        & 0x7F_FFFF != 0)) by (bit_vector);
}

/// Two patterns differ as numbers do: in either order alike, never from themselves
/// unless they are no number, and not where both are zero.
pub proof fn patterns_differ_as_numbers(a: u32, b: u32)
    ensures
        differs(a, b) == differs(b, a),
        differs(a, a) == is_nan(a),
        !differs(0, 0x8000_0000),
        is_nan(a) ==> differs(a, b),
        !is_nan(a) && !is_nan(b) && !differs(a, b) ==> a == b || (a & 0x7FFF_FFFF == 0 && b
            & 0x7FFF_FFFF == 0),
        !is_nan(a) && !is_nan(b) && a != b && a & 0x7FFF_FFFF != 0 ==> differs(a, b),
{
    assert(a % 0x8000_0000 == a & 0x7FFF_FFFF) by (bit_vector);
    assert(b % 0x8000_0000 == b & 0x7FFF_FFFF) by (bit_vector);
}

/// What is told of a port is its present value, and ports are told in order, each once.
pub proof fn updates_tell_present_values(
    offsets: Seq<usize>,
    values: Seq<u32>,
    snapshot: Seq<u32>,
    n: nat,
)
    requires
        n <= offsets.len(),
        offsets.len() <= u32::MAX,
    ensures
        forall|k: int|
            0 <= k < updates_of(offsets, values, snapshot, n).0.len() ==> {
                let u = #[trigger] updates_of(offsets, values, snapshot, n).0[k];
                &&& u.port_index < n
                &&& offsets[u.port_index as int] < values.len()
                &&& u.value_bits == values[offsets[u.port_index as int] as int]
            },
        forall|k: int, l: int|
            0 <= k < l < updates_of(offsets, values, snapshot, n).0.len() ==> (
            #[trigger] updates_of(offsets, values, snapshot, n).0[k]).port_index < (
            #[trigger] updates_of(offsets, values, snapshot, n).0[l]).port_index,
    decreases n,
{
    if n > 0 {
        updates_tell_present_values(offsets, values, snapshot, (n - 1) as nat);
        let before = updates_of(offsets, values, snapshot, (n - 1) as nat).0;
        let all = updates_of(offsets, values, snapshot, n).0;
        assert forall|k: int| 0 <= k < all.len() implies ({
            let u = #[trigger] all[k];
            &&& u.port_index < n
            &&& offsets[u.port_index as int] < values.len()
            &&& u.value_bits == values[offsets[u.port_index as int] as int]
        }) by {
            if k < before.len() {
                assert(all[k] == before[k]);
            }
        }
        assert forall|k: int, l: int| 0 <= k < l < all.len() implies (
        #[trigger] all[k]).port_index < (#[trigger] all[l]).port_index by {
            assert(all[k] == before[k]);
            if l < before.len() {
                assert(all[l] == before[l]);
            }
        }
    }
}

/// A port whose value is no longer what the user interface was told is told, where it
/// shares its value with no port before it.
pub proof fn changed_values_are_told(
    offsets: Seq<usize>,
    values: Seq<u32>,
    snapshot: Seq<u32>,
    n: nat,
    i: int,
)
    requires
        0 <= i < n <= offsets.len(),
        offsets.len() <= u32::MAX,
        snapshot.len() == values.len(),
        port_changed(offsets, values, snapshot, i),
        forall|j: int| 0 <= j < i ==> offsets[j] != offsets[i],
    ensures
        updates_of(offsets, values, snapshot, n).0.contains(
            PortUpdate { port_index: i as u32, value_bits: values[offsets[i] as int] },
        ),
    decreases n,
{
    let u = PortUpdate { port_index: i as u32, value_bits: values[offsets[i] as int] };
    let before = updates_of(offsets, values, snapshot, (n - 1) as nat).0;
    let all = updates_of(offsets, values, snapshot, n).0;
    if i < n - 1 {
        changed_values_are_told(offsets, values, snapshot, (n - 1) as nat, i);
        let k = choose|k: int| 0 <= k < before.len() && before[k] == u;
        assert(all[k] == u);
    } else {
        others_stay_untold(offsets, values, snapshot, (n - 1) as nat, offsets[i] as int);
        assert(all[before.len() as int] == u);
    }
}

/// What has been told of a value changes only by ports that have it.
proof fn others_stay_untold(
    offsets: Seq<usize>,
    values: Seq<u32>,
    snapshot: Seq<u32>,
    n: nat,
    off: int,
)
    requires
        n <= offsets.len(),
        snapshot.len() == values.len(),
        0 <= off < values.len(),
        forall|j: int| 0 <= j < n ==> offsets[j] != off,
    ensures
        updates_of(offsets, values, snapshot, n).1.len() == snapshot.len(),
        updates_of(offsets, values, snapshot, n).1[off] == snapshot[off],
    decreases n,
{
    if n > 0 {
        others_stay_untold(offsets, values, snapshot, (n - 1) as nat, off);
        updates_keep_length(offsets, values, snapshot, (n - 1) as nat);
    }
}

/// A user interface that was just opened has the abilities that it reported, and has
/// been told every present value: there is nothing to tell it while they are numbers.
pub proof fn opened_interfaces_know_the_values(
    event: OpenEvent,
    offsets: Seq<usize>,
    values: Seq<u32>,
    editor: EditorState,
    n: nat,
)
    requires
        opened_by(event, values, editor),
        n <= offsets.len(),
        forall|i: int| 0 <= i < values.len() ==> !is_nan(#[trigger] values[i]),
    ensures
        event matches OpenEvent::Instantiated { ok, has_idle, has_resize } && ok && editor.has_idle
            == has_idle && editor.has_resize == has_resize,
        updates_of(offsets, values, editor.snapshot@, n).0.len() == 0,
{
    nothing_is_told(offsets, values, n);
}

proof fn nothing_is_told(offsets: Seq<usize>, values: Seq<u32>, n: nat)
    requires
        n <= offsets.len(),
        forall|i: int| 0 <= i < values.len() ==> !is_nan(#[trigger] values[i]),
    ensures
        updates_of(offsets, values, values, n) == (Seq::<PortUpdate>::empty(), values),
    decreases n,
{
    if n > 0 {
        nothing_is_told(offsets, values, (n - 1) as nat);
    }
}

} // verus!
