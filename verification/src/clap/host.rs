//! A loaded CLAP plugin: what the host keeps of it and decides about it.
//!
//! Calls into the plugin are made elsewhere. They are told what to do next, and
//! report back what happened.

use crate::bus::{self, BusLayout, ChannelConfig, LayoutView};
use crate::clap::events::{self, ClapEvent, ConvertedInputEvents};
use crate::clap::stream::WriteBuffer;
use crate::error::{Error, ErrorView};
use crate::events::{Event, EventList};
use crate::info::{PluginInfo, PluginInfoView};
use crate::plugin::ProcessStatus;
use vstd::prelude::*;
use vstd::string::StringExecFns;

verus! {

// ---------------------------------------------------------------------------
// Loading
// ---------------------------------------------------------------------------

/// What happened while a plugin is being loaded.
pub enum LoadEvent {
    /// Its library was opened, or not, with a description.
    Library(Option<String>),
    /// The entry symbol was looked up; it is missing, with a description.
    EntryMissing(String),
    /// The entry symbol was looked up; it is there, and NULL or not.
    Entry {
        /// Whether it is NULL.
        is_null: bool,
    },
    /// The library's path is no C string, with a description.
    BadPath(String),
    /// The entry has no `init`, or it answered.
    EntryInit(Option<bool>),
    /// The entry gave a plugin factory, or not.
    Factory(bool),
    /// The factory can create plugins, or not.
    CreateFunction(bool),
    /// The plugin's id, which is given, is no C string.
    BadId(String),
    /// The factory created the plugin, or not.
    Created(bool),
    /// The plugin can be initialised, or not.
    InitFunction(bool),
    /// The plugin's `init` answered.
    PluginInit(bool),
}

/// What to do next.
#[derive(Clone, Copy, Debug, PartialEq, Eq, Structural)]
pub enum LoadAction {
    /// Look up the entry symbol.
    FindEntry,
    /// Call the entry's `init`, where it has one.
    InitEntry,
    /// Ask the entry for its plugin factory.
    GetFactory,
    /// See whether the factory can create plugins.
    FindCreate,
    /// Create the plugin.
    Create,
    /// See whether the plugin can be initialised.
    FindInit,
    /// Call the plugin's `init`.
    Init,
    /// Look up the plugin's extensions: it is loaded.
    LookUpExtensions,
}

/// Why loading ended, and what to undo.
pub struct LoadFailure {
    /// The error.
    pub error: Error,
    /// Destroy the plugin.
    pub destroy_plugin: bool,
    /// Call the entry's `deinit`.
    pub deinit_entry: bool,
}

/// Why loading ended, with text.
pub struct LoadFailureView {
    /// The error.
    pub error: ErrorView,
    /// Destroy the plugin.
    pub destroy_plugin: bool,
    /// Call the entry's `deinit`.
    pub deinit_entry: bool,
}

impl View for LoadFailure {
    type V = LoadFailureView;

    open spec fn view(&self) -> LoadFailureView {
        LoadFailureView {
            error: self.error@,
            destroy_plugin: self.destroy_plugin,
            deinit_entry: self.deinit_entry,
        }
    }
}

/// A failure that leaves nothing to undo, or the given things.
pub open spec fn failure(
    path: Seq<char>,
    reason: Seq<char>,
    destroy_plugin: bool,
    deinit_entry: bool,
) -> Result<LoadAction, LoadFailureView> {
    Err(
        LoadFailureView {
            error: ErrorView::LoadFailed { path, reason },
            destroy_plugin,
            deinit_entry,
        },
    )
}

/// What follows `event` while the plugin in the bundle at `bundle`, whose
/// library is at `binary`, is being loaded.
pub open spec fn load_step_spec(
    bundle: Seq<char>,
    binary: Seq<char>,
    event: LoadEvent,
) -> Result<LoadAction, LoadFailureView> {
    match event {
        LoadEvent::Library(None) => Ok(LoadAction::FindEntry),
        LoadEvent::Library(Some(why)) => failure(binary, "dlopen failed: "@ + why@, false, false),
        LoadEvent::EntryMissing(why) => failure(
            Seq::empty(),
            "missing clap_entry symbol: "@ + why@,
            false,
            false,
        ),
        LoadEvent::Entry { is_null } => if is_null {
            failure(Seq::empty(), "clap_entry symbol resolved to NULL"@, false, false)
        } else {
            Ok(LoadAction::InitEntry)
        },
        LoadEvent::BadPath(why) => failure(
            binary,
            "plugin path is not a valid C string: "@ + why@,
            false,
            false,
        ),
        LoadEvent::EntryInit(answer) => if answer == Some(false) {
            failure(binary, "clap_entry::init returned false"@, false, false)
        } else {
            Ok(LoadAction::GetFactory)
        },
        LoadEvent::Factory(found) => if found {
            Ok(LoadAction::FindCreate)
        } else {
            failure(bundle, "plugin has no clap.plugin-factory"@, false, true)
        },
        LoadEvent::CreateFunction(found) => if found {
            Ok(LoadAction::Create)
        } else {
            failure(bundle, "factory missing create_plugin"@, false, false)
        },
        LoadEvent::BadId(id) => Err(
            LoadFailureView {
                error: ErrorView::PluginNotFound(id@),
                destroy_plugin: false,
                deinit_entry: false,
            },
        ),
        LoadEvent::Created(ok) => if ok {
            Ok(LoadAction::FindInit)
        } else {
            failure(bundle, "factory.create_plugin returned NULL"@, false, true)
        },
        LoadEvent::InitFunction(found) => if found {
            Ok(LoadAction::Init)
        } else {
            failure(bundle, "plugin missing init"@, false, false)
        },
        LoadEvent::PluginInit(ok) => if ok {
            Ok(LoadAction::LookUpExtensions)
        } else {
            failure(bundle, "clap_plugin::init returned false"@, true, true)
        },
    }
}

fn fail(path: &str, reason: &str, destroy_plugin: bool, deinit_entry: bool) -> (result: Result<
    LoadAction,
    LoadFailure,
>)
    ensures
        result matches Err(f) && failure(path@, reason@, destroy_plugin, deinit_entry) == Err::<
            LoadAction,
            LoadFailureView,
        >(f@),
{
    Err(LoadFailure { error: Error::load_failed(path, reason), destroy_plugin, deinit_entry })
}

fn fail_with(path: &str, reason: &str, why: &str) -> (result: Result<LoadAction, LoadFailure>)
    ensures
        result matches Err(f) && failure(path@, reason@ + why@, false, false) == Err::<
            LoadAction,
            LoadFailureView,
        >(f@),
{
    let mut text = String::from_str(reason);
    text.append(why);
    fail(path, text.as_str(), false, false)
}

/// Decides what follows `event` while a plugin is being loaded.
pub fn load_step(bundle: &str, binary: &str, event: LoadEvent) -> (next: Result<
    LoadAction,
    LoadFailure,
>)
    ensures
        match next {
            Ok(action) => load_step_spec(bundle@, binary@, event) == Ok::<
                LoadAction,
                LoadFailureView,
            >(action),
            Err(f) => load_step_spec(bundle@, binary@, event) == Err::<
                LoadAction,
                LoadFailureView,
            >(f@),
        },
{
    match event {
        LoadEvent::Library(None) => Ok(LoadAction::FindEntry),
        LoadEvent::Library(Some(why)) => fail_with(binary, "dlopen failed: ", why.as_str()),
        LoadEvent::EntryMissing(why) => {
            let nowhere = String::new();
            fail_with(nowhere.as_str(), "missing clap_entry symbol: ", why.as_str())
        },
        LoadEvent::Entry { is_null } => {
            if is_null {
                let nowhere = String::new();
                fail(nowhere.as_str(), "clap_entry symbol resolved to NULL", false, false)
            } else {
                Ok(LoadAction::InitEntry)
            }
        },
        LoadEvent::BadPath(why) => fail_with(
            binary,
            "plugin path is not a valid C string: ",
            why.as_str(),
        ),
        LoadEvent::EntryInit(answer) => {
            match answer {
                Some(false) => fail(binary, "clap_entry::init returned false", false, false),
                _ => Ok(LoadAction::GetFactory),
            }
        },
        LoadEvent::Factory(found) => {
            if found {
                Ok(LoadAction::FindCreate)
            } else {
                fail(bundle, "plugin has no clap.plugin-factory", false, true)
            }
        },
        LoadEvent::CreateFunction(found) => {
            if found {
                Ok(LoadAction::Create)
            } else {
                fail(bundle, "factory missing create_plugin", false, false)
            }
        },
        LoadEvent::BadId(id) => Err(
            LoadFailure {
                error: Error::PluginNotFound(id),
                destroy_plugin: false,
                deinit_entry: false,
            },
        ),
        LoadEvent::Created(ok) => {
            if ok {
                Ok(LoadAction::FindInit)
            } else {
                fail(bundle, "factory.create_plugin returned NULL", false, true)
            }
        },
        LoadEvent::InitFunction(found) => {
            if found {
                Ok(LoadAction::Init)
            } else {
                fail(bundle, "plugin missing init", false, false)
            }
        },
        LoadEvent::PluginInit(ok) => {
            if ok {
                Ok(LoadAction::LookUpExtensions)
            } else {
                fail(bundle, "clap_plugin::init returned false", true, true)
            }
        },
    }
}

/// A plugin is destroyed only where it was created, and only together with the
/// entry's `deinit`.
pub proof fn destroying_comes_with_deinit(bundle: Seq<char>, binary: Seq<char>, event: LoadEvent)
    requires
        load_step_spec(bundle, binary, event) is Err,
        load_step_spec(bundle, binary, event)->Err_0.destroy_plugin,
    ensures
        event == LoadEvent::PluginInit(false),
        load_step_spec(bundle, binary, event)->Err_0.deinit_entry,
{
}

// ---------------------------------------------------------------------------
// The loaded plugin
// ---------------------------------------------------------------------------

/// One loaded CLAP plugin.
pub struct ClapPlugin {
    /// Its catalog entry.
    pub info: PluginInfo,
    /// The one layout it supports.
    pub layout: BusLayout,
    /// The layout it is active with.
    pub active_layout: Option<BusLayout>,
    /// Whether it was told to start processing.
    pub started_processing: bool,
    /// Whether it has parameters.
    pub has_params: bool,
    /// Whether its state can be saved and loaded.
    pub has_state: bool,
    /// Whether it has an editor.
    pub has_gui: bool,
    /// Whether its editor is open.
    pub gui_open: bool,
    /// Frames processed so far.
    pub steady_time: i64,
    /// Parameter changes that the plugin has not been told yet: ids and the bit
    /// patterns of values.
    pub pending: Vec<(u32, u64)>,
}

/// Parameter changes as events at the start of a block.
pub open spec fn pending_events(pending: Seq<(u32, u64)>) -> Seq<ClapEvent> {
    Seq::new(
        pending.len(),
        |i: int|
            ClapEvent::Param { time: 0, param_id: pending[i].0, value_bits: pending[i].1 },
    )
}

/// What is to be called when a plugin becomes inactive or goes away.
#[derive(Clone, Copy, Debug, PartialEq, Eq, Structural)]
pub struct Teardown {
    /// Destroy the editor.
    pub destroy_gui: bool,
    /// Stop processing.
    pub stop_processing: bool,
    /// Deactivate.
    pub deactivate: bool,
}

/// `n` as a 32-bit number, or the largest one where it does not fit.
pub open spec fn at_most_u32(n: nat) -> u32 {
    if n <= u32::MAX {
        n as u32
    } else {
        u32::MAX
    }
}

/// `n` as a 32-bit number, or the largest one where it does not fit.
#[must_use]
pub fn saturate_u32(n: usize) -> (out: u32)
    ensures
        out == at_most_u32(n as nat),
{
    if n as u64 <= u32::MAX as u64 {
        n as u32
    } else {
        u32::MAX
    }
}

/// `n` as a 32-bit number, or 0 where it does not fit.
pub open spec fn u32_or_zero(n: nat) -> u32 {
    if n <= u32::MAX {
        n as u32
    } else {
        0
    }
}

/// The counts that CLAP wants of one block.
#[derive(Clone, Copy, Debug, PartialEq, Eq, Structural)]
pub struct BlockCounts {
    /// Frames.
    pub frames: u32,
    /// Channels of the input buffer.
    pub input_channels: u32,
    /// Channels of the output buffer.
    pub output_channels: u32,
    /// Input buffers: none where there are no channels.
    pub inputs: u32,
    /// Output buffers: none where there are no channels.
    pub outputs: u32,
}

/// The counts of a block of `frames` frames with these channels.
pub open spec fn counts_of(frames: nat, ins: nat, outs: nat) -> BlockCounts {
    BlockCounts {
        frames: at_most_u32(frames),
        input_channels: u32_or_zero(ins),
        output_channels: u32_or_zero(outs),
        inputs: if ins > 0 {
            1
        } else {
            0
        },
        outputs: if outs > 0 {
            1
        } else {
            0
        },
    }
}

/// The counts of a block of `frames` frames with these channels.
#[must_use]
pub fn block_counts(frames: usize, ins: usize, outs: usize) -> (counts: BlockCounts)
    ensures
        counts == counts_of(frames as nat, ins as nat, outs as nat),
{
    BlockCounts {
        frames: saturate_u32(frames),
        input_channels: if ins as u64 <= u32::MAX as u64 {
            ins as u32
        } else {
            0
        },
        output_channels: if outs as u64 <= u32::MAX as u64 {
            outs as u32
        } else {
            0
        },
        inputs: if ins > 0 {
            1
        } else {
            0
        },
        outputs: if outs > 0 {
            1
        } else {
            0
        },
    }
}

/// Processing failed.
pub const CLAP_PROCESS_ERROR: i32 = 0;

/// Keep processing.
pub const CLAP_PROCESS_CONTINUE: i32 = 1;

/// Keep processing if the output is not quiet.
pub const CLAP_PROCESS_CONTINUE_IF_NOT_QUIET: i32 = 2;

/// The plugin's tail follows.
pub const CLAP_PROCESS_TAIL: i32 = 3;

/// No more processing is needed until the next event or input.
pub const CLAP_PROCESS_SLEEP: i32 = 4;

/// What a status that CLAP knows stands for.
pub open spec fn status_of(status: i32) -> ProcessStatus {
    if status == CLAP_PROCESS_CONTINUE || status == CLAP_PROCESS_CONTINUE_IF_NOT_QUIET {
        ProcessStatus::Continue
    } else if status == CLAP_PROCESS_SLEEP {
        ProcessStatus::Sleep
    } else if status == CLAP_PROCESS_TAIL {
        ProcessStatus::Tail { tail_samples: 0 }
    } else {
        ProcessStatus::Error
    }
}

/// What a status that CLAP knows stands for.
#[must_use]
pub fn map_clap_status(status: i32) -> (out: ProcessStatus)
    ensures
        out == status_of(status),
{
    if status == CLAP_PROCESS_CONTINUE || status == CLAP_PROCESS_CONTINUE_IF_NOT_QUIET {
        ProcessStatus::Continue
    } else if status == CLAP_PROCESS_SLEEP {
        ProcessStatus::Sleep
    } else if status == CLAP_PROCESS_TAIL {
        ProcessStatus::Tail { tail_samples: 0 }
    } else {
        ProcessStatus::Error
    }
}

/// The steady time after a block of `frames` frames. It stops at the largest
/// number; a block too long to count counts as none.
pub open spec fn time_after(steady_time: i64, frames: nat) -> i64 {
    let n = if frames <= i64::MAX {
        frames as int
    } else {
        0
    };
    if steady_time + n <= i64::MAX {
        (steady_time + n) as i64
    } else {
        i64::MAX
    }
}

/// The steady time after a block of `frames` frames.
#[must_use]
pub fn advance(steady_time: i64, frames: usize) -> (after: i64)
    ensures
        after == time_after(steady_time, frames as nat),
{
    let n: i64 = if frames as u64 <= i64::MAX as u64 {
        frames as i64
    } else {
        0
    };
    if steady_time <= i64::MAX - n {
        steady_time + n
    } else {
        i64::MAX
    }
}

impl ClapPlugin {
    /// A plugin that was just loaded and has these extensions. It has an editor
    /// to show where its GUI supports the platform.
    pub fn load_from(
        info: &PluginInfo,
        has_params: bool,
        has_state: bool,
        has_gui: bool,
        gui_supported: bool,
    ) -> (plugin: ClapPlugin)
        ensures
            plugin.info@ == (PluginInfoView {
                has_editor: info.has_editor || (has_gui && gui_supported),
                ..info@
            }),
            plugin.layout@ == (LayoutView {
                inputs: seq![bus::main_bus("Input"@, ChannelConfig::Stereo)],
                outputs: seq![bus::main_bus("Output"@, ChannelConfig::Stereo)],
            }),
            plugin.active_layout is None,
            !plugin.started_processing,
            plugin.has_params == has_params,
            plugin.has_state == has_state,
            plugin.has_gui == has_gui,
            !plugin.gui_open,
            plugin.steady_time == 0,
            plugin.pending@.len() == 0,
    {
        let mut info = info.clone();
        if has_gui && gui_supported {
            info.has_editor = true;
        }
        ClapPlugin {
            info,
            layout: BusLayout::stereo(),
            active_layout: None,
            started_processing: false,
            has_params,
            has_state,
            has_gui,
            gui_open: false,
            steady_time: 0,
            pending: Vec::new(),
        }
    }

    /// Whether the plugin is active.
    #[must_use]
    pub fn is_active(&self) -> (active: bool)
        ensures
            active == self.active_layout is Some,
    {
        self.active_layout.is_some()
    }

    // -- parameters --------------------------------------------------------

    /// The parameter's index as CLAP counts, where the plugin has parameters.
    /// `available` tells whether the plugin has the function to be called.
    pub fn parameter_index(&self, index: usize, available: bool) -> (result: Result<u32, Error>)
        ensures
            match result {
                Ok(i) => self.has_params && available && index <= u32::MAX && i == index,
                Err(e) => !(self.has_params && available && index <= u32::MAX) && e@
                    == ErrorView::InvalidParameter(index),
            },
    {
        if self.has_params && available && index as u64 <= u32::MAX as u64 {
            Ok(index as u32)
        } else {
            Err(Error::InvalidParameter(index))
        }
    }

    /// What a parameter call's answer means.
    pub fn parameter_answered(index: usize, ok: bool) -> (result: Result<(), Error>)
        ensures
            match result {
                Ok(_) => ok,
                Err(e) => !ok && e@ == ErrorView::InvalidParameter(index),
            },
    {
        if ok {
            Ok(())
        } else {
            Err(Error::InvalidParameter(index))
        }
    }

    /// Whether parameter values may be asked for and set, which only an active
    /// plugin allows.
    pub fn values_ready(&self) -> (result: Result<(), Error>)
        ensures
            match result {
                Ok(_) => self.active_layout is Some,
                Err(e) => self.active_layout is None && e@ == ErrorView::NotActivated,
            },
    {
        if self.is_active() {
            Ok(())
        } else {
            Err(Error::NotActivated)
        }
    }

    /// Queues a parameter change of an active plugin. While the plugin does not
    /// process and can be flushed, all queued changes come back as the events to
    /// flush.
    pub fn set_parameter(&mut self, param_id: u32, value_bits: u64, can_flush: bool) -> (result:
        Result<Option<ConvertedInputEvents>, Error>)
        ensures
            match result {
                Ok(flush) => {
                    let queued = old(self).pending@.push((param_id, value_bits));
                    let flushes = !old(self).started_processing && can_flush;
                    &&& old(self).active_layout is Some
                    &&& flush is Some == flushes
                    &&& flush matches Some(f) ==> f.events@ == pending_events(queued)
                    &&& final(self).pending@ == (if flushes {
                        Seq::empty()
                    } else {
                        queued
                    })
                    &&& *final(self) == (ClapPlugin { pending: final(self).pending, ..*old(self) })
                },
                Err(e) => old(self).active_layout is None && e@ == ErrorView::NotActivated
                    && *final(self) == *old(self),
            },
    {
        if !self.is_active() {
            return Err(Error::NotActivated);
        }
        self.pending.push((param_id, value_bits));
        if !self.started_processing && can_flush {
            let mut converted = ConvertedInputEvents { events: Vec::new() };
            self.drain_pending(&mut converted);
            assert(converted.events@ =~= pending_events(
                old(self).pending@.push((param_id, value_bits)),
            ));
            Ok(Some(converted))
        } else {
            Ok(None)
        }
    }

    /// Moves the queued parameter changes to the end of `converted`.
    fn drain_pending(&mut self, converted: &mut ConvertedInputEvents)
        ensures
            final(converted).events@ == old(converted).events@ + pending_events(
                old(self).pending@,
            ),
            final(self).pending@ == Seq::<(u32, u64)>::empty(),
            *final(self) == (ClapPlugin { pending: final(self).pending, ..*old(self) }),
    {
        let mut i: usize = 0;
        let ghost first = converted.events@;
        let ghost queued = self.pending@;
        while i < self.pending.len()
            invariant
                i <= self.pending.len(),
                *self == *old(self),
                queued == self.pending@,
                converted.events@ =~= first + pending_events(queued).take(i as int),
            decreases self.pending.len() - i,
        {
            let (param_id, value_bits) = self.pending[i];
            converted.push_param_value(0, param_id, value_bits);
            i += 1;
        }
        assert(pending_events(queued).take(i as int) =~= pending_events(queued));
        self.pending.clear();
    }

    // -- state -------------------------------------------------------------

    /// Whether the plugin's state can be saved: it has the extension, and that
    /// has the function.
    pub fn save_ready(&self, has_save: bool) -> (result: Result<(), Error>)
        ensures
            match result {
                Ok(_) => self.has_state && has_save,
                Err(e) => if !self.has_state {
                    e@ == ErrorView::Other("plugin missing clap.state extension"@)
                } else {
                    !has_save && e@ == ErrorView::Other("clap.state extension missing save fn"@)
                },
            },
    {
        if !self.has_state {
            Err(Error::other("plugin missing clap.state extension"))
        } else if !has_save {
            Err(Error::other("clap.state extension missing save fn"))
        } else {
            Ok(())
        }
    }

    /// The saved state, where the plugin said that it saved it.
    pub fn save_answered(ok: bool, buffer: WriteBuffer) -> (result: Result<Vec<u8>, Error>)
        ensures
            match result {
                Ok(bytes) => ok && bytes@ == buffer.bytes@,
                Err(e) => !ok && e@ == ErrorView::Other("clap state save returned false"@),
            },
    {
        if ok {
            Ok(buffer.bytes)
        } else {
            Err(Error::other("clap state save returned false"))
        }
    }

    /// Whether state can be loaded into the plugin.
    pub fn load_ready(&self, has_load: bool) -> (result: Result<(), Error>)
        ensures
            match result {
                Ok(_) => self.has_state && has_load,
                Err(e) => if !self.has_state {
                    e@ == ErrorView::Other("plugin missing clap.state extension"@)
                } else {
                    !has_load && e@ == ErrorView::Other("clap.state extension missing load fn"@)
                },
            },
    {
        if !self.has_state {
            Err(Error::other("plugin missing clap.state extension"))
        } else if !has_load {
            Err(Error::other("clap.state extension missing load fn"))
        } else {
            Ok(())
        }
    }

    /// What the plugin's answer to loading state means.
    pub fn load_answered(ok: bool) -> (result: Result<(), Error>)
        ensures
            match result {
                Ok(_) => ok,
                Err(e) => !ok && e@ == ErrorView::Other("clap state load returned false"@),
            },
    {
        if ok {
            Ok(())
        } else {
            Err(Error::other("clap state load returned false"))
        }
    }

    // -- activation and processing -------------------------------------------

    /// Takes the plugin's answer to activation; `None` where it cannot be
    /// activated.
    pub fn activate_answered(&mut self, answer: Option<bool>, layout: BusLayout) -> (result:
        Result<(), Error>)
        ensures
            match result {
                Ok(_) => answer == Some(true) && *final(self) == (ClapPlugin {
                    active_layout: Some(layout),
                    ..*old(self)
                }),
                Err(e) => answer != Some(true) && *final(self) == *old(self) && e@
                    == ErrorView::Other(
                    if answer is None {
                        "clap plugin missing activate"@
                    } else {
                        "clap_plugin::activate returned false"@
                    },
                ),
            },
    {
        match answer {
            None => Err(Error::other("clap plugin missing activate")),
            Some(false) => Err(Error::other("clap_plugin::activate returned false")),
            Some(true) => {
                self.active_layout = Some(layout);
                Ok(())
            },
        }
    }

    /// The plugin once it was made inactive.
    pub open spec fn inactive(self) -> ClapPlugin {
        ClapPlugin { started_processing: false, active_layout: None, ..self }
    }

    /// What is to be called when the plugin becomes inactive.
    pub open spec fn deactivation(self) -> Teardown {
        Teardown {
            destroy_gui: false,
            stop_processing: self.started_processing,
            deactivate: true,
        }
    }

    /// What is to be called before the plugin is destroyed.
    pub open spec fn farewell(self) -> Teardown {
        Teardown {
            destroy_gui: self.gui_open,
            stop_processing: self.started_processing,
            deactivate: self.active_layout is Some,
        }
    }

    /// Makes the plugin inactive and tells what is to be called.
    pub fn deactivate(&mut self) -> (plan: Teardown)
        ensures
            plan == old(self).deactivation(),
            *final(self) == old(self).inactive(),
    {
        let stop_processing: bool = self.started_processing;
        self.started_processing = false;
        self.active_layout = None;
        Teardown { destroy_gui: false, stop_processing, deactivate: true }
    }

    /// What is to be called before the plugin is destroyed.
    #[must_use]
    pub fn teardown(&self) -> (plan: Teardown)
        ensures
            plan == self.farewell(),
    {
        Teardown {
            destroy_gui: self.gui_open,
            stop_processing: self.started_processing,
            deactivate: self.active_layout.is_some(),
        }
    }

    /// Whether the plugin is to be told to start processing before a block. The
    /// block starts with no events in `output`.
    pub fn begin_process(&self, output: &mut EventList) -> (result: Result<bool, Error>)
        ensures
            match result {
                Ok(start) => self.active_layout is Some && start == !self.started_processing
                    && final(output)@ == Seq::<Event>::empty(),
                Err(e) => self.active_layout is None && e@ == ErrorView::NotActivated
                    && final(output)@ == old(output)@,
            },
    {
        if !self.is_active() {
            return Err(Error::NotActivated);
        }
        output.clear();
        Ok(!self.started_processing)
    }

    /// Takes the plugin's answer to the start of processing; `None` where it has
    /// none to give.
    pub fn start_answered(&mut self, answer: Option<bool>) -> (result: Result<(), Error>)
        ensures
            match result {
                Ok(_) => answer != Some(false) && *final(self) == (ClapPlugin {
                    started_processing: true,
                    ..*old(self)
                }),
                Err(e) => answer == Some(false) && *final(self) == *old(self) && e@
                    == ErrorView::Other("clap_plugin::start_processing returned false"@),
            },
    {
        match answer {
            Some(false) => Err(Error::other("clap_plugin::start_processing returned false")),
            _ => {
                self.started_processing = true;
                Ok(())
            },
        }
    }

    /// The events of one block: those of `events`, then the queued parameter
    /// changes, which are queued no longer.
    pub fn take_events(&mut self, events: &EventList) -> (converted: ConvertedInputEvents)
        ensures
            converted.events@ == events::all_to_clap(events@) + pending_events(
                old(self).pending@,
            ),
            final(self).pending@ == Seq::<(u32, u64)>::empty(),
            *final(self) == (ClapPlugin { pending: final(self).pending, ..*old(self) }),
    {
        let mut converted = ConvertedInputEvents::from_rack_events(events);
        self.drain_pending(&mut converted);
        converted
    }

    /// Takes the plugin's status after a block of `frames` frames. A plugin that
    /// cannot process, or that panicked, counts as having failed.
    pub fn end_process(&mut self, frames: usize, status: Option<i32>) -> (out: ProcessStatus)
        ensures
            *final(self) == (ClapPlugin {
                steady_time: time_after(old(self).steady_time, frames as nat),
                ..*old(self)
            }),
            status matches Some(s) ==> out == status_of(s),
            status is None ==> out == ProcessStatus::Error,
    {
        self.steady_time = advance(self.steady_time, frames);
        match status {
            Some(status) => map_clap_status(status),
            None => map_clap_status(CLAP_PROCESS_ERROR),
        }
    }
}

/// Time goes on: a block never takes the steady time back, and moves it on by
/// the block's length as long as that can be counted.
pub proof fn steady_time_never_goes_back(steady_time: i64, frames: nat)
    ensures
        time_after(steady_time, frames) >= steady_time,
        steady_time + frames <= i64::MAX && frames <= i64::MAX ==> time_after(steady_time, frames)
            == steady_time + frames,
{
}

/// Two blocks move the steady time on as one block of both lengths does.
pub proof fn steady_time_adds_up(steady_time: i64, a: nat, b: nat)
    requires
        a + b <= i64::MAX,
    ensures
        time_after(time_after(steady_time, a), b) == time_after(steady_time, a + b),
{
}

// ---------------------------------------------------------------------------
// The editor
// ---------------------------------------------------------------------------

/// What happened while the editor is being opened.
#[derive(Clone, Copy, Debug, PartialEq, Eq, Structural)]
pub enum OpenEvent {
    /// The host asks for it to be opened.
    Start,
    /// It can be created, or not.
    CreateFunction(bool),
    /// It was created, or not.
    Created(bool),
    /// It was given its parent window; `None` where it takes none.
    ParentSet(Option<bool>),
    /// It was shown.
    Shown,
}

/// What to do next.
#[derive(Clone, Copy, Debug, PartialEq, Eq, Structural)]
pub enum OpenAction {
    /// See whether it can be created.
    FindCreate,
    /// Create it.
    Create,
    /// Set its scale, where it takes one, and its parent window.
    SetParent,
    /// Show it, where it can be shown.
    Show,
    /// Nothing: it is open.
    Done,
}

/// What follows `event` while the editor is being opened; an error comes with
/// whether to destroy the editor.
pub open spec fn open_step_spec(
    has_gui: bool,
    gui_open: bool,
    event: OpenEvent,
) -> Result<OpenAction, (ErrorView, bool)> {
    match event {
        OpenEvent::Start => if gui_open {
            Ok(OpenAction::Done)
        } else if !has_gui {
            Err((ErrorView::Other("clap.gui extension absent"@), false))
        } else {
            Ok(OpenAction::FindCreate)
        },
        OpenEvent::CreateFunction(found) => if found {
            Ok(OpenAction::Create)
        } else {
            Err((ErrorView::Other("clap.gui missing `create`"@), false))
        },
        OpenEvent::Created(ok) => if ok {
            Ok(OpenAction::SetParent)
        } else {
            Err((ErrorView::Other("clap.gui::create returned false"@), false))
        },
        OpenEvent::ParentSet(answer) => if answer == Some(false) {
            Err((ErrorView::Other("clap.gui::set_parent returned false"@), true))
        } else {
            Ok(OpenAction::Show)
        },
        OpenEvent::Shown => Ok(OpenAction::Done),
    }
}

impl ClapPlugin {
    /// Decides what follows `event` while the editor is being opened, and keeps
    /// that it is open once it was shown.
    pub fn open_step(&mut self, event: OpenEvent) -> (result: Result<OpenAction, (Error, bool)>)
        ensures
            match result {
                Ok(action) => open_step_spec(
                    old(self).has_gui,
                    old(self).gui_open,
                    event,
                ) == Ok::<OpenAction, (ErrorView, bool)>(action),
                Err(e) => open_step_spec(old(self).has_gui, old(self).gui_open, event) == Err::<
                    OpenAction,
                    (ErrorView, bool),
                >((e.0@, e.1)),
            },
            *final(self) == (if event == OpenEvent::Shown {
                ClapPlugin { gui_open: true, ..*old(self) }
            } else {
                *old(self)
            }),
    {
        match event {
            OpenEvent::Start => {
                if self.gui_open {
                    Ok(OpenAction::Done)
                } else if !self.has_gui {
                    Err((Error::other("clap.gui extension absent"), false))
                } else {
                    Ok(OpenAction::FindCreate)
                }
            },
            OpenEvent::CreateFunction(found) => {
                if found {
                    Ok(OpenAction::Create)
                } else {
                    Err((Error::other("clap.gui missing `create`"), false))
                }
            },
            OpenEvent::Created(ok) => {
                if ok {
                    Ok(OpenAction::SetParent)
                } else {
                    Err((Error::other("clap.gui::create returned false"), false))
                }
            },
            OpenEvent::ParentSet(answer) => {
                match answer {
                    Some(false) => Err(
                        (Error::other("clap.gui::set_parent returned false"), true),
                    ),
                    _ => Ok(OpenAction::Show),
                }
            },
            OpenEvent::Shown => {
                self.gui_open = true;
                Ok(OpenAction::Done)
            },
        }
    }

    /// Closes the editor and tells whether there was one to hide and destroy.
    pub fn close_editor(&mut self) -> (destroy: bool)
        ensures
            destroy == old(self).gui_open,
            *final(self) == (ClapPlugin { gui_open: false, ..*old(self) }),
    {
        let destroy: bool = self.gui_open;
        self.gui_open = false;
        destroy
    }
}

// ---------------------------------------------------------------------------
// Transport
// ---------------------------------------------------------------------------

/// What the host reports of its transport, without the numbers that are no
/// whole ones.
#[derive(Clone, Copy, Debug, PartialEq, Eq)]
pub struct TransportFacts {
    /// Whether the tempo is reported.
    pub has_tempo: bool,
    /// Whether the position in beats is reported.
    pub has_beats: bool,
    /// Whether the position in samples is reported.
    pub has_samples: bool,
    /// The time signature, where reported.
    pub time_signature: Option<(u32, u32)>,
    /// Whether the host plays.
    pub playing: bool,
    /// Whether the host records.
    pub recording: bool,
    /// Whether the host loops.
    pub loop_active: bool,
}

/// The flags and the time signature of a transport event.
#[derive(Clone, Copy, Debug, PartialEq, Eq, Structural)]
pub struct TransportHeader {
    /// Flags.
    pub flags: u32,
    /// Numerator, or 0.
    pub tsig_num: u16,
    /// Denominator, or 0.
    pub tsig_denom: u16,
}

/// The value of a flag that is set or not.
pub open spec fn flag(set: bool, value: int) -> int {
    if set {
        value
    } else {
        0
    }
}

/// The flags of a transport event: tempo, beats, seconds and time signature
/// reported, playing, recording, looping.
pub open spec fn transport_flags(t: TransportFacts) -> int {
    flag(t.has_tempo, 1) + flag(t.has_beats, 2) + flag(t.has_samples, 4) + flag(
        t.time_signature is Some,
        8,
    ) + flag(t.playing, 16) + flag(t.recording, 32) + flag(t.loop_active, 64)
}

/// The flags and the time signature of the transport event that reports `t`.
/// Of the time signature's numbers the low 16 bits travel.
pub open spec fn header_of(t: TransportFacts) -> TransportHeader {
    TransportHeader {
        flags: transport_flags(t) as u32,
        tsig_num: (match t.time_signature {
            Some((n, d)) => n as int % 0x1_0000,
            None => 0,
        }) as u16,
        tsig_denom: (match t.time_signature {
            Some((n, d)) => d as int % 0x1_0000,
            None => 0,
        }) as u16,
    }
}

/// The flags and the time signature of the transport event that reports `t`.
/// Of the time signature's numbers the low 16 bits travel.
#[must_use]
pub fn transport_header(t: &TransportFacts) -> (header: TransportHeader)
    ensures
        header == header_of(*t),
        header.flags == transport_flags(*t),
{
    let mut flags: u32 = 0;
    if t.has_tempo {
        flags += 1;
    }
    if t.has_beats {
        flags += 2;
    }
    if t.has_samples {
        flags += 4;
    }
    let mut tsig_num: u16 = 0;
    let mut tsig_denom: u16 = 0;
    if let Some((n, d)) = t.time_signature {
        flags += 8;
        tsig_num = (n % 0x1_0000) as u16;
        tsig_denom = (d % 0x1_0000) as u16;
    }
    if t.playing {
        flags += 16;
    }
    if t.recording {
        flags += 32;
    }
    if t.loop_active {
        flags += 64;
    }
    TransportHeader { flags, tsig_num, tsig_denom }
}

// ---------------------------------------------------------------------------
// What steps and reports mean
// ---------------------------------------------------------------------------

/// The place of an action in loading.
pub open spec fn load_stage(action: LoadAction) -> int {
    match action {
        LoadAction::FindEntry => 1,
        LoadAction::InitEntry => 2,
        LoadAction::GetFactory => 3,
        LoadAction::FindCreate => 4,
        LoadAction::Create => 5,
        LoadAction::FindInit => 6,
        LoadAction::Init => 7,
        LoadAction::LookUpExtensions => 8,
    }
}

/// The place in loading of the action that an event reports on.
pub open spec fn load_reported(event: LoadEvent) -> int {
    match event {
        LoadEvent::Library(_) => 0,
        LoadEvent::EntryMissing(_) => 1,
        LoadEvent::Entry { .. } => 1,
        LoadEvent::BadPath(_) => 2,
        LoadEvent::EntryInit(_) => 2,
        LoadEvent::Factory(_) => 3,
        LoadEvent::CreateFunction(_) => 4,
        LoadEvent::BadId(_) => 5,
        LoadEvent::Created(_) => 5,
        LoadEvent::InitFunction(_) => 6,
        LoadEvent::PluginInit(_) => 7,
    }
}

/// Whether an event reports a success.
pub open spec fn load_succeeded(event: LoadEvent) -> bool {
    match event {
        LoadEvent::Library(why) => why is None,
        LoadEvent::EntryMissing(_) => false,
        LoadEvent::Entry { is_null } => !is_null,
        LoadEvent::BadPath(_) => false,
        LoadEvent::EntryInit(answer) => answer != Some(false),
        LoadEvent::Factory(ok) => ok,
        LoadEvent::CreateFunction(ok) => ok,
        LoadEvent::BadId(_) => false,
        LoadEvent::Created(ok) => ok,
        LoadEvent::InitFunction(ok) => ok,
        LoadEvent::PluginInit(ok) => ok,
    }
}

/// Loading takes one step after the other: a success leads to the next one, and
/// anything else ends it.
pub proof fn loading_takes_its_steps_in_order(bundle: Seq<char>, binary: Seq<char>, event: LoadEvent)
    ensures
        load_step_spec(bundle, binary, event) is Ok <==> load_succeeded(event),
        load_step_spec(bundle, binary, event) matches Ok(action) ==> load_stage(action)
            == load_reported(event) + 1,
        load_step_spec(bundle, binary, event) matches Err(f) ==> {
            &&& f.deinit_entry ==> load_reported(event) > 2
            &&& f.destroy_plugin ==> load_reported(event) > 5
        },
{
}

/// A failure is reported with the path of the file that it is about: that of the
/// library until its entry was initialised, and that of the bundle from there on. An
/// id that cannot be asked for is reported as a plugin that was not found.
pub proof fn failures_name_their_file(bundle: Seq<char>, binary: Seq<char>, event: LoadEvent)
    ensures
        load_step_spec(bundle, binary, event) matches Err(f) ==> (match f.error {
            ErrorView::LoadFailed { path, reason } => if load_reported(event) > 2 {
                path == bundle
            } else {
                path == binary || path.len() == 0 && load_reported(event) == 1
            },
            ErrorView::PluginNotFound(id) => event matches LoadEvent::BadId(asked) && asked@ == id,
            _ => false,
        }),
{
}

/// The place of an action in opening the editor.
pub open spec fn open_stage(action: OpenAction) -> int {
    match action {
        OpenAction::FindCreate => 1,
        OpenAction::Create => 2,
        OpenAction::SetParent => 3,
        OpenAction::Show => 4,
        OpenAction::Done => 5,
    }
}

/// The place in opening the editor of the action that an event reports on.
pub open spec fn open_reported(event: OpenEvent) -> int {
    match event {
        OpenEvent::Start => 0,
        OpenEvent::CreateFunction(_) => 1,
        OpenEvent::Created(_) => 2,
        OpenEvent::ParentSet(_) => 3,
        OpenEvent::Shown => 4,
    }
}

/// Opening the editor takes one step after the other, or none where it is open. It
/// goes wrong just where there is no editor or a step fails, and an editor that was
/// created is destroyed then.
pub proof fn opening_takes_its_steps_in_order(has_gui: bool, gui_open: bool, event: OpenEvent)
    ensures
        match open_step_spec(has_gui, gui_open, event) {
            Ok(action) => {
                &&& open_stage(action) == (if event == OpenEvent::Start && gui_open {
                    5
                } else {
                    open_reported(event) + 1
                })
                &&& event == OpenEvent::Start ==> gui_open || has_gui
                &&& event != OpenEvent::CreateFunction(false)
                &&& event != OpenEvent::Created(false)
                &&& event != OpenEvent::ParentSet(Some(false))
            },
            Err((_, destroy)) => {
                &&& destroy <==> open_reported(event) > 2
                &&& (event == OpenEvent::Start && !gui_open && !has_gui) || event
                    == OpenEvent::CreateFunction(false) || event == OpenEvent::Created(false)
                    || event == OpenEvent::ParentSet(Some(false))
            },
        },
{
}

/// What each status of CLAP means: 1 and 2 go on, 3 is a tail, 4 is sleep, and every
/// other one is a failure.
pub proof fn statuses_mean_what_clap_says(status: i32)
    ensures
        status_of(status) == ProcessStatus::Continue <==> status == 1 || status == 2,
        status_of(status) is Tail <==> status == 3,
        status_of(status) == ProcessStatus::Sleep <==> status == 4,
        status_of(status) == ProcessStatus::Error <==> !(1 <= status <= 4),
{
}

/// Each thing that the host reports of its transport sets its own bit of CLAP's flags
/// and no other, and the time signature travels in order.
pub proof fn transport_flags_are_those_of_clap(t: TransportFacts)
    ensures
        ({
            let h = header_of(t);
            &&& (h.flags & 1 == 1) == t.has_tempo
            &&& (h.flags & 2 == 2) == t.has_beats
            &&& (h.flags & 4 == 4) == t.has_samples
            &&& (h.flags & 8 == 8) == t.time_signature is Some
            &&& (h.flags & 16 == 16) == t.playing
            &&& (h.flags & 32 == 32) == t.recording
            &&& (h.flags & 64 == 64) == t.loop_active
            &&& h.flags < 128
            &&& t.time_signature matches Some((n, d)) ==> {
                &&& n < 0x1_0000 ==> h.tsig_num == n
                &&& d < 0x1_0000 ==> h.tsig_denom == d
            }
            &&& t.time_signature is None ==> h.tsig_num == 0 && h.tsig_denom == 0
        }),
{
    let (a, b, c, d) = (t.has_tempo, t.has_beats, t.has_samples, t.time_signature is Some);
    let (e, f, g) = (t.playing, t.recording, t.loop_active);
    let flags = header_of(t).flags;
    assert((flags & 1 == 1) == a && (flags & 2 == 2) == b && (flags & 4 == 4) == c && (flags & 8
        == 8) == d && (flags & 16 == 16) == e && (flags & 32 == 32) == f && (flags & 64 == 64) == g
        && flags < 128) by (bit_vector)
        requires
            flags == ((if a {
                1u32
            } else {
                0u32
            }) + (if b {
                2u32
            } else {
                0u32
            }) + (if c {
                4u32
            } else {
                0u32
            }) + (if d {
                8u32
            } else {
                0u32
            }) + (if e {
                16u32
            } else {
                0u32
            }) + (if f {
                32u32
            } else {
                0u32
            }) + (if g {
                64u32
            } else {
                0u32
            })) as u32,
    ;
}

/// What a block has is counted as it is, as far as CLAP can count, and a direction
/// without channels has no buffer.
pub proof fn blocks_are_counted(frames: nat, ins: nat, outs: nat)
    requires
        frames <= u32::MAX,
        ins <= u32::MAX,
        outs <= u32::MAX,
    ensures
        ({
            let c = counts_of(frames, ins, outs);
            &&& c.frames == frames
            &&& c.input_channels == ins
            &&& c.output_channels == outs
            &&& c.inputs <= 1 && c.outputs <= 1
            &&& c.inputs == 0 <==> ins == 0
            &&& c.outputs == 0 <==> outs == 0
        }),
        forall|n: nat| n >= frames ==> (#[trigger] counts_of(n, ins, outs)).frames >= frames,
{
}

/// Queued changes come as events of the parameters and values that were set, in the
/// order in which they were set, at the start of the block.
pub proof fn queued_changes_come_in_order(
    before: Seq<(u32, u64)>,
    param_id: u32,
    value_bits: u64,
    after: Seq<(u32, u64)>,
)
    ensures
        pending_events(before + seq![(param_id, value_bits)] + after) == pending_events(before)
            + seq![ClapEvent::Param { time: 0, param_id, value_bits }] + pending_events(after),
        pending_events(before).len() == before.len(),
{
    assert(pending_events(before + seq![(param_id, value_bits)] + after) =~= pending_events(before)
        + seq![ClapEvent::Param { time: 0, param_id, value_bits }] + pending_events(after));
}

/// A plugin that was made inactive is not made so again before it is destroyed, and
/// what is to be stopped is stopped once. Its editor is left alone until then.
pub proof fn nothing_is_stopped_twice(plugin: ClapPlugin)
    ensures
        !plugin.inactive().farewell().stop_processing,
        !plugin.inactive().farewell().deactivate,
        plugin.inactive().farewell().destroy_gui == plugin.farewell().destroy_gui,
        plugin.farewell().destroy_gui == plugin.gui_open,
        plugin.deactivation().stop_processing == plugin.started_processing,
        plugin.farewell().stop_processing == plugin.started_processing,
        plugin.farewell().deactivate <==> plugin.active_layout is Some,
        plugin.deactivation().deactivate && !plugin.deactivation().destroy_gui,
        plugin.inactive().pending == plugin.pending && plugin.inactive().steady_time
            == plugin.steady_time,
{
}

/// What is too much to count is counted as far as CLAP can count where it is frames,
/// and not at all where it is channels.
pub proof fn what_cannot_be_counted(frames: nat, ins: nat, outs: nat)
    ensures
        frames >= 0x1_0000_0000 ==> counts_of(frames, ins, outs).frames == 0xFFFF_FFFF,
        ins >= 0x1_0000_0000 ==> counts_of(frames, ins, outs).input_channels == 0,
        outs >= 0x1_0000_0000 ==> counts_of(frames, ins, outs).output_channels == 0,
{
}

} // verus!
