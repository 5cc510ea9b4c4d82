//! A loaded VST3 plugin: what the host keeps of it and decides about it.
//!
//! Calls into the plugin are made elsewhere. They are told what to do next, and
//! report back what happened.

use crate::bus::{self, BusLayout};
use crate::clap::host;
use crate::error::{Error, ErrorView};
use crate::events::{Event, EventList};
use crate::info::{PluginInfo, PluginInfoView};
use crate::plugin::ProcessStatus;
use crate::text;
use crate::vst3::events::{
    self, drain_vst3_output_events, midi_controller_assignment, to_offset, Amount, EventBuffer,
    ParameterChanges, Point, Vst3Event,
};
use crate::vst3::ids::{self, hex_to_tuid};
use crate::vst3::layout::{self, speaker_arrangement_for_channels};
use crate::vst3::stream::RESULT_OK;
use vstd::prelude::*;
use vstd::string::StringExecFns;

verus! {

// ---------------------------------------------------------------------------
// Loading
// ---------------------------------------------------------------------------

/// Why a bundle could not be opened on macOS.
#[derive(Clone, Copy, Debug, PartialEq, Eq, Structural)]
pub enum BundleFailure {
    /// Its path is no text.
    PathNotText,
    /// Its path is no URL.
    NoUrl,
    /// It is no bundle.
    NoBundle,
    /// Its executable was not loaded.
    NotLoaded,
}

/// What happened while a plugin is being loaded.
pub enum LoadEvent {
    /// Its module was opened.
    ModuleOpened,
    /// Its module was not opened, with a description.
    ModuleFailed(String),
    /// Its bundle was not opened.
    BundleFailed(BundleFailure),
    /// A library has no factory symbol, with a description.
    FactoryMissing(String),
    /// A bundle has no factory symbol.
    FactoryMissingInBundle,
    /// The factory was asked for.
    Factory {
        /// Whether it is NULL.
        is_null: bool,
        /// Whether the module is a bundle.
        in_bundle: bool,
    },
    /// The host context has its application interface, or not.
    HostApplication(bool),
    /// The component was created, or not.
    ComponentCreated(bool),
    /// The component's `initialize` answered.
    ComponentInitialized(i32),
    /// The component processes audio, or not.
    ProcessorFound(bool),
    /// The component answered which class its controller has.
    ControllerClass(i32),
    /// The separate controller was created, or not.
    ControllerCreated(bool),
    /// The separate controller's `initialize` answered.
    ControllerInitialized(i32),
    /// The component is its own controller, or not.
    ControllerFound(bool),
    /// The host context has its handler interface, or not.
    ComponentHandler(bool),
    /// The controller answered whether it takes the handler.
    HandlerSet(i32),
}

/// What to do next.
#[derive(Clone, Copy, Debug, PartialEq, Eq, Structural)]
pub enum LoadAction {
    /// Get the factory.
    GetFactory,
    /// Make the host context.
    MakeHostContext,
    /// Read the class id and create the component.
    CreateComponent,
    /// Initialise the component.
    InitializeComponent,
    /// Ask the component for its processor.
    FindProcessor,
    /// Ask the component for its controller's class.
    FindControllerClass,
    /// Create a separate controller.
    CreateController,
    /// Initialise the separate controller.
    InitializeController,
    /// Ask the component to be its own controller.
    FindController,
    /// Get the host context's handler interface.
    GetHandler,
    /// Hand the handler to the controller.
    SetHandler,
    /// Connect a separate controller and look up what the plugin offers: it is
    /// loaded.
    Finish,
}

/// The description of a bundle that could not be opened.
pub open spec fn bundle_failure_text(why: BundleFailure) -> Seq<char> {
    match why {
        BundleFailure::PathNotText => "bundle path is not valid UTF-8"@,
        BundleFailure::NoUrl => "CFURLCreateWithFileSystemPath returned NULL"@,
        BundleFailure::NoBundle => "CFBundleCreate returned NULL"@,
        BundleFailure::NotLoaded => "CFBundleLoadExecutable failed"@,
    }
}

/// A failure to load.
pub open spec fn failure(path: Seq<char>, reason: Seq<char>) -> Result<LoadAction, ErrorView> {
    Err(ErrorView::LoadFailed { path, reason })
}

/// What follows `event` while the plugin at `path` is being loaded, where
/// `not_implemented` is the platform's status of a call that does nothing.
pub open spec fn load_step_spec(
    path: Seq<char>,
    not_implemented: i32,
    event: LoadEvent,
) -> Result<LoadAction, ErrorView> {
    match event {
        LoadEvent::ModuleOpened => Ok(LoadAction::GetFactory),
        LoadEvent::ModuleFailed(why) => failure(path, "dlopen: "@ + why@),
        LoadEvent::BundleFailed(why) => failure(path, bundle_failure_text(why)),
        LoadEvent::FactoryMissing(why) => failure(
            Seq::empty(),
            "missing GetPluginFactory: "@ + why@,
        ),
        LoadEvent::FactoryMissingInBundle => failure(path, "missing GetPluginFactory"@),
        LoadEvent::Factory { is_null, in_bundle } => if !is_null {
            Ok(LoadAction::MakeHostContext)
        } else {
            failure(
                if in_bundle {
                    path
                } else {
                    Seq::empty()
                },
                "GetPluginFactory returned NULL"@,
            )
        },
        LoadEvent::HostApplication(found) => if found {
            Ok(LoadAction::CreateComponent)
        } else {
            Err(ErrorView::Other("HostContext missing IHostApplication IID"@))
        },
        LoadEvent::ComponentCreated(ok) => if ok {
            Ok(LoadAction::InitializeComponent)
        } else {
            failure(path, "factory.createInstance(IComponent) returned NULL"@)
        },
        LoadEvent::ComponentInitialized(status) => if status == RESULT_OK {
            Ok(LoadAction::FindProcessor)
        } else {
            failure(path, "IComponent::initialize returned non-OK"@)
        },
        LoadEvent::ProcessorFound(found) => if found {
            Ok(LoadAction::FindControllerClass)
        } else {
            failure(path, "component does not implement IAudioProcessor"@)
        },
        LoadEvent::ControllerClass(status) => if status == RESULT_OK {
            Ok(LoadAction::CreateController)
        } else {
            Ok(LoadAction::FindController)
        },
        LoadEvent::ControllerCreated(ok) => if ok {
            Ok(LoadAction::InitializeController)
        } else {
            failure(path, "factory.createInstance(IEditController) returned NULL"@)
        },
        LoadEvent::ControllerInitialized(status) => if status == RESULT_OK {
            Ok(LoadAction::GetHandler)
        } else {
            failure(path, "IEditController::initialize returned non-OK"@)
        },
        LoadEvent::ControllerFound(found) => if found {
            Ok(LoadAction::GetHandler)
        } else {
            failure(
                path,
                "component is not its own controller and didn't report a controller cid"@,
            )
        },
        LoadEvent::ComponentHandler(found) => if found {
            Ok(LoadAction::SetHandler)
        } else {
            Err(ErrorView::Other("HostContext missing IComponentHandler IID"@))
        },
        LoadEvent::HandlerSet(status) => if status == RESULT_OK || status == not_implemented {
            Ok(LoadAction::Finish)
        } else {
            failure(
                path,
                "IEditController::setComponentHandler returned "@ + text::signed_decimal(
                    status as int,
                ),
            )
        },
    }
}

fn fail(path: &str, reason: &str) -> (result: Result<LoadAction, Error>)
    ensures
        result matches Err(e) && failure(path@, reason@) == Err::<LoadAction, ErrorView>(e@),
{
    Err(Error::load_failed(path, reason))
}

/// `text` and a status.
fn with_status(text: &str, status: i32) -> (out: String)
    ensures
        out@ == text@ + text::signed_decimal(status as int),
{
    let mut out = String::from_str(text);
    text::push_signed_decimal(&mut out, status as i64);
    out
}

/// Decides what follows `event` while a plugin is being loaded.
pub fn load_step(path: &str, not_implemented: i32, event: LoadEvent) -> (next: Result<
    LoadAction,
    Error,
>)
    ensures
        match next {
            Ok(action) => load_step_spec(path@, not_implemented, event) == Ok::<
                LoadAction,
                ErrorView,
            >(action),
            Err(e) => load_step_spec(path@, not_implemented, event) == Err::<
                LoadAction,
                ErrorView,
            >(e@),
        },
{
    match event {
        LoadEvent::ModuleOpened => Ok(LoadAction::GetFactory),
        LoadEvent::ModuleFailed(why) => {
            let mut reason = String::from_str("dlopen: ");
            reason.append(why.as_str());
            fail(path, reason.as_str())
        },
        LoadEvent::BundleFailed(why) => fail(
            path,
            match why {
                BundleFailure::PathNotText => "bundle path is not valid UTF-8",
                BundleFailure::NoUrl => "CFURLCreateWithFileSystemPath returned NULL",
                BundleFailure::NoBundle => "CFBundleCreate returned NULL",
                BundleFailure::NotLoaded => "CFBundleLoadExecutable failed",
            },
        ),
        LoadEvent::FactoryMissing(why) => {
            let nowhere = String::new();
            let mut reason = String::from_str("missing GetPluginFactory: ");
            reason.append(why.as_str());
            fail(nowhere.as_str(), reason.as_str())
        },
        LoadEvent::FactoryMissingInBundle => fail(path, "missing GetPluginFactory"),
        LoadEvent::Factory { is_null, in_bundle } => {
            if !is_null {
                Ok(LoadAction::MakeHostContext)
            } else if in_bundle {
                fail(path, "GetPluginFactory returned NULL")
            } else {
                let nowhere = String::new();
                fail(nowhere.as_str(), "GetPluginFactory returned NULL")
            }
        },
        LoadEvent::HostApplication(found) => {
            if found {
                Ok(LoadAction::CreateComponent)
            } else {
                Err(Error::other("HostContext missing IHostApplication IID"))
            }
        },
        LoadEvent::ComponentCreated(ok) => {
            if ok {
                Ok(LoadAction::InitializeComponent)
            } else {
                fail(path, "factory.createInstance(IComponent) returned NULL")
            }
        },
        LoadEvent::ComponentInitialized(status) => {
            if status == RESULT_OK {
                Ok(LoadAction::FindProcessor)
            } else {
                fail(path, "IComponent::initialize returned non-OK")
            }
        },
        LoadEvent::ProcessorFound(found) => {
            if found {
                Ok(LoadAction::FindControllerClass)
            } else {
                fail(path, "component does not implement IAudioProcessor")
            }
        },
        LoadEvent::ControllerClass(status) => {
            if status == RESULT_OK {
                Ok(LoadAction::CreateController)
            } else {
                Ok(LoadAction::FindController)
            }
        },
        LoadEvent::ControllerCreated(ok) => {
            if ok {
                Ok(LoadAction::InitializeController)
            } else {
                fail(path, "factory.createInstance(IEditController) returned NULL")
            }
        },
        LoadEvent::ControllerInitialized(status) => {
            if status == RESULT_OK {
                Ok(LoadAction::GetHandler)
            } else {
                fail(path, "IEditController::initialize returned non-OK")
            }
        },
        LoadEvent::ControllerFound(found) => {
            if found {
                Ok(LoadAction::GetHandler)
            } else {
                fail(
                    path,
                    "component is not its own controller and didn't report a controller cid",
                )
            }
        },
        LoadEvent::ComponentHandler(found) => {
            if found {
                Ok(LoadAction::SetHandler)
            } else {
                Err(Error::other("HostContext missing IComponentHandler IID"))
            }
        },
        LoadEvent::HandlerSet(status) => {
            if status == RESULT_OK || status == not_implemented {
                Ok(LoadAction::Finish)
            } else {
                let reason = with_status("IEditController::setComponentHandler returned ", status);
                fail(path, reason.as_str())
            }
        },
    }
}

/// A plugin that says nothing of a separate controller must be its own, and no
/// plugin is loaded before its controller was given the host's handler.
pub proof fn a_handler_is_set_before_loading_ends(path: Seq<char>, not_implemented: i32, event: LoadEvent)
    ensures
        load_step_spec(path, not_implemented, event) == Ok::<LoadAction, ErrorView>(
            LoadAction::Finish,
        ) <==> (event matches LoadEvent::HandlerSet(status) && (status == RESULT_OK || status
            == not_implemented)),
        load_step_spec(path, not_implemented, event) == Ok::<LoadAction, ErrorView>(
            LoadAction::FindController,
        ) <==> (event matches LoadEvent::ControllerClass(status) && status != RESULT_OK),
{
}

/// The class id of the component that `unique_id` names. No plugin has an id that
/// is no class id.
pub fn component_class_id(unique_id: &str) -> (result: Result<[i8; 16], Error>)
    ensures
        match result {
            Ok(cid) => ids::is_hex_id(unique_id@) && forall|i: int|
                0 <= i < 16 ==> #[trigger] cid@[i] == ids::signed_bits(
                    ids::hex_byte(unique_id@, i)->0 as u8,
                ),
            Err(e) => !ids::is_hex_id(unique_id@) && e@ == ErrorView::PluginNotFound(unique_id@),
        },
{
    match hex_to_tuid(unique_id) {
        Some(cid) => Ok(cid),
        None => Err(Error::plugin_not_found(unique_id)),
    }
}

/// The name under which the host introduces itself.
pub const HOST_NAME: &'static str = "truce-rack";

/// The host's name as VST3 wants it: its characters, then zeros.
#[must_use]
pub fn host_name() -> (name: [u16; 128])
    ensures
        forall|i: int|
            0 <= i < 128 ==> #[trigger] name@[i] == (if i < HOST_NAME@.len() {
                HOST_NAME@[i] as u16
            } else {
                0
            }),
{
    let chars = text::chars_of(HOST_NAME);
    let mut name: [u16; 128] = [0u16; 128];
    let mut i: usize = 0;
    proof {
        reveal_strlit("truce-rack");
    }
    while i < chars.len()
        invariant
            i <= chars.len(),
            chars@ == HOST_NAME@,
            chars@.len() <= 128,
            forall|j: int| 0 <= j < chars@.len() ==> (#[trigger] chars@[j]) as u32 <= 0x7F,
            forall|j: int|
                0 <= j < 128 ==> #[trigger] name@[j] == (if j < i {
                    HOST_NAME@[j] as u16
                } else {
                    0
                }),
        decreases chars.len() - i,
    {
        name[i] = chars[i] as u16;
        i += 1;
    }
    name
}

// ---------------------------------------------------------------------------
// What the plugin asks the host to do
// ---------------------------------------------------------------------------

/// The bit with which a plugin says that its parameters' values changed.
pub const PARAM_VALUES_CHANGED: i32 = 4;

/// The restart flags once `flags` were added to them.
#[must_use]
pub fn restart_component(pending: i32, flags: i32) -> (all: i32)
    ensures
        all == pending | flags,
{
    pending | flags
}

/// Whether the flags say that parameter values changed.
#[must_use]
pub fn values_changed(flags: i32) -> (changed: bool)
    ensures
        changed == (flags & PARAM_VALUES_CHANGED != 0),
{
    flags & PARAM_VALUES_CHANGED != 0
}

/// A change of values that was reported is not lost by later reports.
pub proof fn reports_add_up(pending: i32, flags: i32)
    ensures
        (pending | flags) & PARAM_VALUES_CHANGED != 0 <==> (pending & PARAM_VALUES_CHANGED != 0
            || flags & PARAM_VALUES_CHANGED != 0),
{
    assert((pending | flags) & 4 != 0 <==> (pending & 4 != 0 || flags & 4 != 0)) by (bit_vector);
}

// ---------------------------------------------------------------------------
// The loaded plugin
// ---------------------------------------------------------------------------

/// One loaded VST3 plugin.
pub struct Vst3Plugin {
    /// Its catalog entry.
    pub info: PluginInfo,
    /// The one layout it supports.
    pub layout: BusLayout,
    /// The layout it is active with.
    pub active_layout: Option<BusLayout>,
    /// Whether controller and component are different objects.
    pub separate_controller: bool,
    /// Whether controller and component were connected.
    pub connected: bool,
    /// Parameter changes that the processor has not been told yet: ids and the
    /// bit patterns of values.
    pub pending: Vec<(u32, u64)>,
    /// The number of parameters.
    pub param_count: usize,
    /// Whether it was told to process.
    pub processing: bool,
    /// Whether there is an editor view.
    pub has_view: bool,
    /// Whether the editor is open.
    pub editor_open: bool,
}

/// Whether a double-precision bit pattern is a finite number: its exponent is
/// not all ones.
pub open spec fn is_finite(bits: u64) -> bool {
    (bits / 0x10_0000_0000_0000) % 0x800 != 0x7FF
}

/// The values that are queued of a plugin's answers: the finite ones before the
/// first parameter that the plugin does not describe.
pub open spec fn queued_values(answers: Seq<Option<(u32, u64)>>) -> Seq<(u32, u64)>
    decreases answers.len(),
{
    if answers.len() == 0 || answers[0] is None {
        Seq::empty()
    } else if is_finite((answers[0]->0).1) {
        seq![answers[0]->0] + queued_values(answers.skip(1))
    } else {
        queued_values(answers.skip(1))
    }
}

/// The first parameter that the plugin does not describe, or their number.
pub open spec fn first_missing(answers: Seq<Option<(u32, u64)>>) -> nat
    decreases answers.len(),
{
    if answers.len() == 0 || answers[0] is None {
        0
    } else {
        1 + first_missing(answers.skip(1))
    }
}

/// What happened while a state is being restored.
#[derive(Clone, Copy, Debug, PartialEq, Eq, Structural)]
pub enum PresetEvent {
    /// The component answered to its state.
    ComponentSet(i32),
    /// The controller answered to the component's state.
    ControllerTold(i32),
    /// The controller answered to its own state.
    ControllerSet(i32),
}

/// What to do next.
#[derive(Clone, Copy, Debug, PartialEq, Eq, Structural)]
pub enum PresetAction {
    /// Hand the component's state to the controller.
    TellController,
    /// Hand the controller its own state.
    SetController,
    /// Queue the parameter values that changed.
    QueueChangedValues,
}

/// What follows `event` while a state is being restored. A controller need not
/// take either state.
pub open spec fn preset_step(
    has_controller_state: bool,
    not_implemented: i32,
    event: PresetEvent,
) -> Result<PresetAction, ErrorView> {
    match event {
        PresetEvent::ComponentSet(status) => if status == RESULT_OK {
            Ok(PresetAction::TellController)
        } else {
            Err(
                ErrorView::Other(
                    "IComponent::setState returned "@ + text::signed_decimal(status as int),
                ),
            )
        },
        PresetEvent::ControllerTold(status) => if status != RESULT_OK && status
            != not_implemented {
            Err(
                ErrorView::Other(
                    "IEditController::setComponentState returned "@ + text::signed_decimal(
                        status as int,
                    ),
                ),
            )
        } else if has_controller_state {
            Ok(PresetAction::SetController)
        } else {
            Ok(PresetAction::QueueChangedValues)
        },
        PresetEvent::ControllerSet(status) => if status == RESULT_OK || status
            == not_implemented {
            Ok(PresetAction::QueueChangedValues)
        } else {
            Err(
                ErrorView::Other(
                    "IEditController::setState returned "@ + text::signed_decimal(status as int),
                ),
            )
        },
    }
}

/// Values are queued only once the component took its state and the controller
/// was told of it, and a state of the controller's own is never skipped.
pub proof fn presets_are_restored_in_order(
    has_controller_state: bool,
    not_implemented: i32,
    event: PresetEvent,
)
    requires
        preset_step(has_controller_state, not_implemented, event) == Ok::<PresetAction, ErrorView>(
            PresetAction::QueueChangedValues,
        ),
    ensures
        !(event is ComponentSet),
        has_controller_state ==> event is ControllerSet,
{
}

/// What is handed to a plugin before it becomes active.
#[derive(Clone, Copy, Debug, PartialEq, Eq)]
pub struct ActivationSetup {
    /// The speakers of its input, where it has input channels.
    pub input_arrangement: Option<u64>,
    /// The speakers of its output, where it has output channels.
    pub output_arrangement: Option<u64>,
    /// The longest block.
    pub max_samples: i32,
}

/// What happened while a plugin is being activated.
#[derive(Clone, Copy, Debug, PartialEq, Eq, Structural)]
pub enum ActivateEvent {
    /// `setupProcessing` answered.
    SetUp(i32),
    /// Its buses were activated and `setActive` answered.
    SetActive(i32),
    /// `setProcessing` answered.
    SetProcessing(i32),
}

/// What to do next.
#[derive(Clone, Copy, Debug, PartialEq, Eq, Structural)]
pub enum ActivateAction {
    /// Activate its buses and call `setActive`.
    Activate,
    /// Call `setProcessing`.
    Process,
    /// Nothing: it is active.
    Done,
}

/// Why activation ended, and what to undo.
pub struct ActivateFailure {
    /// The error.
    pub error: Error,
    /// Make the component inactive.
    pub set_inactive: bool,
    /// Then deactivate its buses.
    pub deactivate_buses: bool,
}

/// What is to be called when a plugin becomes inactive or goes away, in this
/// order.
#[derive(Clone, Copy, Debug, PartialEq, Eq, Structural)]
pub struct Teardown {
    /// Stop processing.
    pub stop_processing: bool,
    /// Make the component inactive.
    pub set_inactive: bool,
    /// Deactivate its buses.
    pub deactivate_buses: bool,
    /// Disconnect component and controller.
    pub disconnect: bool,
    /// Terminate the separate controller.
    pub terminate_controller: bool,
    /// Terminate the component.
    pub terminate_component: bool,
}

/// `n` as VST3 counts, or the largest number where it does not fit.
pub open spec fn at_most_i32(n: nat) -> i32 {
    if n <= i32::MAX {
        n as i32
    } else {
        i32::MAX
    }
}

/// `n` as VST3 counts.
#[must_use]
pub fn saturate_i32(n: usize) -> (out: i32)
    ensures
        out == at_most_i32(n as nat),
{
    if n as u64 <= 0x7FFF_FFFF {
        n as i32
    } else {
        i32::MAX
    }
}

/// The speakers of a direction, where it has channels.
pub open spec fn arrangement_of(channels: u32) -> Option<u64> {
    if channels == 0 {
        None
    } else {
        Some(layout::arrangement(channels))
    }
}

impl Vst3Plugin {
    /// Whether the plugin's number of parameters is one that VST3 can state.
    pub open spec fn wf(self) -> bool {
        self.param_count <= i32::MAX
    }

    /// A plugin that was just loaded. A negative number of parameters counts as
    /// none; the plugin has an editor where it made a view.
    pub fn load_from(
        info: &PluginInfo,
        layout: BusLayout,
        separate_controller: bool,
        connected: bool,
        param_count: i32,
        makes_view: bool,
    ) -> (plugin: Vst3Plugin)
        ensures
            plugin.wf(),
            plugin.info@ == (PluginInfoView { has_editor: makes_view, ..info@ }),
            plugin.layout == layout,
            plugin.active_layout is None,
            plugin.separate_controller == separate_controller,
            plugin.connected == connected,
            plugin.pending@.len() == 0,
            plugin.param_count == (if param_count < 0 {
                0
            } else {
                param_count as int
            }),
            !plugin.processing,
            !plugin.has_view,
            !plugin.editor_open,
    {
        let mut info = info.clone();
        info.has_editor = makes_view;
        Vst3Plugin {
            info,
            layout,
            active_layout: None,
            separate_controller,
            connected,
            pending: Vec::new(),
            param_count: if param_count < 0 {
                0
            } else {
                param_count as usize
            },
            processing: false,
            has_view: false,
            editor_open: false,
        }
    }

    /// Whether the plugin is active.
    #[must_use]
    pub fn is_active(&self) -> (active: bool)
        ensures
            active == self.active_layout is Some,
    {
        self.active_layout.is_some()
    }

    // -- parameters --------------------------------------------------------

    /// The parameter's index as VST3 counts.
    pub fn parameter_index(&self, index: usize) -> (result: Result<i32, Error>)
        requires
            self.wf(),
        ensures
            match result {
                Ok(i) => index < self.param_count && i == index,
                Err(e) => index >= self.param_count && e@ == ErrorView::InvalidParameter(index),
            },
    {
        if index >= self.param_count {
            return Err(Error::InvalidParameter(index));
        }
        Ok(index as i32)
    }

    /// What the answer to a question about a parameter means.
    pub fn parameter_answered(index: usize, status: i32) -> (result: Result<(), Error>)
        ensures
            match result {
                Ok(_) => status == RESULT_OK,
                Err(e) => status != RESULT_OK && e@ == ErrorView::InvalidParameter(index),
            },
    {
        if status == RESULT_OK {
            Ok(())
        } else {
            Err(Error::InvalidParameter(index))
        }
    }

    /// Whether parameter values may be asked for and set, which only an active
    /// plugin allows.
    pub fn values_ready(&self) -> (result: Result<(), Error>)
        ensures
            match result {
                Ok(_) => self.active_layout is Some,
                Err(e) => self.active_layout is None && e@ == ErrorView::NotActivated,
            },
    {
        if self.is_active() {
            Ok(())
        } else {
            Err(Error::NotActivated)
        }
    }

    /// Takes the controller's answer to a parameter change of an active plugin,
    /// which is then queued for the processor too.
    pub fn set_parameter(&mut self, param_id: u32, value_bits: u64, status: i32) -> (result: Result<
        (),
        Error,
    >)
        ensures
            match result {
                Ok(_) => {
                    &&& old(self).active_layout is Some
                    &&& status == RESULT_OK
                    &&& final(self).pending@ == old(self).pending@.push((param_id, value_bits))
                    &&& *final(self) == (Vst3Plugin { pending: final(self).pending, ..*old(self) })
                },
                Err(e) => *final(self) == *old(self) && if old(self).active_layout is None {
                    e@ == ErrorView::NotActivated
                } else {
                    status != RESULT_OK && e@ == ErrorView::Other(
                        "IEditController::setParamNormalized failed"@,
                    )
                },
            },
    {
        if !self.is_active() {
            return Err(Error::NotActivated);
        }
        if status != RESULT_OK {
            return Err(Error::other("IEditController::setParamNormalized failed"));
        }
        self.pending.push((param_id, value_bits));
        Ok(())
    }

    /// Queues the values of all parameters in place of what was queued.
    /// `answers` holds ids and the bit patterns of values in order, up to the
    /// first parameter that the plugin does not describe.
    pub fn queue_all_parameter_values(&mut self, answers: &[Option<(u32, u64)>]) -> (result: Result<
        (),
        Error,
    >)
        ensures
            final(self).pending@ == queued_values(answers@),
            *final(self) == (Vst3Plugin { pending: final(self).pending, ..*old(self) }),
            match result {
                Ok(_) => first_missing(answers@) == answers@.len(),
                Err(e) => first_missing(answers@) < answers@.len() && e@
                    == ErrorView::InvalidParameter(first_missing(answers@) as usize),
            },
    {
        self.pending.clear();
        let mut i: usize = 0;
        assert(answers@.skip(0) =~= answers@);
        assert(self.pending@ + queued_values(answers@) =~= queued_values(answers@));
        while i < answers.len()
            invariant
                i <= answers.len(),
                *self == (Vst3Plugin { pending: self.pending, ..*old(self) }),
                self.pending@ + queued_values(answers@.skip(i as int)) == queued_values(answers@),
                i + first_missing(answers@.skip(i as int)) == first_missing(answers@),
            decreases answers.len() - i,
        {
            let ghost rest = answers@.skip(i as int);
            assert(rest[0] == answers@[i as int]);
            assert(rest.skip(1) =~= answers@.skip(i + 1));
            match answers[i] {
                None => {
                    assert(self.pending@ + queued_values(rest) =~= self.pending@);
                    return Err(Error::InvalidParameter(i));
                },
                Some((id, bits)) => {
                    if (bits / 0x10_0000_0000_0000) % 0x800 != 0x7FF {
                        let ghost before = self.pending@;
                        self.pending.push((id, bits));
                        assert(before.push((id, bits)) + queued_values(rest.skip(1)) =~= before
                            + queued_values(rest));
                    }
                },
            }
            i += 1;
        }
        assert(self.pending@ + queued_values(answers@.skip(i as int)) =~= self.pending@);
        Ok(())
    }

    // -- state -------------------------------------------------------------

    /// Queues the values of all parameters where the restart `flags` say that
    /// they changed, and leaves the queue alone otherwise. `answers` is as for
    /// [`Vst3Plugin::queue_all_parameter_values`].
    pub fn queue_changed_parameter_values(
        &mut self,
        flags: i32,
        answers: &[Option<(u32, u64)>],
    ) -> (result: Result<(), Error>)
        ensures
            flags & PARAM_VALUES_CHANGED == 0 ==> result is Ok && *final(self) == *old(self),
            flags & PARAM_VALUES_CHANGED != 0 ==> final(self).pending@ == queued_values(answers@)
                && *final(self) == (Vst3Plugin { pending: final(self).pending, ..*old(self) })
                && (match result {
                Ok(_) => first_missing(answers@) == answers@.len(),
                Err(e) => first_missing(answers@) < answers@.len() && e@
                    == ErrorView::InvalidParameter(first_missing(answers@) as usize),
            }),
    {
        if !values_changed(flags) {
            return Ok(());
        }
        self.queue_all_parameter_values(answers)
    }

    /// Decides what follows `event` while a state is being restored, with a state
    /// of the controller's own where `has_controller_state` says so.
    pub fn load_vst3_preset_state(
        has_controller_state: bool,
        not_implemented: i32,
        event: PresetEvent,
    ) -> (next: Result<PresetAction, Error>)
        ensures
            match next {
                Ok(action) => preset_step(has_controller_state, not_implemented, event) == Ok::<
                    PresetAction,
                    ErrorView,
                >(action),
                Err(e) => preset_step(has_controller_state, not_implemented, event) == Err::<
                    PresetAction,
                    ErrorView,
                >(e@),
            },
    {
        match event {
            PresetEvent::ComponentSet(status) => {
                if status == RESULT_OK {
                    Ok(PresetAction::TellController)
                } else {
                    Err(Error::Other(with_status("IComponent::setState returned ", status)))
                }
            },
            PresetEvent::ControllerTold(status) => {
                if status != RESULT_OK && status != not_implemented {
                    Err(
                        Error::Other(
                            with_status("IEditController::setComponentState returned ", status),
                        ),
                    )
                } else if has_controller_state {
                    Ok(PresetAction::SetController)
                } else {
                    Ok(PresetAction::QueueChangedValues)
                }
            },
            PresetEvent::ControllerSet(status) => {
                if status == RESULT_OK || status == not_implemented {
                    Ok(PresetAction::QueueChangedValues)
                } else {
                    Err(Error::Other(with_status("IEditController::setState returned ", status)))
                }
            },
        }
    }

    /// The state that a component wrote, where it says that it did.
    pub fn save_answered(status: i32, bytes: Vec<u8>) -> (result: Result<Vec<u8>, Error>)
        ensures
            match result {
                Ok(b) => status == RESULT_OK && b == bytes,
                Err(e) => status != RESULT_OK && e@ == ErrorView::Other(
                    "IComponent::getState returned "@ + text::signed_decimal(status as int),
                ),
            },
    {
        if status == RESULT_OK {
            Ok(bytes)
        } else {
            Err(Error::Other(with_status("IComponent::getState returned ", status)))
        }
    }

    // -- activation ----------------------------------------------------------

    /// What is handed to the plugin before it becomes active with `layout`.
    #[must_use]
    pub fn activation_setup(layout: &BusLayout, max_block_size: usize) -> (setup: ActivationSetup)
        requires
            bus::total_channels(layout@.inputs) <= u32::MAX,
            bus::total_channels(layout@.outputs) <= u32::MAX,
        ensures
            setup.input_arrangement == arrangement_of(
                bus::total_channels(layout@.inputs) as u32,
            ),
            setup.output_arrangement == arrangement_of(
                bus::total_channels(layout@.outputs) as u32,
            ),
            setup.max_samples == at_most_i32(max_block_size as nat),
    {
        let ins: u32 = layout.total_input_channels();
        let outs: u32 = layout.total_output_channels();
        ActivationSetup {
            input_arrangement: if ins == 0 {
                None
            } else {
                Some(speaker_arrangement_for_channels(ins))
            },
            output_arrangement: if outs == 0 {
                None
            } else {
                Some(speaker_arrangement_for_channels(outs))
            },
            max_samples: saturate_i32(max_block_size),
        }
    }

    /// Decides what follows `event` while the plugin is being activated with
    /// `layout`. It is active once it was told to process.
    pub fn activate_step(&mut self, layout: &BusLayout, event: ActivateEvent) -> (next: Result<
        ActivateAction,
        ActivateFailure,
    >)
        ensures
            match event {
                ActivateEvent::SetUp(status) => *final(self) == *old(self) && (match next {
                    Ok(action) => status == RESULT_OK && action == ActivateAction::Activate,
                    Err(f) => status != RESULT_OK && !f.set_inactive && !f.deactivate_buses
                        && f.error@ == ErrorView::Other(
                        "IAudioProcessor::setupProcessing failed"@,
                    ),
                }),
                ActivateEvent::SetActive(status) => *final(self) == *old(self) && (match next {
                    Ok(action) => status == RESULT_OK && action == ActivateAction::Process,
                    Err(f) => status != RESULT_OK && !f.set_inactive && f.deactivate_buses
                        && f.error@ == ErrorView::Other("IComponent::setActive(true) failed"@),
                }),
                ActivateEvent::SetProcessing(status) => match next {
                    Ok(action) => status == RESULT_OK && action == ActivateAction::Done
                        && final(self).processing && final(self).active_layout is Some
                        && final(self).active_layout->0@ == layout@ && *final(self) == (
                    Vst3Plugin {
                        processing: true,
                        active_layout: final(self).active_layout,
                        ..*old(self)
                    }),
                    Err(f) => status != RESULT_OK && *final(self) == *old(self)
                        && f.set_inactive && f.deactivate_buses && f.error@ == ErrorView::Other(
                        "IAudioProcessor::setProcessing(true) failed"@,
                    ),
                },
            },
    {
        match event {
            ActivateEvent::SetUp(status) => {
                if status == RESULT_OK {
                    Ok(ActivateAction::Activate)
                } else {
                    Err(
                        ActivateFailure {
                            error: Error::other("IAudioProcessor::setupProcessing failed"),
                            set_inactive: false,
                            deactivate_buses: false,
                        },
                    )
                }
            },
            ActivateEvent::SetActive(status) => {
                if status == RESULT_OK {
                    Ok(ActivateAction::Process)
                } else {
                    Err(
                        ActivateFailure {
                            error: Error::other("IComponent::setActive(true) failed"),
                            set_inactive: false,
                            deactivate_buses: true,
                        },
                    )
                }
            },
            ActivateEvent::SetProcessing(status) => {
                if status == RESULT_OK {
                    self.processing = true;
                    self.active_layout = Some(layout.clone());
                    Ok(ActivateAction::Done)
                } else {
                    Err(
                        ActivateFailure {
                            error: Error::other("IAudioProcessor::setProcessing(true) failed"),
                            set_inactive: true,
                            deactivate_buses: true,
                        },
                    )
                }
            },
        }
    }

    /// The plugin once it was made inactive.
    pub open spec fn inactive(self) -> Vst3Plugin {
        Vst3Plugin { processing: false, active_layout: None, ..self }
    }

    /// What is to be called when the plugin becomes inactive.
    pub open spec fn deactivation(self) -> Teardown {
        Teardown {
            stop_processing: self.processing,
            set_inactive: self.active_layout is Some,
            deactivate_buses: true,
            disconnect: false,
            terminate_controller: false,
            terminate_component: false,
        }
    }

    /// What is to be called before the plugin goes away.
    pub open spec fn farewell(self) -> Teardown {
        Teardown {
            stop_processing: self.processing,
            set_inactive: self.active_layout is Some,
            deactivate_buses: false,
            disconnect: self.connected,
            terminate_controller: self.separate_controller,
            terminate_component: true,
        }
    }

    /// Makes the plugin inactive and tells what is to be called.
    pub fn deactivate(&mut self) -> (plan: Teardown)
        ensures
            plan == old(self).deactivation(),
            *final(self) == old(self).inactive(),
    {
        let plan = Teardown {
            stop_processing: self.processing,
            set_inactive: self.active_layout.is_some(),
            deactivate_buses: true,
            disconnect: false,
            terminate_controller: false,
            terminate_component: false,
        };
        self.processing = false;
        self.active_layout = None;
        plan
    }

    /// What is to be called before the plugin goes away.
    #[must_use]
    pub fn teardown(&self) -> (plan: Teardown)
        ensures
            plan == self.farewell(),
    {
        Teardown {
            stop_processing: self.processing,
            set_inactive: self.active_layout.is_some(),
            deactivate_buses: false,
            disconnect: self.connected,
            terminate_controller: self.separate_controller,
            terminate_component: true,
        }
    }
}

// ---------------------------------------------------------------------------
// Processing
// ---------------------------------------------------------------------------

/// What a block hands to the plugin.
pub struct BlockInput {
    /// Parameter changes.
    pub changes: ParameterChanges,
    /// Notes and key pressure.
    pub events: EventBuffer,
}

/// Queued parameter changes as points at the start of a block.
pub open spec fn pending_points(pending: Seq<(u32, u64)>) -> Seq<(u32, Point)> {
    Seq::new(pending.len(), |i: int| (pending[i].0, (0i32, Amount::Bits(pending[i].1))))
}

/// The points of the events that are controller changes of parameters that the
/// plugin assigned to them.
pub open spec fn controller_points(events: Seq<Event>, assigned: Seq<Option<u32>>) -> Seq<
    (u32, Point),
>
    decreases events.len(),
{
    if events.len() == 0 {
        Seq::empty()
    } else {
        let before = controller_points(events.drop_last(), assigned.drop_last());
        match (events::controller_change(events.last()), assigned.last()) {
            (Some(change), Some(id)) => before.push(
                (id, (events::offset_of(events.last().sample_offset), change.value)),
            ),
            _ => before,
        }
    }
}

/// The events that travel as events.
pub open spec fn note_events(events: Seq<Event>) -> Seq<Vst3Event>
    decreases events.len(),
{
    if events.len() == 0 {
        Seq::empty()
    } else {
        match events::to_vst3(events.last()) {
            Some(e) => note_events(events.drop_last()).push(e),
            None => note_events(events.drop_last()),
        }
    }
}

/// The counts that VST3 wants of one block.
#[derive(Clone, Copy, Debug, PartialEq, Eq, Structural)]
pub struct BlockCounts {
    /// Frames.
    pub frames: i32,
    /// Channels of the input bus.
    pub input_channels: i32,
    /// Channels of the output bus.
    pub output_channels: i32,
    /// Input buses: none where there are no channels.
    pub inputs: i32,
    /// Output buses: none where there are no channels.
    pub outputs: i32,
}

/// `n` as VST3 counts, or 0 where it does not fit.
pub open spec fn i32_or_zero(n: nat) -> i32 {
    if n <= i32::MAX {
        n as i32
    } else {
        0
    }
}

/// The counts of a block of `frames` frames with these channels.
pub open spec fn counts_of(frames: nat, ins: nat, outs: nat) -> BlockCounts {
    BlockCounts {
        frames: at_most_i32(frames),
        input_channels: i32_or_zero(ins),
        output_channels: i32_or_zero(outs),
        inputs: if ins > 0 {
            1
        } else {
            0
        },
        outputs: if outs > 0 {
            1
        } else {
            0
        },
    }
}

/// The counts of a block of `frames` frames with these channels.
#[must_use]
pub fn block_counts(frames: usize, ins: usize, outs: usize) -> (counts: BlockCounts)
    ensures
        counts == counts_of(frames as nat, ins as nat, outs as nat),
{
    BlockCounts {
        frames: saturate_i32(frames),
        input_channels: if ins as u64 <= 0x7FFF_FFFF {
            ins as i32
        } else {
            0
        },
        output_channels: if outs as u64 <= 0x7FFF_FFFF {
            outs as i32
        } else {
            0
        },
        inputs: if ins > 0 {
            1
        } else {
            0
        },
        outputs: if outs > 0 {
            1
        } else {
            0
        },
    }
}

impl Vst3Plugin {
    /// What a block with `events` hands to the plugin: the queued parameter
    /// changes, which are queued no longer, then the controller changes of
    /// assigned parameters, and the notes. `assigned` holds for each event the
    /// parameter that the plugin assigned to it, where it is a controller change
    /// and the plugin assigned one. The block starts with no events in `output`.
    pub fn begin_process(
        &mut self,
        events: &EventList,
        assigned: &[Option<u32>],
        output: &mut EventList,
    ) -> (result: Result<BlockInput, Error>)
        requires
            assigned@.len() == events@.len(),
        ensures
            match result {
                Ok(input) => old(self).active_layout is Some && input.changes@
                    == events::after_pushes(
                    pending_points(old(self).pending@) + controller_points(events@, assigned@),
                ) && events::one_queue_each(input.changes@) && input.events.events@ == note_events(
                    events@,
                ) && final(self).pending@ == Seq::<(u32, u64)>::empty() && *final(self) == (
                Vst3Plugin { pending: final(self).pending, ..*old(self) }) && final(output)@
                    == Seq::<Event>::empty(),
                Err(e) => old(self).active_layout is None && *final(self) == *old(self) && e@
                    == ErrorView::NotActivated && final(output)@ == old(output)@,
            },
    {
        if !self.is_active() {
            return Err(Error::NotActivated);
        }
        output.clear();
        let mut changes = ParameterChanges::new();
        let mut notes = EventBuffer::new();
        self.drain_pending(&mut changes);
        let ghost first = pending_points(old(self).pending@);
        let list = events.as_slice();
        let mut i: usize = 0;
        assert(first + controller_points(list@.take(0), assigned@.take(0)) =~= first);
        while i < list.len()
            invariant
                i <= list.len(),
                list@ == events@,
                assigned@.len() == list@.len(),
                events::one_queue_each(changes@),
                changes@ == events::after_pushes(
                    first + controller_points(list@.take(i as int), assigned@.take(i as int)),
                ),
                notes.events@ == note_events(list@.take(i as int)),
            decreases list.len() - i,
        {
            let ghost done = first + controller_points(list@.take(i as int), assigned@.take(i as int));
            proof {
                assert(list@.take(i + 1).drop_last() =~= list@.take(i as int));
                assert(assigned@.take(i + 1).drop_last() =~= assigned@.take(i as int));
                assert(list@.take(i + 1).last() == list@[i as int]);
                assert(assigned@.take(i + 1).last() == assigned@[i as int]);
            }
            let event = &list[i];
            match midi_controller_assignment(event) {
                Some(change) => {
                    proof {
                        events::events_travel_one_way(*event);
                    }
                    if let Some(id) = assigned[i] {
                        let offset: i32 = to_offset(event.sample_offset);
                        changes.push_point(id, offset, change.value);
                        proof {
                            let point = (id, (offset, change.value));
                            let all = first + controller_points(
                                list@.take(i + 1),
                                assigned@.take(i + 1),
                            );
                            assert(all =~= done.push(point));
                            assert(all.drop_last() =~= done);
                        }
                    }
                },
                None => {
                    notes.push_rack(event);
                },
            }
            i += 1;
        }
        assert(list@.take(i as int) =~= events@);
        assert(assigned@.take(i as int) =~= assigned@);
        Ok(BlockInput { changes, events: notes })
    }

    /// Moves the queued parameter changes to `changes`, which are empty.
    fn drain_pending(&mut self, changes: &mut ParameterChanges)
        requires
            old(changes)@ == Seq::<events::QueueView>::empty(),
        ensures
            final(changes)@ == events::after_pushes(pending_points(old(self).pending@)),
            events::one_queue_each(final(changes)@),
            final(self).pending@ == Seq::<(u32, u64)>::empty(),
            *final(self) == (Vst3Plugin { pending: final(self).pending, ..*old(self) }),
    {
        let ghost points = pending_points(self.pending@);
        let mut i: usize = 0;
        while i < self.pending.len()
            invariant
                i <= self.pending.len(),
                *self == *old(self),
                points == pending_points(self.pending@),
                events::one_queue_each(changes@),
                changes@ == events::after_pushes(points.take(i as int)),
            decreases self.pending.len() - i,
        {
            let (id, bits) = self.pending[i];
            changes.push_point(id, 0, Amount::Bits(bits));
            proof {
                assert(points.take(i + 1).drop_last() =~= points.take(i as int));
                assert(points.take(i + 1).last() == points[i as int]);
            }
            i += 1;
        }
        assert(points.take(i as int) =~= points);
        self.pending.clear();
    }

    /// Takes the plugin's status after a block and, where it succeeded, the
    /// events that it sent.
    pub fn end_process(status: i32, sent: &[Vst3Event], out: &mut EventList) -> (result:
        ProcessStatus)
        ensures
            status == RESULT_OK ==> result == ProcessStatus::Continue && final(out)@ == old(out)@
                + events::all_from_vst3(sent@),
            status != RESULT_OK ==> result == ProcessStatus::Error && final(out)@ == old(out)@,
    {
        if status == RESULT_OK {
            drain_vst3_output_events(sent, out);
            ProcessStatus::Continue
        } else {
            ProcessStatus::Error
        }
    }
}

/// A parameter that was set before a block reaches the processor at the start of
/// the block, before any controller change of it.
pub proof fn set_parameters_come_first(
    pending: Seq<(u32, u64)>,
    points: Seq<(u32, Point)>,
    id: u32,
)
    ensures
        events::points_of(events::after_pushes(pending_points(pending) + points), id)
            == events::pushed_for(pending_points(pending), id) + events::pushed_for(points, id),
{
    events::queues_hold_what_was_pushed(pending_points(pending) + points, id);
    pushed_for_adds(pending_points(pending), points, id);
}

/// Whether points come in the order of their offsets.
pub open spec fn in_offset_order(points: Seq<Point>) -> bool {
    forall|i: int, j: int| 0 <= i <= j < points.len() ==> points[i].0 <= points[j].0
}

/// Where the events of a block come in the order of their sample offsets, the
/// points of every parameter do so too.
pub proof fn queues_are_in_offset_order(
    pending: Seq<(u32, u64)>,
    events: Seq<Event>,
    assigned: Seq<Option<u32>>,
    id: u32,
)
    requires
        crate::events::in_sample_order(events),
        assigned.len() == events.len(),
    ensures
        in_offset_order(
            events::points_of(
                events::after_pushes(pending_points(pending) + controller_points(events, assigned)),
                id,
            ),
        ),
{
    let first = pending_points(pending);
    let later = controller_points(events, assigned);
    set_parameters_come_first(pending, later, id);
    pending_points_start(pending, id);
    controller_points_in_order(events, assigned, id);
    let a = events::pushed_for(first, id);
    let b = events::pushed_for(later, id);
    assert forall|i: int, j: int| 0 <= i <= j < (a + b).len() implies (a + b)[i].0 <= (a
        + b)[j].0 by {
        if j < a.len() {
            assert(a[i].0 == 0 && a[j].0 == 0);
        } else if i < a.len() {
            assert(a[i].0 == 0 && b[j - a.len()].0 >= 0);
        } else {
            assert(b[i - a.len()].0 <= b[j - a.len()].0);
        }
    }
}

/// Queued changes come at the start of the block.
proof fn pending_points_start(pending: Seq<(u32, u64)>, id: u32)
    ensures
        forall|i: int|
            0 <= i < events::pushed_for(pending_points(pending), id).len() ==> (
            #[trigger] events::pushed_for(pending_points(pending), id)[i]).0 == 0,
    decreases pending.len(),
{
    if pending.len() > 0 {
        pending_points_start(pending.drop_last(), id);
        assert(pending_points(pending).drop_last() =~= pending_points(pending.drop_last()));
        let before = events::pushed_for(pending_points(pending.drop_last()), id);
        let all = events::pushed_for(pending_points(pending), id);
        assert forall|i: int| 0 <= i < all.len() implies (#[trigger] all[i]).0 == 0 by {
            if i < before.len() {
                assert(all[i] == before[i]);
            } else {
                assert(all[i] == pending_points(pending).last().1);
            }
        }
    }
}

/// The points of controller changes come in the order of the events, none of them
/// after the offset of the last event.
proof fn controller_points_in_order(events: Seq<Event>, assigned: Seq<Option<u32>>, id: u32)
    requires
        crate::events::in_sample_order(events),
        assigned.len() == events.len(),
    ensures
        ({
            let points = events::pushed_for(controller_points(events, assigned), id);
            &&& in_offset_order(points)
            &&& forall|i: int|
                0 <= i < points.len() ==> 0 <= (#[trigger] points[i]).0 <= events::offset_of(
                    events.last().sample_offset,
                )
        }),
    decreases events.len(),
{
    if events.len() > 0 {
        let earlier = events.drop_last();
        assert(crate::events::in_sample_order(earlier));
        controller_points_in_order(earlier, assigned.drop_last(), id);
        let before = controller_points(earlier, assigned.drop_last());
        let all = controller_points(events, assigned);
        if earlier.len() > 0 {
            assert(earlier.last().sample_offset <= events.last().sample_offset) by {
                assert(earlier.last() == events[events.len() - 2]);
            }
        } else {
            assert(before.len() == 0);
        }
        if all.len() > before.len() {
            assert(all.drop_last() =~= before);
        }
    }
}

/// What is pushed in two runs is pushed in one.
proof fn pushed_for_adds(a: Seq<(u32, Point)>, b: Seq<(u32, Point)>, id: u32)
    ensures
        events::pushed_for(a + b, id) == events::pushed_for(a, id) + events::pushed_for(b, id),
    decreases b.len(),
{
    if b.len() == 0 {
        assert(a + b =~= a);
        assert(events::pushed_for(a, id) + events::pushed_for(b, id) =~= events::pushed_for(a, id));
    } else {
        pushed_for_adds(a, b.drop_last(), id);
        assert((a + b).drop_last() =~= a + b.drop_last());
        assert((a + b).last() == b.last());
        assert(events::pushed_for(a + b, id) =~= events::pushed_for(a, id) + events::pushed_for(
            b,
            id,
        ));
    }
}

// ---------------------------------------------------------------------------
// The editor
// ---------------------------------------------------------------------------

/// What happened while the editor is being opened.
#[derive(Clone, Copy, Debug, PartialEq, Eq, Structural)]
pub enum OpenEvent {
    /// The host asks for it to be opened.
    Start,
    /// A view was created, or not.
    ViewCreated(bool),
    /// The view answered whether it supports the platform.
    PlatformSupported(i32),
    /// The view was attached to its parent window.
    Attached(i32),
}

/// What to do next.
#[derive(Clone, Copy, Debug, PartialEq, Eq, Structural)]
pub enum OpenAction {
    /// Create a view.
    CreateView,
    /// Ask the view whether it supports the platform.
    AskPlatform,
    /// Attach the view to its parent window.
    Attach,
    /// Nothing: it is open.
    Done,
}

/// What follows `event` while the editor is being opened.
pub open spec fn open_step_spec(editor_open: bool, event: OpenEvent) -> Result<
    OpenAction,
    ErrorView,
> {
    match event {
        OpenEvent::Start => if editor_open {
            Ok(OpenAction::Done)
        } else {
            Ok(OpenAction::CreateView)
        },
        OpenEvent::ViewCreated(ok) => if ok {
            Ok(OpenAction::AskPlatform)
        } else {
            Err(ErrorView::Other("IEditController::createView returned NULL"@))
        },
        OpenEvent::PlatformSupported(status) => if status == RESULT_OK {
            Ok(OpenAction::Attach)
        } else {
            Err(ErrorView::Other("IPlugView::isPlatformTypeSupported returned false"@))
        },
        OpenEvent::Attached(status) => if status == RESULT_OK {
            Ok(OpenAction::Done)
        } else {
            Err(ErrorView::Other("IPlugView::attached returned non-OK"@))
        },
    }
}

/// A rectangle.
#[derive(Clone, Copy, Debug, PartialEq, Eq, Structural)]
pub struct ViewRect {
    /// Left edge.
    pub left: i32,
    /// Upper edge.
    pub top: i32,
    /// Right edge.
    pub right: i32,
    /// Lower edge.
    pub bottom: i32,
}

/// The size of a rectangle, where neither side is negative.
pub open spec fn rect_size(r: ViewRect) -> Option<(u32, u32)> {
    if r.right >= r.left && r.bottom >= r.top {
        Some(((r.right - r.left) as u32, (r.bottom - r.top) as u32))
    } else {
        None
    }
}

/// The size that a view reports, where its call succeeded.
#[must_use]
pub fn view_size(status: i32, rect: ViewRect) -> (size: Option<(u32, u32)>)
    requires
        i32::MIN <= rect.right - rect.left <= i32::MAX,
        i32::MIN <= rect.bottom - rect.top <= i32::MAX,
    ensures
        size == (if status == RESULT_OK {
            rect_size(rect)
        } else {
            None
        }),
{
    if status != RESULT_OK {
        return None;
    }
    let w: i32 = rect.right - rect.left;
    let h: i32 = rect.bottom - rect.top;
    if w < 0 || h < 0 {
        return None;
    }
    Some((w as u32, h as u32))
}

/// The rectangle of this size, where VST3 can state it.
pub open spec fn rect_of(width: u32, height: u32) -> Option<ViewRect> {
    if width <= i32::MAX && height <= i32::MAX {
        Some(ViewRect { left: 0, top: 0, right: width as i32, bottom: height as i32 })
    } else {
        None
    }
}

/// The rectangle of this size, where VST3 can state it.
#[must_use]
pub fn rect_of_size(width: u32, height: u32) -> (rect: Option<ViewRect>)
    ensures
        rect == rect_of(width, height),
{
    if width <= 0x7FFF_FFFF && height <= 0x7FFF_FFFF {
        Some(ViewRect { left: 0, top: 0, right: width as i32, bottom: height as i32 })
    } else {
        None
    }
}

/// A size that a view takes as it is comes back as it was asked for.
pub proof fn sizes_round_trip(width: u32, height: u32)
    requires
        width <= i32::MAX,
        height <= i32::MAX,
    ensures
        rect_size(
            ViewRect { left: 0, top: 0, right: width as i32, bottom: height as i32 },
        ) == Some((width, height)),
{
}

impl Vst3Plugin {
    /// Decides what follows `event` while the editor is being opened. Once it
    /// was attached, the view is kept and the editor is open.
    pub fn open_step(&mut self, event: OpenEvent) -> (result: Result<OpenAction, Error>)
        ensures
            match result {
                Ok(action) => open_step_spec(old(self).editor_open, event) == Ok::<
                    OpenAction,
                    ErrorView,
                >(action),
                Err(e) => open_step_spec(old(self).editor_open, event) == Err::<
                    OpenAction,
                    ErrorView,
                >(e@),
            },
            *final(self) == (if event == OpenEvent::Attached(RESULT_OK) {
                Vst3Plugin { has_view: true, editor_open: true, ..*old(self) }
            } else {
                *old(self)
            }),
    {
        match event {
            OpenEvent::Start => {
                if self.editor_open {
                    Ok(OpenAction::Done)
                } else {
                    Ok(OpenAction::CreateView)
                }
            },
            OpenEvent::ViewCreated(ok) => {
                if ok {
                    Ok(OpenAction::AskPlatform)
                } else {
                    Err(Error::other("IEditController::createView returned NULL"))
                }
            },
            OpenEvent::PlatformSupported(status) => {
                if status == RESULT_OK {
                    Ok(OpenAction::Attach)
                } else {
                    Err(Error::other("IPlugView::isPlatformTypeSupported returned false"))
                }
            },
            OpenEvent::Attached(status) => {
                if status == RESULT_OK {
                    self.has_view = true;
                    self.editor_open = true;
                    Ok(OpenAction::Done)
                } else {
                    Err(Error::other("IPlugView::attached returned non-OK"))
                }
            },
        }
    }

    /// Closes the editor and tells whether there is a view to remove.
    pub fn close_editor(&mut self) -> (remove: bool)
        ensures
            remove == old(self).has_view,
            *final(self) == (Vst3Plugin { has_view: false, editor_open: false, ..*old(self) }),
    {
        let remove: bool = self.has_view;
        self.has_view = false;
        self.editor_open = false;
        remove
    }
}

// ---------------------------------------------------------------------------
// Transport
// ---------------------------------------------------------------------------

/// What the host reports of its transport, without the numbers that are no
/// whole ones.
#[derive(Clone, Copy, Debug, PartialEq, Eq)]
pub struct TransportFacts {
    /// Whether the tempo is reported.
    pub has_tempo: bool,
    /// Whether the position in beats is reported.
    pub has_beats: bool,
    /// Whether the start of the bar is reported.
    pub has_bar: bool,
    /// The position in samples, where reported.
    pub samples: Option<i64>,
    /// The time signature, where reported.
    pub time_signature: Option<(u32, u32)>,
    /// Whether the host plays.
    pub playing: bool,
    /// Whether the host records.
    pub recording: bool,
    /// Whether the host loops.
    pub loop_active: bool,
}

/// The whole numbers of a process context.
#[derive(Clone, Copy, Debug, PartialEq, Eq, Structural)]
pub struct ContextHeader {
    /// Which fields are valid, and what the host does.
    pub state: u32,
    /// Position in samples, or 0.
    pub samples: i64,
    /// Numerator, or 0.
    pub numerator: i32,
    /// Denominator, or 0.
    pub denominator: i32,
}

/// The host plays.
pub const STATE_PLAYING: u32 = 2;

/// The host loops.
pub const STATE_CYCLE_ACTIVE: u32 = 4;

/// The host records.
pub const STATE_RECORDING: u32 = 8;

/// The position in beats is valid.
pub const STATE_PROJECT_TIME_MUSIC_VALID: u32 = 512;

/// The tempo is valid.
pub const STATE_TEMPO_VALID: u32 = 1024;

/// The start of the bar is valid.
pub const STATE_BAR_POSITION_VALID: u32 = 2048;

/// The time signature is valid.
pub const STATE_TIME_SIG_VALID: u32 = 8192;

/// The state that reports `t`.
pub open spec fn context_state(t: TransportFacts) -> int {
    host::flag(t.playing, STATE_PLAYING as int) + host::flag(
        t.loop_active,
        STATE_CYCLE_ACTIVE as int,
    ) + host::flag(t.recording, STATE_RECORDING as int) + host::flag(
        t.has_beats,
        STATE_PROJECT_TIME_MUSIC_VALID as int,
    ) + host::flag(t.has_tempo, STATE_TEMPO_VALID as int) + host::flag(
        t.has_bar,
        STATE_BAR_POSITION_VALID as int,
    ) + host::flag(t.time_signature is Some, STATE_TIME_SIG_VALID as int)
}

/// A number of a time signature as VST3 counts; 4 where it does not fit.
pub open spec fn signature_part(n: u32) -> int {
    if n <= i32::MAX {
        n as int
    } else {
        4
    }
}

fn to_signature_part(n: u32) -> (out: i32)
    ensures
        out == signature_part(n),
{
    if n <= 0x7FFF_FFFF {
        n as i32
    } else {
        4
    }
}

/// The whole numbers of the process context that reports `t`.
pub open spec fn context_of(t: TransportFacts) -> ContextHeader {
    ContextHeader {
        state: context_state(t) as u32,
        samples: match t.samples {
            Some(samples) => samples,
            None => 0,
        },
        numerator: (match t.time_signature {
            Some((n, d)) => signature_part(n),
            None => 0,
        }) as i32,
        denominator: (match t.time_signature {
            Some((n, d)) => signature_part(d),
            None => 0,
        }) as i32,
    }
}

/// The whole numbers of the process context that reports `t`.
#[must_use]
pub fn build_vst3_context(t: &TransportFacts) -> (header: ContextHeader)
    ensures
        header == context_of(*t),
        header.state == context_state(*t),
{
    let mut state: u32 = 0;
    if t.has_tempo {
        state += STATE_TEMPO_VALID;
    }
    let mut numerator: i32 = 0;
    let mut denominator: i32 = 0;
    if let Some((n, d)) = t.time_signature {
        numerator = to_signature_part(n);
        denominator = to_signature_part(d);
        state += STATE_TIME_SIG_VALID;
    }
    if t.has_beats {
        state += STATE_PROJECT_TIME_MUSIC_VALID;
    }
    let samples: i64 = match t.samples {
        Some(samples) => samples,
        None => 0,
    };
    if t.has_bar {
        state += STATE_BAR_POSITION_VALID;
    }
    if t.playing {
        state += STATE_PLAYING;
    }
    if t.recording {
        state += STATE_RECORDING;
    }
    if t.loop_active {
        state += STATE_CYCLE_ACTIVE;
    }
    ContextHeader { state, samples, numerator, denominator }
}

// ---------------------------------------------------------------------------
// What steps and reports mean
// ---------------------------------------------------------------------------

/// The place of an action in loading. A separate controller and a component that is
/// its own controller take the same place.
pub open spec fn load_stage(action: LoadAction) -> int {
    match action {
        LoadAction::GetFactory => 1,
        LoadAction::MakeHostContext => 2,
        LoadAction::CreateComponent => 3,
        LoadAction::InitializeComponent => 4,
        LoadAction::FindProcessor => 5,
        LoadAction::FindControllerClass => 6,
        LoadAction::CreateController => 7,
        LoadAction::InitializeController => 8,
        LoadAction::FindController => 8,
        LoadAction::GetHandler => 9,
        LoadAction::SetHandler => 10,
        LoadAction::Finish => 11,
    }
}

/// The place in loading of the action that an event reports on.
pub open spec fn load_reported(event: LoadEvent) -> int {
    match event {
        LoadEvent::ModuleOpened => 0,
        LoadEvent::ModuleFailed(_) => 0,
        LoadEvent::BundleFailed(_) => 0,
        LoadEvent::FactoryMissing(_) => 1,
        LoadEvent::FactoryMissingInBundle => 1,
        LoadEvent::Factory { .. } => 1,
        LoadEvent::HostApplication(_) => 2,
        LoadEvent::ComponentCreated(_) => 3,
        LoadEvent::ComponentInitialized(_) => 4,
        LoadEvent::ProcessorFound(_) => 5,
        LoadEvent::ControllerClass(_) => 6,
        LoadEvent::ControllerCreated(_) => 7,
        LoadEvent::ControllerInitialized(_) => 8,
        LoadEvent::ControllerFound(_) => 8,
        LoadEvent::ComponentHandler(_) => 9,
        LoadEvent::HandlerSet(_) => 10,
    }
}

/// Whether an event reports a success: a status of 0, and for the handler also that
/// the controller takes none.
pub open spec fn load_succeeded(not_implemented: i32, event: LoadEvent) -> bool {
    match event {
        LoadEvent::ModuleOpened => true,
        LoadEvent::ModuleFailed(_) => false,
        LoadEvent::BundleFailed(_) => false,
        LoadEvent::FactoryMissing(_) => false,
        LoadEvent::FactoryMissingInBundle => false,
        LoadEvent::Factory { is_null, .. } => !is_null,
        LoadEvent::HostApplication(ok) => ok,
        LoadEvent::ComponentCreated(ok) => ok,
        LoadEvent::ComponentInitialized(status) => status == 0,
        LoadEvent::ProcessorFound(ok) => ok,
        LoadEvent::ControllerClass(_) => true,
        LoadEvent::ControllerCreated(ok) => ok,
        LoadEvent::ControllerInitialized(status) => status == 0,
        LoadEvent::ControllerFound(ok) => ok,
        LoadEvent::ComponentHandler(ok) => ok,
        LoadEvent::HandlerSet(status) => status == 0 || status == not_implemented,
    }
}

/// Loading takes one step after the other: a success leads to the next one, and
/// anything else ends it. A component without a separate controller skips the
/// creation of one.
pub proof fn loading_takes_its_steps_in_order(path: Seq<char>, not_implemented: i32, event: LoadEvent)
    ensures
        load_step_spec(path, not_implemented, event) is Ok <==> load_succeeded(
            not_implemented,
            event,
        ),
        load_step_spec(path, not_implemented, event) matches Ok(action) ==> load_stage(action)
            == load_reported(event) + (if action == LoadAction::FindController {
            2int
        } else {
            1
        }),
        load_step_spec(path, not_implemented, event) matches Err(e) ==> (match e {
            ErrorView::LoadFailed { path: named, .. } => named == path || named.len() == 0
                && load_reported(event) == 1,
            ErrorView::Other(_) => load_reported(event) == 2 || load_reported(event) == 9,
            _ => false,
        }),
{
}

/// The place of an action in opening the editor.
pub open spec fn open_stage(action: OpenAction) -> int {
    match action {
        OpenAction::CreateView => 1,
        OpenAction::AskPlatform => 2,
        OpenAction::Attach => 3,
        OpenAction::Done => 4,
    }
}

/// Opening the editor takes one step after the other, or none where it is open, and
/// goes wrong just where a step fails.
pub proof fn opening_takes_its_steps_in_order(editor_open: bool, event: OpenEvent)
    ensures
        match open_step_spec(editor_open, event) {
            Ok(action) => match event {
                OpenEvent::Start => open_stage(action) == if editor_open {
                    4int
                } else {
                    1
                },
                OpenEvent::ViewCreated(ok) => ok && open_stage(action) == 2,
                OpenEvent::PlatformSupported(status) => status == 0 && open_stage(action) == 3,
                OpenEvent::Attached(status) => status == 0 && open_stage(action) == 4,
            },
            Err(_) => match event {
                OpenEvent::Start => false,
                OpenEvent::ViewCreated(ok) => !ok,
                OpenEvent::PlatformSupported(status) => status != 0,
                OpenEvent::Attached(status) => status != 0,
            },
        },
{
}

/// Restoring a state goes on from the component to the controller and to the values,
/// as long as each takes its state; a controller may also take none, a component may
/// not.
pub proof fn presets_go_on_while_they_are_taken(
    has_controller_state: bool,
    not_implemented: i32,
    status: i32,
)
    ensures
        preset_step(has_controller_state, not_implemented, PresetEvent::ComponentSet(status)) == Ok::<
            PresetAction,
            ErrorView,
        >(PresetAction::TellController) <==> status == 0,
        preset_step(has_controller_state, not_implemented, PresetEvent::ControllerTold(status)) is Ok
            <==> status == 0 || status == not_implemented,
        preset_step(has_controller_state, not_implemented, PresetEvent::ControllerTold(0)) == Ok::<
            PresetAction,
            ErrorView,
        >(
            if has_controller_state {
                PresetAction::SetController
            } else {
                PresetAction::QueueChangedValues
            },
        ),
        preset_step(has_controller_state, not_implemented, PresetEvent::ControllerSet(status)) == Ok::<
            PresetAction,
            ErrorView,
        >(PresetAction::QueueChangedValues) <==> status == 0 || status == not_implemented,
        preset_step(has_controller_state, not_implemented, PresetEvent::ComponentSet(status)) is Ok
            <==> status == 0,
{
}

/// Each thing that the host reports of its transport sets its own bit of VST3's state
/// and no other, and positions and the time signature travel as they are.
pub proof fn contexts_are_those_of_vst3(t: TransportFacts)
    ensures
        ({
            let h = context_of(t);
            &&& (h.state & 2 == 2) == t.playing
            &&& (h.state & 4 == 4) == t.loop_active
            &&& (h.state & 8 == 8) == t.recording
            &&& (h.state & 512 == 512) == t.has_beats
            &&& (h.state & 1024 == 1024) == t.has_tempo
            &&& (h.state & 2048 == 2048) == t.has_bar
            &&& (h.state & 8192 == 8192) == t.time_signature is Some
            &&& h.state & 0x2E0E == h.state
            &&& t.samples matches Some(samples) ==> h.samples == samples
            &&& t.samples is None ==> h.samples == 0
            &&& t.time_signature matches Some((n, d)) ==> {
                &&& n <= i32::MAX ==> h.numerator == n
                &&& d <= i32::MAX ==> h.denominator == d
                &&& n > i32::MAX ==> h.numerator == 4
                &&& d > i32::MAX ==> h.denominator == 4
            }
            &&& t.time_signature is None ==> h.numerator == 0 && h.denominator == 0
        }),
{
    let (a, b, c, d) = (t.playing, t.loop_active, t.recording, t.has_beats);
    let (e, f, g) = (t.has_tempo, t.has_bar, t.time_signature is Some);
    let state = context_of(t).state;
    assert((state & 2 == 2) == a && (state & 4 == 4) == b && (state & 8 == 8) == c && (state & 512
        == 512) == d && (state & 1024 == 1024) == e && (state & 2048 == 2048) == f && (state & 8192
        == 8192) == g && state & 0x2E0E == state) by (bit_vector)
        requires
            state == ((if a {
                2u32
            } else {
                0u32
            }) + (if b {
                4u32
            } else {
                0u32
            }) + (if c {
                8u32
            } else {
                0u32
            }) + (if d {
                512u32
            } else {
                0u32
            }) + (if e {
                1024u32
            } else {
                0u32
            }) + (if f {
                2048u32
            } else {
                0u32
            }) + (if g {
                8192u32
            } else {
                0u32
            })) as u32,
    ;
}

/// What a block has is counted as it is, as far as VST3 can count, and a direction
/// without channels has no bus.
pub proof fn blocks_are_counted(frames: nat, ins: nat, outs: nat)
    requires
        frames <= i32::MAX,
        ins <= i32::MAX,
        outs <= i32::MAX,
    ensures
        ({
            let c = counts_of(frames, ins, outs);
            &&& c.frames == frames
            &&& c.input_channels == ins
            &&& c.output_channels == outs
            &&& 0 <= c.inputs <= 1 && 0 <= c.outputs <= 1
            &&& c.inputs == 0 <==> ins == 0
            &&& c.outputs == 0 <==> outs == 0
        }),
        forall|n: nat| n >= frames ==> (#[trigger] counts_of(n, ins, outs)).frames >= frames,
{
}

/// A plugin that was made inactive is not made so again before it goes away, and what
/// is to be stopped is stopped once. Only what was made separate or connected is
/// undone, and the component always is.
pub proof fn nothing_is_stopped_twice(plugin: Vst3Plugin)
    ensures
        !plugin.inactive().farewell().stop_processing,
        !plugin.inactive().farewell().set_inactive,
        plugin.deactivation().stop_processing == plugin.processing,
        plugin.deactivation().set_inactive <==> plugin.active_layout is Some,
        plugin.deactivation().deactivate_buses,
        !plugin.deactivation().disconnect && !plugin.deactivation().terminate_controller
            && !plugin.deactivation().terminate_component,
        plugin.farewell().stop_processing == plugin.processing,
        plugin.farewell().set_inactive <==> plugin.active_layout is Some,
        !plugin.farewell().deactivate_buses,
        plugin.farewell().disconnect == plugin.connected,
        plugin.farewell().terminate_controller == plugin.separate_controller,
        plugin.farewell().terminate_component,
        plugin.inactive().pending == plugin.pending,
{
}

/// A rectangle that is asked for starts at the corner and has the size that was asked
/// for; there is one just where both sides can be stated. Where a rectangle stands
/// does not matter to its size.
pub proof fn rectangles_have_their_size(width: u32, height: u32, r: ViewRect, dx: int, dy: int)
    requires
        i32::MIN <= r.left + dx && r.left + dx <= i32::MAX,
        i32::MIN <= r.right + dx && r.right + dx <= i32::MAX,
        i32::MIN <= r.top + dy && r.top + dy <= i32::MAX,
        i32::MIN <= r.bottom + dy && r.bottom + dy <= i32::MAX,
    ensures
        rect_of(width, height) is Some <==> width < 0x8000_0000 && height < 0x8000_0000,
        rect_of(width, height) matches Some(rect) ==> rect.left == 0 && rect.top == 0 && rect_size(
            rect,
        ) == Some((width, height)),
        rect_size(r) == rect_size(
            ViewRect {
                left: (r.left + dx) as i32,
                right: (r.right + dx) as i32,
                top: (r.top + dy) as i32,
                bottom: (r.bottom + dy) as i32,
            },
        ),
        rect_size(r) is None <==> r.right < r.left || r.bottom < r.top,
{
}

/// A value is finite just where not all bits of its exponent are set.
pub proof fn finite_values_have_an_exponent(bits: u64)
    ensures
        is_finite(bits) <==> bits & 0x7FF0_0000_0000_0000 != 0x7FF0_0000_0000_0000,
{
    assert(((bits / 0x10_0000_0000_0000) % 0x800 != 0x7FF) == (bits & 0x7FF0_0000_0000_0000
        != 0x7FF0_0000_0000_0000)) by (bit_vector);
}

/// The parameter that the plugin does not describe is the first one: all before it
/// are described.
pub proof fn the_first_missing_is_the_first(answers: Seq<Option<(u32, u64)>>)
    ensures
        first_missing(answers) <= answers.len(),
        forall|i: int| 0 <= i < first_missing(answers) ==> (#[trigger] answers[i]) is Some,
        first_missing(answers) < answers.len() ==> answers[first_missing(answers) as int] is None,
    decreases answers.len(),
{
    if answers.len() > 0 && answers[0] is Some {
        let rest = answers.skip(1);
        the_first_missing_is_the_first(rest);
        assert forall|i: int| 0 <= i < first_missing(answers) implies (
        #[trigger] answers[i]) is Some by {
            if i > 0 {
                assert(rest[i - 1] == answers[i]);
            }
        }
    }
}

/// Values are queued in the order of the parameters, each as it was answered; one
/// that is no finite number is left out, and with a parameter that is not described
/// the queue ends.
pub proof fn values_are_queued_in_order(
    before: Seq<Option<(u32, u64)>>,
    id: u32,
    bits: u64,
    after: Seq<Option<(u32, u64)>>,
)
    requires
        forall|i: int| 0 <= i < before.len() ==> (#[trigger] before[i]) is Some,
    ensures
        queued_values(before + seq![Some((id, bits))] + after) == queued_values(before) + (if bits
            & 0x7FF0_0000_0000_0000 != 0x7FF0_0000_0000_0000 {
            seq![(id, bits)]
        } else {
            Seq::empty()
        }) + queued_values(after),
        queued_values(before + seq![None] + after) == queued_values(before),
        queued_values(Seq::<Option<(u32, u64)>>::empty()) == Seq::<(u32, u64)>::empty(),
    decreases before.len(),
{
    let one = before + seq![Some((id, bits))] + after;
    let none = before + seq![None::<(u32, u64)>] + after;
    finite_values_have_an_exponent(bits);
    if before.len() == 0 {
        assert(one[0] == Some((id, bits)));
        assert(none[0] is None);
        assert(one.skip(1) =~= after);
        if is_finite(bits) {
            assert(queued_values(one) =~= queued_values(before) + seq![(id, bits)] + queued_values(
                after,
            ));
        } else {
            assert(queued_values(one) =~= queued_values(before) + Seq::<(u32, u64)>::empty()
                + queued_values(after));
        }
    } else {
        let rest = before.skip(1);
        assert forall|i: int| 0 <= i < rest.len() implies (#[trigger] rest[i]) is Some by {
            assert(rest[i] == before[i + 1]);
        }
        values_are_queued_in_order(rest, id, bits, after);
        assert(one[0] == before[0] && none[0] == before[0]);
        assert(one.skip(1) =~= rest + seq![Some((id, bits))] + after);
        assert(none.skip(1) =~= rest + seq![None::<(u32, u64)>] + after);
        assert(before[0] is Some);
        if is_finite(bits) {
            assert(queued_values(one) =~= queued_values(before) + seq![(id, bits)] + queued_values(
                after,
            ));
        } else {
            assert(queued_values(one) =~= queued_values(before) + Seq::<(u32, u64)>::empty()
                + queued_values(after));
        }
        assert(queued_values(none) =~= queued_values(before));
    }
}

/// Queued changes come as points of the parameters and values that were set, in the
/// order in which they were set, at the start of the block.
pub proof fn queued_changes_come_in_order(
    before: Seq<(u32, u64)>,
    id: u32,
    bits: u64,
    after: Seq<(u32, u64)>,
)
    ensures
        pending_points(before + seq![(id, bits)] + after) == pending_points(before) + seq![
            (id, (0i32, Amount::Bits(bits))),
        ] + pending_points(after),
        pending_points(before).len() == before.len(),
{
    assert(pending_points(before + seq![(id, bits)] + after) =~= pending_points(before) + seq![
        (id, (0i32, Amount::Bits(bits))),
    ] + pending_points(after));
}

/// An event that comes after others is handed on after them: as a point where it is a
/// controller change of a parameter that the plugin assigned, as an event where it
/// travels as one, and never as both.
pub proof fn every_event_is_handed_on_once(
    events: Seq<Event>,
    assigned: Seq<Option<u32>>,
    event: Event,
    parameter: Option<u32>,
)
    requires
        events.len() == assigned.len(),
    ensures
        note_events(events.push(event)) == (match events::to_vst3(event) {
            Some(e) => note_events(events).push(e),
            None => note_events(events),
        }),
        match (events::controller_change(event), parameter) {
            (Some(change), Some(id)) => controller_points(
                events.push(event),
                assigned.push(parameter),
            ) == controller_points(events, assigned).push(
                (id, (events::offset_of(event.sample_offset), change.value)),
            ) && note_events(events.push(event)) == note_events(events),
            _ => controller_points(events.push(event), assigned.push(parameter))
                == controller_points(events, assigned),
        },
{
    assert(events.push(event).drop_last() =~= events);
    assert(assigned.push(parameter).drop_last() =~= assigned);
    if events::controller_change(event) is Some {
        events::events_travel_one_way(event);
    }
}

/// A direction without channels has no speakers, and one with channels as many of the
/// first ones as it has channels.
pub proof fn directions_have_their_speakers(channels: u32, i: u64)
    requires
        i < 64,
    ensures
        arrangement_of(channels) is Some <==> channels > 0,
        arrangement_of(channels) matches Some(speakers) ==> (speakers >> i) & 1u64 == (if i
            < channels {
            1u64
        } else {
            0u64
        }),
{
    layout::arrangement_holds_first_speakers(channels, i);
}

/// What is too much to count is counted as far as VST3 can count where it is frames,
/// and not at all where it is channels.
pub proof fn what_cannot_be_counted(frames: nat, ins: nat, outs: nat)
    ensures
        frames >= 0x8000_0000 ==> counts_of(frames, ins, outs).frames == 0x7FFF_FFFF,
        ins >= 0x8000_0000 ==> counts_of(frames, ins, outs).input_channels == 0,
        outs >= 0x8000_0000 ==> counts_of(frames, ins, outs).output_channels == 0,
{
}

} // verus!
