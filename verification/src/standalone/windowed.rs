//! The windowed runner: which runner is used, where a plugin's state is kept, and
//! which output device is chosen.

use crate::error::{Error, ErrorView};
use crate::standalone::device;
use crate::standalone::screenshot::{self, alphanumeric};
use crate::text;
use vstd::prelude::*;
use vstd::string::StringExecFns;

verus! {

// ---------------------------------------------------------------------------
// Runners
// ---------------------------------------------------------------------------

/// How a plugin is run.
#[derive(Clone, Copy, PartialEq, Eq, Debug, Structural)]
pub enum Runner {
    /// In a window, for as long as that is open.
    Windowed,
    /// Without a window, for as long as was asked.
    Headless,
    /// Without a window until a signal comes, since the plugin has no editor and
    /// no time was asked for.
    HeadlessUntilSignal,
}

/// Whether a plugin is run in a window: where one is asked for, but not for a
/// number of seconds.
#[must_use]
pub fn opens_window(gui: bool, seconds_given: bool) -> (yes: bool)
    ensures
        yes == (gui && !seconds_given),
{
    gui && !seconds_given
}

/// How a plugin is run, where a window is asked for or not, a number of seconds is
/// given or not, and a window can be opened or not; none where one is asked for that
/// cannot be opened.
pub open spec fn runner_of(
    gui: bool,
    seconds_given: bool,
    gui_available: bool,
    has_editor: bool,
) -> Option<Runner> {
    if gui && !gui_available {
        None
    } else if gui && !seconds_given {
        Some(
            if has_editor {
                Runner::Windowed
            } else {
                Runner::HeadlessUntilSignal
            },
        )
    } else {
        Some(Runner::Headless)
    }
}

/// How a plugin is run, where a window is asked for or not, a number of seconds is
/// given or not, and a window can be opened or not.
pub fn dispatch_run(
    gui: bool,
    seconds_given: bool,
    gui_available: bool,
    has_editor: bool,
) -> (result: Result<Runner, Error>)
    ensures
        result is Ok <==> runner_of(gui, seconds_given, gui_available, has_editor) is Some,
        result matches Ok(runner) ==> runner_of(gui, seconds_given, gui_available, has_editor)
            == Some(runner),
        match result {
            Ok(Runner::Headless) => (gui ==> gui_available) && !(gui && !seconds_given),
            Ok(Runner::Windowed) => gui && !seconds_given && gui_available && has_editor,
            Ok(Runner::HeadlessUntilSignal) => gui && !seconds_given && gui_available
                && !has_editor,
            Err(e) => gui && !gui_available && e@ == ErrorView::Other(
                "--gui requires the `gui` feature to be enabled at build time"@,
            ),
        },
{
    if gui && !gui_available {
        Err(Error::other("--gui requires the `gui` feature to be enabled at build time"))
    } else if !opens_window(gui, seconds_given) {
        Ok(Runner::Headless)
    } else if has_editor {
        Ok(Runner::Windowed)
    } else {
        Ok(Runner::HeadlessUntilSignal)
    }
}

// ---------------------------------------------------------------------------
// State files
// ---------------------------------------------------------------------------

/// A plugin's name with every character that is no ASCII letter or digit made a
/// dash, in small letters.
pub open spec fn state_slug(name: Seq<char>) -> Seq<char> {
    Seq::new(
        name.len(),
        |i: int|
            if screenshot::is_alphanumeric(name[i]) {
                text::ascii_lower_char(name[i])
            } else {
                '-'
            },
    )
}

/// The name of the file that a plugin's state is kept in.
#[must_use]
pub fn state_file_name(plugin_name: &str) -> (file: String)
    ensures
        file@ == state_slug(plugin_name@) + ".state"@,
{
    let chars = text::chars_of(plugin_name);
    let mut slug: Vec<char> = Vec::new();
    let mut i: usize = 0;
    while i < chars.len()
        invariant
            i <= chars.len(),
            chars@ == plugin_name@,
            slug@ =~= state_slug(plugin_name@).take(i as int),
        decreases chars.len() - i,
    {
        let c = chars[i];
        if alphanumeric(c) {
            slug.push(text::lower_char(c));
        } else {
            slug.push('-');
        }
        i += 1;
    }
    assert(slug@ =~= state_slug(plugin_name@));
    let mut file = text::string_of(slug.as_slice());
    file.append(".state");
    file
}

// ---------------------------------------------------------------------------
// The output device
// ---------------------------------------------------------------------------

/// The output that a running host has chosen.
#[derive(Debug)]
pub struct AudioController {
    /// Part of the device's name; the default device where there is none.
    pub device_name: Option<String>,
    /// The device's channels.
    pub channels: usize,
    /// Whether audio runs.
    pub streaming: bool,
}

/// The channels of a device, which has one at least.
pub open spec fn device_channels(channels: u16) -> int {
    if channels == 0 {
        1
    } else {
        channels as int
    }
}

impl AudioController {
    /// A controller before its device was opened, with the choices that apply.
    #[must_use]
    pub fn start(settings: &device::DeviceSettings) -> (controller: Self)
        ensures
            device::text_of(controller.device_name) == device::config_spec(
                *settings,
            ).output_device,
            controller.channels == 0,
            !controller.streaming,
    {
        AudioController {
            device_name: device::config(settings).output_device,
            channels: 0,
            streaming: false,
        }
    }

    /// Chooses another device. Audio stops until that was opened.
    pub fn set_output_device(&mut self, name: Option<String>)
        ensures
            final(self).device_name == name,
            final(self).channels == old(self).channels,
            !final(self).streaming,
    {
        self.device_name = name;
        self.streaming = false;
    }

    /// Takes the channels of the device that was opened.
    pub fn opened(&mut self, channels: u16)
        ensures
            final(self).device_name == old(self).device_name,
            final(self).channels == device_channels(channels),
            !final(self).streaming,
    {
        self.channels = if channels == 0 {
            1
        } else {
            channels as usize
        };
        self.streaming = false;
    }

    /// Takes that audio runs.
    pub fn started(&mut self)
        ensures
            final(self).device_name == old(self).device_name,
            final(self).channels == old(self).channels,
            final(self).streaming,
    {
        self.streaming = true;
    }

    /// The device's channels.
    #[must_use]
    pub fn channels(&self) -> (channels: usize)
        ensures
            channels == self.channels,
    {
        self.channels
    }

    /// Part of the device's name; the default device where there is none.
    #[must_use]
    pub fn device_name(&self) -> (name: Option<&str>)
        ensures
            match name {
                Some(s) => device::text_of(self.device_name) == Some(s@),
                None => self.device_name is None,
            },
    {
        match &self.device_name {
            Some(s) => Some(s.as_str()),
            None => None,
        }
    }
}

/// A state file's name depends on the letters and digits of a plugin's name, not on
/// their case; it has as many characters, and small letters and digits stay.
pub proof fn state_files_are_named_after_plugins(name: Seq<char>, other: Seq<char>)
    ensures
        state_slug(name).len() == name.len(),
        state_slug(text::ascii_lower(name)) == state_slug(name),
        screenshot::is_slug_of_letters(state_slug(name)),
        forall|i: int|
            #![trigger name[i]]
            0 <= i < name.len() && screenshot::is_alphanumeric(name[i]) && !('A' <= name[i] <= 'Z')
                ==> state_slug(name)[i] == name[i],
        forall|i: int|
            #![trigger name[i]]
            0 <= i < name.len() && !screenshot::is_alphanumeric(name[i]) ==> state_slug(name)[i]
                == '-',
        text::ascii_lower(name) == text::ascii_lower(other) ==> state_slug(name) == state_slug(
            other,
        ),
{
    let low = text::ascii_lower(name);
    assert(state_slug(low) =~= state_slug(name)) by {
        assert forall|i: int| 0 <= i < name.len() implies state_slug(low)[i] == #[trigger] state_slug(
            name,
        )[i] by {
            assert(low[i] == text::ascii_lower_char(name[i]));
        }
    }
    let low2 = text::ascii_lower(other);
    assert(state_slug(low2) =~= state_slug(other)) by {
        assert forall|i: int| 0 <= i < other.len() implies state_slug(low2)[i]
            == #[trigger] state_slug(other)[i] by {
            assert(low2[i] == text::ascii_lower_char(other[i]));
        }
    }
}

/// A device has the channels that it reports, and one at least.
pub proof fn devices_have_channels(channels: u16)
    ensures
        device_channels(channels) >= 1,
        channels >= 1 ==> device_channels(channels) == channels,
        device_channels(channels) <= channels + 1,
{
}

/// Without a wish for a window there is none, and nothing can go wrong. A number of
/// seconds ends a run without a window; a plugin without an editor never has one.
pub proof fn windows_show_editors(seconds_given: bool, gui_available: bool, has_editor: bool)
    ensures
        runner_of(false, seconds_given, gui_available, has_editor) == Some(Runner::Headless),
        runner_of(true, seconds_given, false, has_editor) is None,
        runner_of(true, true, true, has_editor) == runner_of(false, true, true, has_editor),
        runner_of(true, seconds_given, gui_available, false) != Some(Runner::Windowed),
        runner_of(true, false, true, true) == Some(Runner::Windowed),
        runner_of(true, false, true, false) == Some(Runner::HeadlessUntilSignal),
{
}

} // verus!
