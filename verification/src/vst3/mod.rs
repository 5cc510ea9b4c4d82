//! VST3 hosting.

use vstd::prelude::*;

pub mod events;
pub mod host;
pub mod ids;
pub mod layout;
pub mod stream;

verus! {

/// Format identifier of the plugins that this module hosts.
pub const FORMAT: &'static str = "vst3";

} // verus!
