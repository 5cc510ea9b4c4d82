//! CLAP hosting.

use vstd::prelude::*;

pub mod catalog;
pub mod events;
pub mod host;
pub mod stream;

verus! {

/// Format identifier of the plugins that this module hosts.
pub const FORMAT: &'static str = "clap";

} // verus!
