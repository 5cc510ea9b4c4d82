//! Audio Unit hosting.

use vstd::prelude::*;


pub mod host;
pub mod ids;

verus! {

/// Format identifier of the plugins that this module hosts.
pub const FORMAT: &'static str = "au";

} // verus!
