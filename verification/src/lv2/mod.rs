//! LV2 hosting: URI mapping, port classification, and the atom sequences that
//! carry MIDI and transport to and from a plugin.

use vstd::prelude::*;

pub mod atom;
pub mod drain;
pub mod editor;
pub mod host;
pub mod midi;
pub mod ports;
pub mod position;
pub mod urid;

verus! {

/// Format identifier of the plugins that this module hosts.
pub const FORMAT: &'static str = "lv2";

/// Scans for LV2 plugins. It has no state.
#[derive(Clone, Copy, Debug, Default, PartialEq, Eq, Structural)]
pub struct Lv2Scanner;

impl Lv2Scanner {
    /// A scanner.
    #[must_use]
    pub fn new() -> (scanner: Self)
        ensures
            scanner == Lv2Scanner,
    {
        Lv2Scanner
    }
}

} // verus!
