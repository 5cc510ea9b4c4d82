//! Host-side logic of an audio-plugin rack.

use vstd::prelude::*;

pub mod au;
pub mod au3;
pub mod buffer;
pub mod bus;
pub mod clap;
pub mod error;
pub mod events;
pub mod info;
pub mod lv2;
pub mod plugin;
pub mod render;
pub mod standalone;
pub mod state;
pub mod text;
pub mod vst3;
pub mod wrapper;

verus! {

} // verus!
