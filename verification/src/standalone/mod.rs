//! The standalone runner: one plugin against one audio device.

pub mod cli;
pub mod device;
pub mod keyboard;
pub mod menu;
pub mod midi;
pub mod midi_queue;
pub mod screenshot;
pub mod select;
pub mod transport;
pub mod windowed;
