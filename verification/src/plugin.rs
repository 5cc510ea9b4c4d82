//! What a plugin answers when it has processed a block.

use vstd::prelude::*;

verus! {

/// Hint from the plugin about whether more output is coming.
#[derive(Clone, Copy, Debug, PartialEq, Eq, Structural)]
pub enum ProcessStatus {
    /// More work follows regardless of input.
    Continue,
    /// No output until fresh input or events arrive.
    Sleep,
    /// Audio goes on for a while even with silent input.
    Tail {
        /// Remaining tail length in samples.
        tail_samples: u32,
    },
    /// Hard error during processing.
    Error,
}

} // verus!
