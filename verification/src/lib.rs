//! Control groups: freezing and thawing their processes, limiting miscellaneous resources, and
//! being told when their memory runs out.
//!
//! The library decides and computes; it performs no operation on the system. Where one is called
//! for, a function returns a request, or a stage that says what comes next, and takes what came
//! of it.

use vstd::prelude::*;

pub mod fs;
pub mod systemd;

verus! {

/// The state of the processes in a control group, as the freezer reports it.
#[derive(Debug, Clone, Copy, PartialEq, Eq, Structural)]
pub enum FreezerState {
    /// The processes are not frozen.
    Thawed,
    /// The processes are on their way to being frozen.
    Freezing,
    /// The processes are frozen.
    Frozen,
}

} // verus!
