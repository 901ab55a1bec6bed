//! The controller's logger.
//!
//! The log facade and the printing live in the surrounding binary; this
//! type holds the policy: every record is enabled, whatever its severity,
//! since filtering happens at the facade's maximum-level setting.

use vstd::prelude::*;

verus! {

/// A logger that accepts every record and leaves filtering to the facade's
/// maximum-level setting.
pub struct Logger;

impl Logger {
    /// Every record is enabled.
    pub fn enabled(&self) -> (b: bool)
        ensures
            b,
    {
        true
    }
}

} // verus!
