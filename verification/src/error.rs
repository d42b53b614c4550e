//! The ways in which preparing a lock can fail.

use vstd::prelude::*;

verus! {

/// Why no locker could be started.
#[derive(Debug, Clone, PartialEq, Eq)]
pub enum Error {
    /// Neither display query could be launched.
    ExternalTool,
    /// A display query ran, and its answer could not be decoded.
    Parse,
    /// The session type is set to a value that names no supported locker.
    /// Holds that value.
    UnsupportedSession(String),
    /// No locker was chosen and no session type is set.
    Configuration,
}

} // verus!
