//! The errors of the library.
use vstd::prelude::*;

verus! {

/// Errors met while locating the client or talking to it.
#[derive(Debug, Clone, Copy, PartialEq, Eq, Structural)]
pub enum Error {
    /// Expected or input type are incorrect
    FailedParseJson,
    /// The LCU stopped running
    LCUStoppedRunning,
    /// The game stopped running
    LeagueStoppedRunning,
    /// The following request is invalid
    InvalidRequest,
    /// The request body is invalid
    InvalidBody,
    /// Neither the LCU nor the game is running
    LCUProcessNotRunning,
    /// Could not locate port for the LCU
    PortNotFound,
    /// The sub process could not be spawned
    CannotLaunchTerminal,
    /// Auth token for the LCU could not be found
    AuthTokenNotFound,
    /// The executable path, or a directory above it, is unknown
    LockFileNotFound,
    /// The lock file could not be read
    StdIo,
    /// The client does not run on this platform
    UnsupportedPlatform,
}

} // verus!
