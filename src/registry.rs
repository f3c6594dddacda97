//! The process names of the client and the game on each platform.
use vstd::prelude::*;
use vstd::string::StringExecFns;

use crate::error::Error;

verus! {

/// Name of the client's UX process on Windows.
pub const CLIENT_PROCESS_NAME_WINDOWS: &'static str = "LeagueClientUx.exe";

/// Name of the game's process on Windows.
pub const GAME_PROCESS_NAME_WINDOWS: &'static str = "League of Legends.exe";

/// Name of the client's UX process on macOS.
pub const CLIENT_PROCESS_NAME_MACOS: &'static str = "LeagueClientUx";

/// Name of the game's process on macOS.
pub const GAME_PROCESS_NAME_MACOS: &'static str = "League of Legends";

/// The platform the library runs on.
#[derive(Debug, Clone, Copy, PartialEq, Eq, Structural)]
pub enum Platform {
    Windows,
    MacOs,
    /// Any platform on which the client does not run.
    Unsupported,
}

/// The process names to look for: the client (primary), whose directory holds
/// the lock file, and the game (secondary), one directory deeper.
pub struct PlatformIdentities {
    pub client: String,
    pub game: String,
}

/// The process names on `platform`; an unsupported platform is an error
/// rather than names that never match.
pub fn identities(platform: Platform) -> (r: Result<PlatformIdentities, Error>)
    ensures
        platform == Platform::Windows ==> r is Ok && r->Ok_0.client@
            == CLIENT_PROCESS_NAME_WINDOWS@ && r->Ok_0.game@ == GAME_PROCESS_NAME_WINDOWS@,
        platform == Platform::MacOs ==> r is Ok && r->Ok_0.client@ == CLIENT_PROCESS_NAME_MACOS@
            && r->Ok_0.game@ == GAME_PROCESS_NAME_MACOS@,
        platform == Platform::Unsupported ==> r == Err::<PlatformIdentities, Error>(
            Error::UnsupportedPlatform,
        ),
{
    match platform {
        Platform::Windows => Ok(
            PlatformIdentities {
                client: String::from_str(CLIENT_PROCESS_NAME_WINDOWS),
                game: String::from_str(GAME_PROCESS_NAME_WINDOWS),
            },
        ),
        Platform::MacOs => Ok(
            PlatformIdentities {
                client: String::from_str(CLIENT_PROCESS_NAME_MACOS),
                game: String::from_str(GAME_PROCESS_NAME_MACOS),
            },
        ),
        Platform::Unsupported => Err(Error::UnsupportedPlatform),
    }
}

} // verus!
