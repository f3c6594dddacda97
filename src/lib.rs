//! Local discovery of a running League client: finds the client or game
//! process, recovers the control-plane port and auth token either from the
//! command line or from the lock file, and produces the address and the
//! `Basic` authorization header value used to talk to it.
pub mod codec;
pub mod discovery;
pub mod error;
pub mod lockfile;
pub mod registry;

pub use error::Error;
