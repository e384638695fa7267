//! Error kinds.
use vstd::prelude::*;

verus! {

/// How a request to the drive service failed. `Unauthorized` is the one kind
/// a caller must tell apart: it calls for a token refresh.
#[derive(Clone, Copy, Debug, PartialEq, Eq, Structural)]
pub enum DriveError {
    /// The service answered 401, or no session is held.
    Unauthorized,
    /// The service answered 404 to a request for one object.
    NotFound,
    /// The request could not be made or answered.
    Transport,
    /// The answer could not be read.
    Decode,
}

/// How a daemon cycle ended in failure.
#[derive(Clone, Debug)]
pub enum DaemonError {
    /// An error the daemon cannot recover from, with its description.
    Critical(String),
    /// An error that was handled, reported to stop the current cycle.
    Handled,
}

} // verus!
