//! The error taxonomy of the engine.  Every fallible operation returns one
//! of these kinds; there are no exceptions and no panics in the library.

use vstd::prelude::*;

verus! {

#[derive(Clone, Copy, Debug, PartialEq, Eq, Structural)]
pub enum Fail {
    /// Undecodable or semantically invalid inbound frame; dropped.
    Malformed,
    /// Unknown handle, connection, or cache entry.
    ResourceNotFound,
    /// Port already in use.
    ResourceBusy,
    /// Empty pool or empty read queue.
    ResourceExhausted,
    /// An await exceeded its budget.
    Timeout,
    /// Poll result meaning "pending"; observed internally, never surfaced.
    TryAgain,
    /// The peer answered the handshake with RST.
    ConnectionRefused,
    /// The peer sent RST on an established connection.
    ConnectionAborted,
    /// Segment rejected by connection logic (out of window and the like);
    /// swallowed inside the main connection loop.
    Ignored,
}

} // verus!
