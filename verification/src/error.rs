//! The error taxonomy: per-connection parse failures, pool exhaustion, and
//! the one fatal startup error.

use vstd::prelude::*;

verus! {

/// Everything that can go wrong while serving.
///
/// The first four arise while parsing one connection's request and are
/// contained within that connection. `BufferPoolExhausted` means a buffer
/// could not even be synthesized (an allocation failure at the platform
/// level) and is fatal to that connection only. `BindFailure` means the
/// listener could not bind to its host and port and is fatal to startup.
#[derive(Clone, Copy, Debug, PartialEq, Eq, Structural)]
pub enum ServerError {
    /// The peer closed the stream before a complete header block arrived.
    ConnectionClosed,
    /// The header block exceeded the byte cap before its terminating blank line.
    HeadersTooLarge,
    /// The first line did not hold method, path and version.
    MalformedRequestLine,
    /// The method token is not one of the eight recognized verbs.
    InvalidMethod,
    /// No buffer could be acquired or synthesized for the connection.
    BufferPoolExhausted,
    /// The listener could not bind to the requested host and port.
    BindFailure,
}

} // verus!
