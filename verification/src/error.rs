//! The error taxonomy shared by every component of the routing core.
//!
//! `NetError` is the only error value that crosses a service boundary: handler
//! failures, broker-synthesized failures (timeout, no route) and client-side
//! failures (disconnect) all travel as a `NetError`, so callers branch on
//! failure in one uniform way.

use vstd::prelude::*;

verus! {

/// Closed enumeration of failure categories.
///
/// The infrastructure itself only ever synthesizes `Bug`, `Timeout`, `NoShard`
/// and `Disconnected`; the remaining codes are produced by handlers and pass
/// through the broker and facade untouched.
#[derive(Clone, Copy, Debug, PartialEq, Eq, Structural)]
pub enum ErrCode {
    /// Protocol or internal violation: unregistered message type, decode failure.
    Bug,
    /// No reply within the deadline, at either the broker or the client.
    Timeout,
    /// No live registration for the required message type.
    NoShard,
    /// The required service exists but cannot currently be reached.
    Unavailable,
    /// The local connection to the broker was lost.
    Disconnected,
    /// Business-level: the named entity does not exist.
    NotFound,
    /// Business-level: the caller may not perform the operation.
    AccessDenied,
    /// Business-level: the remote side refused the request.
    RemoteRejected,
    /// Business-level: the operation conflicts with an existing entity.
    EntityConflict,
}

/// The uniform cross-service error value: a failure category paired with a
/// human-readable message.
#[derive(Clone, Debug)]
pub struct NetError {
    pub code: ErrCode,
    pub message: String,
}

impl NetError {
    /// Builds an error carrying the given category and message.
    pub fn new(code: ErrCode, message: String) -> (e: NetError)
        ensures
            e.code == code,
            e.message == message,
    {
        NetError { code, message }
    }
}

/// Success-with-`T`-or-`NetError`: the result type of every routed call and
/// of every handler.
pub type NetResult<T> = Result<T, NetError>;

} // verus!
