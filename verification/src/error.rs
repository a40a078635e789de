//! Error type shared by the whole client.

use vstd::prelude::*;

verus! {

/// The kind of a client error, following the error design of the protocol
/// core: encoding and transport errors happen on the way out, decoding
/// errors on the way in, and the remaining kinds describe registration,
/// remote-process and blocking-wait failures.
#[derive(Clone, Copy, Debug, PartialEq, Eq, Structural)]
pub enum ScErrorKind {
    /// An outbound message could not be encoded (malformed address or
    /// arguments).
    Encoding,
    /// A socket-level send or receive failed.
    Transport,
    /// An inbound datagram could not be decoded.
    Decoding,
    /// A responder was registered on a protocol-reserved address.
    ReservedAddress,
    /// The remote process reported a command failure.
    RemoteFailure,
    /// The supervised server process failed to start, crashed, or never
    /// confirmed readiness.
    Process,
    /// A blocking wait gave up before the awaited reply arrived.
    Timeout,
    /// Any other failure.
    General,
}

/// An error of this client: a kind together with a human-readable cause.
#[derive(Debug)]
pub struct ScClientError {
    pub kind: ScErrorKind,
    pub cause: String,
}

impl Clone for ScClientError {
    fn clone(&self) -> (r: Self)
        ensures
            r.kind == self.kind,
            r.cause@ == self.cause@,
    {
        ScClientError { kind: self.kind, cause: self.cause.clone() }
    }
}

impl ScClientError {
    /// A general error with the given cause.
    pub fn new(cause: &str) -> (r: Self)
        ensures
            r.kind == ScErrorKind::General,
            r.cause@ == cause@,
    {
        ScClientError { kind: ScErrorKind::General, cause: cause.to_owned() }
    }

    /// An error of the given kind with the given cause.
    pub fn with_kind(kind: ScErrorKind, cause: &str) -> (r: Self)
        ensures
            r.kind == kind,
            r.cause@ == cause@,
    {
        ScClientError { kind, cause: cause.to_owned() }
    }

    /// The human-readable cause of this error.
    pub fn message(&self) -> (r: String)
        ensures
            r@ == self.cause@,
    {
        self.cause.clone()
    }
}

pub type ScClientResult<T> = Result<T, ScClientError>;

} // verus!
