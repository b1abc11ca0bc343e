//! Error taxonomy of the client.

use vstd::prelude::*;

verus! {

/// An error reported by a storage or routing node inside a response, passed
/// through to the caller verbatim.  Only key absence is interpreted by the
/// client itself (the conditional-set operation uses it to decide "safe to
/// write"); every other storage error is opaque.
#[derive(Clone, Copy, Debug, PartialEq, Eq, Structural)]
pub enum AnnaError {
    /// The storage node reports that the requested key holds no value.
    KeyDoesNotExist,
    /// Any other storage-reported error, carried as an opaque code.
    Other(u64),
}

/// Every failure a public client operation can surface.  Operations return
/// one of these as an error value; none of them is process-fatal.
#[derive(Clone, Copy, Debug, PartialEq, Eq, Structural)]
pub enum ClientError {
    /// Address resolution found no storage thread owning the key.
    AddressResolutionFailed,
    /// A transport could not be established; surfaced immediately, not retried.
    ConnectFailed,
    /// An unexpected frame kind arrived on an established transport; fatal to
    /// that transport's receive loop.
    ProtocolViolation,
    /// A response that should carry exactly one result tuple carried none.
    MalformedResponse,
    /// A lattice value did not match the variant the caller expected.
    UnexpectedValueType,
    /// The storage node reported that the key holds no value.
    KeyDoesNotExist,
    /// An opaque storage-reported error, passed through by its code.
    Storage(u64),
    /// A byte payload could not be decoded into the requested native type.
    InvalidBytes,
}

impl ClientError {
    /// The client-level error corresponding to a storage-reported error.
    pub open spec fn of_anna_spec(e: AnnaError) -> ClientError {
        match e {
            AnnaError::KeyDoesNotExist => ClientError::KeyDoesNotExist,
            AnnaError::Other(code) => ClientError::Storage(code),
        }
    }

    /// Translates a storage-reported error into the client taxonomy.
    pub fn of_anna(e: AnnaError) -> (r: ClientError)
        ensures
            r == Self::of_anna_spec(e),
    {
        match e {
            AnnaError::KeyDoesNotExist => ClientError::KeyDoesNotExist,
            AnnaError::Other(code) => ClientError::Storage(code),
        }
    }
}

} // verus!
