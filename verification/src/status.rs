//! Outcome codes shared by every fallible engine operation and by the
//! client/server dispatch boundary.

use vstd::prelude::*;

verus! {

/// Failure of an engine operation that touches the buffer.
///
/// Every fallible operation of the engine returns one of these instead
/// of panicking; a decode failure on an untrusted buffer is surfaced to
/// the caller, never upgraded into a crash.
#[derive(Clone, Copy, Debug, PartialEq, Eq, Structural)]
pub enum Error {
    /// A text field was handed bytes that are not valid UTF-8.
    EncodingError,
    /// A write of a discriminant outside the declared member set.
    InvalidEnumValue,
    /// A read observed a discriminant, tag or slot range that is not in
    /// the declared set (for example in a buffer from an untrusted source).
    DecodeError,
    /// Indexed access beyond a repeated field's element count.
    BoundsError,
    /// A second writer was requested while one is open on the container.
    AlreadyWriting,
}

/// Status code carried across the dispatch shim, round-tripped unchanged
/// between the client and server representations.
#[derive(Clone, Copy, Debug, PartialEq, Eq, Structural)]
pub enum Status {
    /// The call succeeded; the response buffer may be read.
    Success,
    /// Mirror of [`Error::EncodingError`].
    Encoding,
    /// Mirror of [`Error::InvalidEnumValue`].
    InvalidEnum,
    /// Mirror of [`Error::DecodeError`].
    Decode,
    /// Mirror of [`Error::BoundsError`].
    Bounds,
    /// Mirror of [`Error::AlreadyWriting`].
    AlreadyWriting,
    /// An application-defined failure code, opaque to the engine.
    App(u64),
}

/// The status code that reports a given engine error.
pub open spec fn status_of(e: Error) -> Status {
    match e {
        Error::EncodingError => Status::Encoding,
        Error::InvalidEnumValue => Status::InvalidEnum,
        Error::DecodeError => Status::Decode,
        Error::BoundsError => Status::Bounds,
        Error::AlreadyWriting => Status::AlreadyWriting,
    }
}

impl Status {
    /// Translates an engine error into the status code that carries it
    /// across the dispatch boundary.
    pub fn from_error(e: Error) -> (r: Status)
        ensures
            r == status_of(e),
            r != Status::Success,
    {
        match e {
            Error::EncodingError => Status::Encoding,
            Error::InvalidEnumValue => Status::InvalidEnum,
            Error::DecodeError => Status::Decode,
            Error::BoundsError => Status::Bounds,
            Error::AlreadyWriting => Status::AlreadyWriting,
        }
    }

    /// True exactly when this status reports success.
    pub fn is_success(&self) -> (r: bool)
        ensures
            r == (*self == Status::Success),
    {
        match self {
            Status::Success => true,
            _ => false,
        }
    }
}

} // verus!
