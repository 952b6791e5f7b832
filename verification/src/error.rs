//! The library's error type.
use crate::cookie::VersionError;
use crate::types::IdType;
use crate::wire::{BufferError, UnbufferError};
use vstd::prelude::*;

verus! {

/// Errors of the connection layer.
#[derive(Debug)]
pub enum Error {
    /// A remote ID that the translation table does not hold.
    InvalidRemoteId(IdType),
    /// A local ID that is not valid here.
    InvalidLocalId(IdType),
    /// A message type ID that is not valid here.
    InvalidTypeId(IdType),
    /// A translation table entry that is empty.
    EmptyEntry,
    /// Buffering failed.
    BufferError(BufferError),
    /// Unbuffering failed.
    UnbufferError(UnbufferError),
    /// No more handlers can be registered.
    TooManyHandlers,
    /// The handler is not registered.
    HandlerNotFound,
    /// A handler returned an error.
    GenericErrorReturn,
    /// No more names can be registered.
    TooManyMappings,
    /// A non-system message was handed to system message handling.
    NotSystemMessage,
    /// A system message type that is not recognized.
    UnrecognizedSystemMessage(IdType),
    /// The peer's version is not compatible.
    VersionError(VersionError),
    /// Connecting failed after all attempts.
    CouldNotConnect,
    /// Another error, described in words.
    OtherMessage(String),
    /// Two errors: the later one first, then the earlier one.
    ConsErrors(Box<Error>, Box<Error>),
}

impl Error {
    /// Combines this error with a newer one, the newer one first.
    pub fn append(self, new_err: Error) -> (r: Error)
        ensures
            r == Error::ConsErrors(Box::new(new_err), Box::new(self)),
    {
        Error::ConsErrors(Box::new(new_err), Box::new(self))
    }
}

/// Adds an error to a result: an earlier error is kept after the new one,
/// and success becomes the new error.
pub fn append_error(old: Result<(), Error>, new_err: Error) -> (r: Result<(), Error>)
    ensures
        r == match old {
            Err(old_e) => Err::<(), Error>(Error::ConsErrors(Box::new(new_err), Box::new(old_e))),
            Ok(()) => Err::<(), Error>(new_err),
        },
{
    match old {
        Err(old_e) => Err(old_e.append(new_err)),
        Ok(()) => Err(new_err),
    }
}

} // verus!
