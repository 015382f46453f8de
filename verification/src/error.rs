//! The error that option parsing reports.
use vstd::prelude::*;

verus! {

/// An option value that the slicer cannot accept.
#[derive(Debug)]
pub enum SliceError {
    InvalidInput(String),
}

/// The message of an error.
pub open spec fn message_of(e: SliceError) -> Seq<char> {
    match e {
        SliceError::InvalidInput(m) => m@,
    }
}

/// The error whose message is `key` followed by `reason`.
pub fn invalid(key: &str, reason: &str) -> (e: SliceError)
    ensures
        message_of(e) == key@ + reason@,
{
    SliceError::InvalidInput(crate::text::concat(key, reason))
}

/// The error with the given message.
pub fn invalid_message(message: &str) -> (e: SliceError)
    ensures
        message_of(e) == message@,
{
    SliceError::InvalidInput(crate::text::owned(message))
}

} // verus!
