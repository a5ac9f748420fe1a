//! Crate-level error types.

use vstd::prelude::*;

verus! {

/// Declares `std::io::Error` so that [`Error::Io`] can carry the underlying
/// stream failure through to the caller. The value is opaque here: nothing in
/// this crate reads it.
#[verifier::external_type_specification]
#[verifier::external_body]
pub struct ExIoError(std::io::Error);

/// An error that can occur when working with the player's control interface.
#[derive(Debug)]
pub enum Error {
    /// A transport failure on the underlying stream.
    Io(std::io::Error),
    /// The client failed to parse output received from the player.
    ParseErr,
}

impl From<std::io::Error> for Error {
    fn from(e: std::io::Error) -> (r: Error) {
        Error::Io(e)
    }
}

impl vstd::std_specs::convert::FromSpecImpl<std::io::Error> for Error {
    open spec fn obeys_from_spec() -> bool {
        true
    }

    open spec fn from_spec(e: std::io::Error) -> Error {
        Error::Io(e)
    }
}

} // verus!
