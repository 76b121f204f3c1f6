//! The crate's top-level error type.

use vstd::prelude::*;

verus! {

#[verifier::external_type_specification]
#[verifier::external_body]
pub struct ExIoError(std::io::Error);

/// An error surfaced by the multiplexer's surroundings.
pub enum Error {
    /// An I/O error, typically raised by the underlying transport.
    Io(std::io::Error),
}

} // verus!
