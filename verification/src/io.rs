//! Errors of the operating system, carried through as they came.

use std::io::{Error, ErrorKind};
use vstd::prelude::*;

verus! {

#[verifier::external_type_specification]
#[verifier::external_body]
pub struct ExIoError(Error);

/// `std::io::Error::new`, with the kind `Other` and the given message.
#[verifier::external_body]
pub(crate) fn other_error(detail: &str) -> Error {
    Error::new(ErrorKind::Other, detail)
}

} // verus!
