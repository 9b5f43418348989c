//! Error values of the standard library that errors of this library carry
//! through unchanged.
use vstd::prelude::*;

verus! {

/// `std::io::Error`, carried as an opaque value.
#[verifier::external_type_specification]
#[verifier::external_body]
pub struct ExIoError(std::io::Error);

/// `std::time::SystemTimeError`, carried as an opaque value.
#[verifier::external_type_specification]
#[verifier::external_body]
pub struct ExSystemTimeError(std::time::SystemTimeError);

} // verus!
