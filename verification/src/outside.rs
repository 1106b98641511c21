//! Types of the standard library that this library hands through unread.

use vstd::prelude::*;

verus! {

/// `std::io::Error`, as an opaque value: what a platform operation failed with.
#[verifier::external_type_specification]
#[verifier::external_body]
pub struct ExIoError(std::io::Error);

} // verus!
