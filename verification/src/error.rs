//! The two kinds of failure that a backend operation reports.

use vstd::prelude::*;
use vstd::std_specs::convert::FromSpecImpl;

verus! {

/// The failures of a backend operation. The kind decides the class of the
/// reply that the client gets; nothing finer is kept.
#[derive(Debug, Clone, Copy, PartialEq, Eq, Structural)]
pub enum Error {
    /// The platform failed, or the operation does not apply to what the path
    /// names.
    IOError,
    /// The path cannot be resolved, or resolves to a place outside the root.
    PathError,
}

impl From<std::io::Error> for Error {
    /// Every failure of the platform is an `IOError`.
    fn from(_err: std::io::Error) -> (e: Error) {
        Error::IOError
    }
}

impl FromSpecImpl<std::io::Error> for Error {
    open spec fn obeys_from_spec() -> bool {
        true
    }

    open spec fn from_spec(_err: std::io::Error) -> Error {
        Error::IOError
    }
}

} // verus!
