//! Failure kinds returned by the engine's operations.

use vstd::prelude::*;

verus! {

/// Why an operation was rejected. Every failure is detected before any
/// mutation, so a rejected operation leaves the engine unchanged.
///
/// `NotOwner` and `AlreadyExists` are part of the error vocabulary but no
/// operation currently raises them.
#[derive(Clone, Copy, PartialEq, Eq, Structural, Debug)]
pub enum Error {
    NotOwner,
    RepositoryNotFound,
    BountyNotFound,
    NotAuthorized,
    InvalidParameters,
    InsufficientFunds,
    AlreadyExists,
}

} // verus!
