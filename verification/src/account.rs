//! Identities and monetary amounts.
//!
//! The hosting execution environment resolves who invoked an operation and
//! hands the engine an opaque account identity. The engine never interprets
//! an identity: it only compares identities for equality and stores them.

use vstd::prelude::*;

verus! {

/// An opaque account identity, as resolved by the hosting environment.
#[derive(Clone, Copy, PartialEq, Eq, Structural, Debug)]
pub struct AccountId(pub u64);

/// A monetary amount, in the host ledger's smallest unit.
pub type Balance = u128;

} // verus!
