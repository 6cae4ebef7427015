//! Notification values handed back by mutating operations, and the payout
//! instruction produced while completing a bounty.
//!
//! The engine never blocks on delivery: a notification is a plain value the
//! hosting environment may route to subscribers, or drop.

use vstd::prelude::*;

use crate::account::AccountId;
use crate::account::Balance;

verus! {

/// Emitted when a repository is created.
#[derive(Debug)]
pub struct RepositoryCreated {
    pub repo_id: u32,
    pub owner: AccountId,
    pub name: String,
}

/// Emitted when a bounty is created and its reward escrowed.
#[derive(Clone, Copy, PartialEq, Eq, Structural, Debug)]
pub struct BountyCreated {
    pub bounty_id: u32,
    pub repository_id: u32,
    pub creator: AccountId,
    pub reward: Balance,
}

/// Emitted when a contribution certificate is minted.
#[derive(Clone, Copy, PartialEq, Eq, Structural, Debug)]
pub struct NFTMinted {
    pub nft_id: u32,
    pub owner: AccountId,
    pub repository_id: u32,
}

/// What the hosting environment must pay, and to whom, to complete a bounty:
/// the escrowed reward, released to the assignee.
#[derive(Clone, Copy, PartialEq, Eq, Structural, Debug)]
pub struct TransferRequest {
    pub to: AccountId,
    pub amount: Balance,
}

} // verus!
