//! A ledger-resident registry for collaborative software projects.
//!
//! The crate tracks repositories, funded task bounties, and non-transferable
//! contribution certificates. Every operation is a deterministic state
//! transition on a [`engine::PolkaForge`] value: the hosting environment
//! resolves the caller identity, the current timestamp, and any attached
//! monetary value, and passes them in explicitly; the engine validates,
//! mutates, and hands back a notification for the host to dispatch.
//!
//! Monetary transfers are the host's job: [`engine::PolkaForge::prepare_completion`]
//! tells the host what to pay, and [`engine::PolkaForge::complete_bounty`]
//! takes the transfer outcome and finishes (or aborts) the operation.

pub mod account;
pub mod errors;
pub mod records;
pub mod events;
pub mod indexes;
pub mod engine;
pub mod laws;
