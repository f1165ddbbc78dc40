//! A multisig program for Solana, as a verified library.
//!
//! An owner proposes a transaction, owners approve it, and once the threshold
//! is met anyone may execute it. Owner-set changes are ordinary proposals
//! targeting this program, so they cost the same threshold as a spend.
//!
//! This crate holds the program's decisions: account layouts, the compiled
//! message format, the vote rules and the configuration rules. The runtime
//! glue (account borrowing, cross-program invocation, sysvars) stands apart.

pub mod account;
pub mod client;
pub mod address;
pub mod constants;
pub mod encoding;
pub mod entrypoint;
pub mod error;
pub mod rent;
pub mod instruction;
pub mod state;
