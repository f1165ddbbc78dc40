//! On-chain account layouts and the data they hold.

pub mod bitmap;
pub mod buffer;
pub mod message;
pub mod message_format;
pub mod multisig;
pub mod permission;
pub mod transaction;
