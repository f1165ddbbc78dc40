//! Instruction handlers, one module per instruction.

pub mod vote;
pub mod approve;
pub mod cancel;
pub mod reject;
pub mod vote_laws;
pub mod config_action;
pub mod config_laws;
pub mod close_transaction;
pub mod set_config;
pub mod system;
pub mod buffer;
pub mod init_multisig;
pub mod create_transaction;
pub mod create_from_buffer;
pub mod lookup;
pub mod execute;
pub mod execute_laws;
pub mod lifecycle;
pub mod access_laws;
