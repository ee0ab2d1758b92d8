//! The core of a stack-based virtual machine for an account-based chain:
//! gas pricing by protocol revision, the instructions that touch memory and
//! chain state, and a cache of chain state in front of a read-only source.
//!
//! Every instruction is stated as a function from the frame before it to the
//! frame after it, given what the host answered; the cache is stated over a
//! model of its maps.
pub mod bytes;
pub mod db;
pub mod gas;
pub mod host;
pub mod host_instructions;
pub mod interpreter;
pub mod maps;
pub mod memory_instructions;
pub mod plain_account;
pub mod primitives;
pub mod replay;
pub mod word;
