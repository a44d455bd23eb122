//! Verified core of a load generator that drives a "hammer" on-chain program:
//! the byte encoding of its commands, the bookkeeping of the accounts that the
//! commands touch, the random choice of commands under a compute budget, and
//! the command-line rules of its tools.

pub mod pubkey;
pub mod decimal;
pub mod command_accounts;
pub mod accounts;
pub mod commands;
pub mod rng;
pub mod generator;
pub mod batch;
pub mod keyfile;
pub mod client_args;
pub mod rpc;
pub mod creation;
pub mod contention;
pub mod tools;
pub mod funding;
pub mod blockhash;
