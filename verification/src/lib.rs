//! The core of an Ethereum client: the decisions of its chain and the state that its
//! virtual machine works on.
//!
//! - [`word`], [`hex`], [`table`]: words, hashes and addresses, their texts, and maps from
//!   them.
//! - [`account`], [`bal`], [`database`], [`gen_db`]: accounts, block access lists, and the
//!   cache that loads accounts and slots on demand.
//! - [`transitions`], [`backup`], [`undo`]: what an execution changed, and taking it back.
//! - [`vm`], [`frame`], [`gas_cost`], [`opcode_handlers`]: the machine, and the instructions
//!   that read the block and the environment.
//! - [`transaction`], [`block`], [`config`], [`chain_error`]: what a chain consists of.
//! - [`payload`]: building blocks.
//! - [`blockchain`]: importing blocks, keeping the state trie, admitting transactions and
//!   making witnesses.
//!
//! Whatever has to be asked of a store, a peer or a clock comes in as an argument, so that
//! every function here is a function of its arguments alone. The one exception is
//! [`database::Database`], through which the machine reads the state.
//!
//! Proof functions whose names start with `law_` state what holds of the library as a
//! whole. Those of [`laws`] say what each operation is for.

pub mod account;
pub mod backup;
pub mod bal;
pub mod block;
pub mod blockchain;
pub mod chain_error;
pub mod config;
pub mod database;
pub mod error;
pub mod frame;
pub mod gas_cost;
pub mod gen_db;
pub mod hex;
pub mod laws;
pub mod opcode_handlers;
pub mod payload;
pub mod table;
pub mod transaction;
pub mod transitions;
pub mod undo;
pub mod vm;
pub mod word;
