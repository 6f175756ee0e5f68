//! What the operations of the library are for, stated on the numbers, the bytes and the
//! fields that go in and come out.
//!
//! Each law takes what an operation promises, the predicate or the function that its
//! contract speaks of, and says what that means for whoever calls it.

pub mod admission;
pub mod answers;
pub mod batch;
pub mod building;
pub mod chain;
pub mod database;
pub mod environment;
pub mod functions;
pub mod known;
pub mod machine;
pub mod opcodes;
pub mod payload;
pub mod pool;
pub mod storage;
pub mod texts;
pub mod transitions;
pub mod trie;
pub mod views;
pub mod worker;
