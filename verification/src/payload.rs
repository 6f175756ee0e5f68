//! Building payloads: the blocks that this node proposes.

pub mod context;
pub mod create;
pub mod fill;
pub mod queue;
pub mod slots;
