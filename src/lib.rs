//! Quorum coordination for an auditable key directory: the messages that
//! quorum members exchange, their wire framing, the per-node round state
//! machine, and two key/value stores, one over evmap and one with a cache.

pub mod messages;
pub mod wire;
pub mod round;
pub mod node;
pub mod leader;
pub mod worker;
pub mod storage;
pub mod memory;
