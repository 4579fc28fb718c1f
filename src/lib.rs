//! Distributed, time-partitioned log search: the verified core.
//!
//! The modules hold the control-channel framing, the message envelopes, the
//! shard catalog, the coordinator's command queue and response table, the
//! scatter-gather query scheduler and the worker's shard rotation.

pub mod catalog;
pub mod frame;
pub mod message;
pub mod pending;
pub mod queue;
pub mod rotation;
pub mod scheduler;
pub mod shard;
pub mod target;
pub mod worker;
