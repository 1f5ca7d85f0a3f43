//! Cooperative shard ownership for a partitioned stream consumer: the lease
//! protocol, the per-shard read loop, the idle reaper and the twin-sink
//! shipping step, each stated as verified decisions over plain values.

pub mod lease;
pub mod reaper;
pub mod reader;
pub mod sink;
pub mod supervisor;
