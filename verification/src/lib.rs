//! Consensus-engine core that bridges a block validator and a Raft state
//! machine: argument resolution, cluster membership, the node's call
//! discipline, the periodic ticker and the engine that orders every side
//! effect of a Raft batch.

pub mod args;
pub mod config;
pub mod node;
pub mod wire;
pub mod engine;
pub mod laws;
pub mod ticker;
