//! A verified core for two small systems programs: a cooperative green-thread
//! scheduler and a gossip-based node discovery protocol.
pub mod green;
pub mod node;
pub mod discovery;
