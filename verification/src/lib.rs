//! A single node of a gossip-broadcast cluster: its stores, its
//! acknowledgment tracker and the fan-out policy that drives them.

pub mod host;
pub mod laws;
pub mod message;
pub mod sequence;
pub mod state;
pub mod topology;
