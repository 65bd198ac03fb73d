//! Reassembly of byte transfers that arrive as numbered datagram chunks.

pub mod finalizer;
pub mod laws;
pub mod listener;
pub mod mode_s;
pub mod queue;
pub mod sink;
pub mod tokens;
pub mod udp;
pub mod wire;
