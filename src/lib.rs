//! One node of a peer-to-peer key-value cache that replicates its
//! mutations to every known peer by gossip-style broadcast.
//!
//! The library holds the logic of the replication engine: the wire codec
//! of mutation messages, the decisions of the control loop, the fan-out of
//! a broadcast over the current membership, and the replies of the HTTP
//! ingress. Timers, sockets, channels and the cache backends are driven by
//! the program around it.
pub mod protocol;
pub mod engine;
pub mod broadcast;
pub mod config;
pub mod ingress;
