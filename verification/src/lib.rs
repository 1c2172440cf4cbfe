//! Server-side data plane of a reverse-tunneling service.
//!
//! A public server accepts TCP connections, UDP datagrams and HTTP requests
//! on advertised ports or virtual hostnames and forwards the traffic over a
//! multiplexed control channel to a client behind NAT.  This crate holds the
//! verified core of that data plane: the public-port allocator, the bridge
//! coupling one user connection to one logical stream, the per-client
//! registry of live bridges, the control-session state machine, the
//! virtual-host routing table, and the per-protocol worker decision logic.
//! The surrounding I/O (sockets, channels, task spawning) lives outside the
//! library and consults these functions for every decision it takes.
pub mod bridge;
pub mod httproute;
pub mod manager;
pub mod port;
pub mod registry;
pub mod session;
pub mod status;
pub mod udp;
