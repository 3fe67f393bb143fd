//! NAT traversal utilities.
//!
//! Discovers the externally visible endpoints of a local socket and drives
//! the hole-punch handshake that lets two peers behind NATs connect
//! directly. All protocol decisions live here, verified; the surrounding
//! socket and thread plumbing hands this crate plain values and performs
//! the actions it asks for.

pub mod addr;
pub mod codec;
pub mod listener_message;
pub mod mapped_tcp_socket;
pub mod mapped_udp_socket;
pub mod mapping;
pub mod mapping_context;
pub mod rendezvous_info;
pub mod tcp_punch_hole;
pub mod udp_punch_hole;
