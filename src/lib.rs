//! Connection multiplexer of a uTP endpoint: the registry of live
//! connections, the rendezvous of inbound handshakes with acceptors, and the
//! allocation of connection identifiers, as a verified state machine.

pub mod cid;
pub mod keyed;
pub mod laws;
pub mod socket;
