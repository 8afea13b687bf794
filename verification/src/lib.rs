//! Session routing between client applications and trusted applications (TAs).
//!
//! The library keeps the bookkeeping of a vsock front end: which TA instances
//! exist, which client session belongs to which instance, when a TA has to be
//! started, and how packets are framed on their way to it. Sockets, processes,
//! locks and clocks stay with the caller, who hands in what they reported.

pub mod bytes;
pub mod connection;
pub mod format_laws;
pub mod ids;
pub mod instance;
pub mod instance_laws;
pub mod laws;
pub mod locate;
pub mod open;
pub mod open_laws;
pub mod packet;
pub mod protocol;
pub mod psk;
pub mod registry;
pub mod registry_laws;
pub mod runs;
pub mod session;
pub mod session_laws;
pub mod session_table;
pub mod text;
mod uuid_map;
