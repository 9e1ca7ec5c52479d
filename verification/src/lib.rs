//! Verified core of the `msy` file synchronisation tool: the streaming wire
//! protocol, the delta operation codec, the destination index, the path
//! checks that the receiver applies to what it is told to write, the
//! decisions of the client and server sides of a sync, and the keys and
//! command lines of the transports.

pub mod delta;
pub mod server;
pub mod streaming;
pub mod transport;
