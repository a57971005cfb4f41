//! A server for string commands over a pluggable store.
//!
//! A frame that comes off a connection is read into a command
//! (`executor`), the command is executed against a backend
//! (`redis_server::DB`) and the reply goes back as bytes (`reply`,
//! `texts`). The backend is a map in memory (`simple_mem_db`) or a cluster
//! of storage nodes that is found through a placement directory (`tikv`).
//! What happens on a connection and on the way to a storage node is decided
//! here, step by step; sockets, threads and remote calls are left to the
//! program around this library.

pub mod executor;
pub mod redis_server;
pub mod reply;
pub mod simple_mem_db;
pub mod texts;
pub mod tikv;
pub mod wire;
