//! A minimal key-value store spoken over a byte-framed request protocol.
//!
//! The library holds the wire codec, the command vocabulary, the in-memory
//! store and the per-connection request interpreter. Sockets, prompts and
//! the accept loop are left to the program that embeds it.

pub mod command;
pub mod codec;
pub mod store;
pub mod handler;
pub mod laws;
