//! Core of a password-authenticated key-exchange link over an unreliable,
//! stream-oriented byte transport: frame reassembly, a delimiter-free wire
//! codec, a single-slot credential store, and the server- and client-side
//! handshake orchestrators.

pub mod client;
pub mod codec;
pub mod msg;
pub mod receiver;
pub mod server;
pub mod store;
