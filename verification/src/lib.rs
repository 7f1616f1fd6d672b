//! Authoritative server engine for short two-player paddle matches over an
//! unreliable datagram transport.
//!
//! The crate holds the seat registry, the fixed-step simulation, the wire
//! codec, the message dispatcher, the client table and the matchmaking queue.
//! Sockets, clocks and timers stay with the caller: every function here takes
//! the current time in milliseconds and the sender's address as plain values
//! and hands back the datagrams to send.
//!
//! Coordinates are fixed-point numbers with twenty fractional bits; the unit
//! square of the playing field is `[0, ONE] x [0, ONE]`.

pub mod address;
pub mod ball;
pub mod codec;
pub mod connection;
pub mod error;
pub mod fixed;
pub mod game_update;
pub mod handler;
pub mod matchmaking;
pub mod model;
pub mod player;
mod random;
pub mod registry;
pub mod server;
pub mod state;
