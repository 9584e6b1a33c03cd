//! The connection lifecycle of a real-time server whose clients each speak over
//! two transports: a reliable WebSocket and an unreliable WebRTC data channel
//! negotiated over that WebSocket.
//!
//! Every actor of the server is written here as a transition function from its
//! state and one input to its next state and the effects to carry out. The
//! program that embeds the library owns the sockets and the tasks, performs the
//! effects and hands the next input back.

pub mod event;
pub mod queue;

pub use event::{Event, EventModel, Identifier};
pub use queue::EventQueue;
pub mod connection;
pub mod lifecycle;
pub mod peer;
pub mod server;
pub mod signal;
