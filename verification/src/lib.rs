//! Session and transport core of a proximity voice chat: clients stream the audio of their
//! microphones to a relay, and the relay sends audio back to them.
//!
//! The library owns no socket and no device. Whoever drives it makes the reads and writes and
//! hands their outcomes in; the library decides what they mean, and says what to do next.

pub mod client;
pub mod comms;
pub mod connect_hook;
pub mod decimal;
pub mod identity;
pub mod ipconfig;
pub mod packet;
pub mod server;
pub mod shared;
pub mod sweep;
pub mod text;
pub mod window;
pub mod wire;
