//! Solarman V5 data-logger framing: request encoding, response decoding and
//! the protocol state of one logger session.

pub mod codec;
pub mod session;
pub mod readings;
pub mod config;
