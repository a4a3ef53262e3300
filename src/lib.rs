//! Framing, encoding and decoding of PostgreSQL frontend/backend protocol
//! (version 3) messages, with the byte layout of every message stated and
//! proved.

pub mod buffer;
pub mod codec;
pub mod decimal;
pub mod encode;
pub mod error;
pub mod laws;
pub mod message;
pub mod retry;
pub mod wire;
