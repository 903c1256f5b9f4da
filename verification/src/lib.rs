//! Server-side engine for a stateful, length-framed binary network protocol.
//!
//! The crate is organised bottom-up: `wire` gives the byte-level model of the
//! encoding (big-endian integers, variable-length integers, length-prefixed
//! strings), `bytebuf` the executable byte cursor, the per-phase packet
//! modules the packet shapes, `frame` the reassembly of discrete frames out
//! of a chunked byte stream, and `engine` the per-connection phase state
//! machine that decides, for each inbound packet, the response packets and
//! the next phase.
#![allow(unused_imports)]
#![verifier::loop_isolation(false)]

use vstd::prelude::*;

pub mod bytebuf;
pub mod configuration;
pub mod engine;
pub mod frame;
pub mod handshake;
pub mod json;
pub mod login;
pub mod packet;
pub mod play;
pub mod property;
pub mod status;
pub mod wire;
