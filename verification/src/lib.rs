//! A verified implementation of the early phases of the Minecraft-style
//! client/server protocol: handshake, status (server list ping) and login,
//! including the encrypted, authenticated login handshake.
//!
//! The library is the protocol engine alone: the varint/string codec, the
//! packet framing, the stream-cipher adapter, the session hash and the
//! per-connection state machine.  Sockets, configuration files, logging
//! sinks and the HTTP call to the session server live outside, around it.

use vstd::prelude::*;

pub mod aes_util;
pub mod auth_hash;
pub mod bitmasks;
pub mod config;
pub mod connection;
pub mod errors;
pub mod identifier;
pub mod json_text;
pub mod logger;
pub mod mojauth;
pub mod position;
pub mod rsa_util;
pub mod server;
pub mod frames;
pub mod packet;
pub mod packet_utils;
pub mod packets;
pub mod text;

verus! {

/// The protocol version this server speaks.
pub const PROTOCOL_VERSION: i32 = 767;

/// The game version label matching `PROTOCOL_VERSION`.
pub fn version_label() -> (s: &'static str)
    ensures
        s@ == "1.21"@,
{
    "1.21"
}

} // verus!
