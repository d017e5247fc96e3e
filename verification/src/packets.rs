//! The message catalog: one type per wire message, each knowing its own
//! packet id and its read or build method.

use vstd::prelude::*;

pub mod configuration;
pub mod handshaking;
pub mod login;
pub mod status;

verus! {

use crate::packet_utils::varint_bytes;

/// The wire form of a string field: its UTF-8 byte length as a varint,
/// then the bytes.
pub open spec fn string_field(s: Seq<char>) -> Seq<u8> {
    varint_bytes(vstd::utf8::encode_utf8(s).len() as u32) + vstd::utf8::encode_utf8(s)
}

/// The wire form of a byte-array field: its length as a varint, then the
/// bytes.
pub open spec fn bytes_field(b: Seq<u8>) -> Seq<u8> {
    varint_bytes(b.len() as u32) + b
}

/// The wire form of a boolean field.
pub open spec fn bool_byte(b: bool) -> Seq<u8> {
    seq![
        (if b {
            1u8
        } else {
            0u8
        }),
    ]
}

} // verus!
