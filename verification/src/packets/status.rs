//! The status phase messages: the status request and its JSON response,
//! and the ping request with its echoed timestamp.

use vstd::prelude::*;

use crate::errors::PacketReadError;
use crate::packet::{frame_bytes, le_bytes, le_value, PacketReader, PacketWriter};
use crate::packets::string_field;

verus! {

/// The empty status request.
pub struct StatusServerboundStatusRequest {}

impl StatusServerboundStatusRequest {
    /// The status-request packet id.
    pub fn packet_id() -> (r: i32)
        ensures
            r == 0,
    {
        0x00
    }

    /// Read a status request: it carries no fields.
    pub fn read(reader: &mut PacketReader) -> (r: Result<
        StatusServerboundStatusRequest,
        PacketReadError,
    >)
        requires
            old(reader).wf(),
        ensures
            final(reader).wf(),
            *final(reader) == *old(reader),
            r is Ok,
    {
        Ok(StatusServerboundStatusRequest {})
    }
}

/// The ping request: an opaque client timestamp.
pub struct StatusServerboundPingRequest {
    pub timestamp: i64,
}

impl StatusServerboundPingRequest {
    /// The ping-request packet id.
    pub fn packet_id() -> (r: i32)
        ensures
            r == 1,
    {
        0x01
    }

    /// Read a ping request: one little-endian 64-bit timestamp.
    pub fn read(reader: &mut PacketReader) -> (r: Result<
        StatusServerboundPingRequest,
        PacketReadError,
    >)
        requires
            old(reader).wf(),
        ensures
            final(reader).wf(),
            match r {
                Ok(p) => old(reader).rem().len() >= 8 && p.timestamp == le_value(
                    old(reader).rem().take(8),
                ) as u64 as i64 && final(reader).rem() == old(reader).rem().skip(8),
                Err(e) => e is BufferUnderflow && old(reader).rem().len() < 8,
            },
    {
        match reader.read_long() {
            Ok(timestamp) => Ok(StatusServerboundPingRequest { timestamp }),
            Err(e) => Err(e),
        }
    }
}

/// The status response: one JSON document as a string.
pub struct StatusClientboundStatusResponse {
    pub json_response: String,
}

impl StatusClientboundStatusResponse {
    /// The status-response packet id.
    pub fn packet_id() -> (r: i32)
        ensures
            r == 0,
    {
        0x00
    }

    /// Build the response frame: the JSON document as a string field.
    pub fn build(&self) -> (r: Vec<u8>)
        requires
            string_field(self.json_response@).len() + 10 < 0x8000_0000,
        ensures
            r@ == frame_bytes(0, string_field(self.json_response@)),
    {
        let mut writer = PacketWriter::new(Self::packet_id());
        writer.write_string(self.json_response.as_str());
        proof {
            assert(writer.payload() =~= string_field(self.json_response@));
        }
        writer.build_uncompressed()
    }
}

/// The ping response: the client's timestamp, echoed verbatim.
pub struct StatusClientboundPingResponse {
    pub timestamp: i64,
}

impl StatusClientboundPingResponse {
    /// The ping-response packet id.
    pub fn packet_id() -> (r: i32)
        ensures
            r == 1,
    {
        0x01
    }

    /// Build the response frame: one little-endian 64-bit timestamp.
    pub fn build(&self) -> (r: Vec<u8>)
        ensures
            r@ == frame_bytes(1, le_bytes(self.timestamp as u64 as nat, 8)),
    {
        let mut writer = PacketWriter::new(Self::packet_id());
        writer.write_long(self.timestamp);
        proof {
            assert(writer.payload() =~= le_bytes(self.timestamp as u64 as nat, 8));
            crate::packet::lemma_le_bytes_len(self.timestamp as u64 as nat, 8);
        }
        writer.build_uncompressed()
    }
}

} // verus!
