//! The handshake, the one serverbound message of the first phase.

use vstd::prelude::*;

use crate::errors::PacketReadError;
use crate::packet::{le_value, PacketReader};
use crate::packet_utils::{parse_string, parse_varint, VarintParse};

verus! {

/// Where the client wants to go after the handshake.
#[derive(Debug, Clone, Copy, PartialEq, Eq, Structural)]
pub enum HandshakeNextState {
    Status,
    Login,
    Transfer,
}

impl HandshakeNextState {
    /// The state's name.
    pub fn to_string(&self) -> (r: String)
        ensures
            r@ == match *self {
                HandshakeNextState::Status => "Status"@,
                HandshakeNextState::Login => "Login"@,
                HandshakeNextState::Transfer => "Transfer"@,
            },
    {
        match self {
            HandshakeNextState::Status => "Status".to_owned(),
            HandshakeNextState::Login => "Login".to_owned(),
            HandshakeNextState::Transfer => "Transfer".to_owned(),
        }
    }
}

/// The next-state selector: 1 is Status, 2 is Login, 3 is Transfer, and
/// anything else is a protocol error.
pub open spec fn next_state_of(v: i32) -> Result<HandshakeNextState, PacketReadError> {
    if v == 1 {
        Ok(HandshakeNextState::Status)
    } else if v == 2 {
        Ok(HandshakeNextState::Login)
    } else if v == 3 {
        Ok(HandshakeNextState::Transfer)
    } else {
        Err(PacketReadError::UnexpectedValue)
    }
}

/// What a handshake payload parses to: protocol version, server address,
/// server port, next state, and the bytes consumed; or the exact error.
pub open spec fn parse_handshake(s: Seq<u8>) -> Result<
    (i32, Seq<char>, u16, HandshakeNextState, int),
    PacketReadError,
> {
    match parse_varint(s) {
        VarintParse::Done { value: pv, len: l1 } => match parse_string(s.skip(l1)) {
            Ok((addr, l2)) => {
                let t = s.skip(l1 + l2);
                if t.len() < 2 {
                    Err(PacketReadError::BufferUnderflow)
                } else {
                    match parse_varint(t.skip(2)) {
                        VarintParse::Done { value: ns, len: l3 } => match next_state_of(
                            ns as i32,
                        ) {
                            Ok(n) => Ok(
                                (
                                    pv as i32,
                                    addr,
                                    le_value(t.take(2)) as u16,
                                    n,
                                    l1 + l2 + 2 + l3,
                                ),
                            ),
                            Err(e) => Err(e),
                        },
                        VarintParse::Incomplete => Err(PacketReadError::EmptyBuf),
                        VarintParse::TooLong => Err(PacketReadError::TooLong),
                    }
                }
            },
            Err(e) => Err(e),
        },
        VarintParse::Incomplete => Err(PacketReadError::EmptyBuf),
        VarintParse::TooLong => Err(PacketReadError::TooLong),
    }
}

/// The handshake: protocol version, target address and port, and the state
/// the client asks to enter next.
pub struct HandshakingServerboundHandshake {
    pub protocol_version: i32,
    pub server_address: String,
    pub server_port: u16,
    pub next_state: HandshakeNextState,
}

impl HandshakingServerboundHandshake {
    /// The handshake packet id.
    pub fn packet_id() -> (r: i32)
        ensures
            r == 0,
    {
        0x00
    }

    /// Read a handshake from the frame payload.
    pub fn read(reader: &mut PacketReader) -> (r: Result<
        HandshakingServerboundHandshake,
        PacketReadError,
    >)
        requires
            old(reader).wf(),
        ensures
            final(reader).wf(),
            match r {
                Ok(p) => parse_handshake(old(reader).rem()) matches Ok((pv, addr, port, ns, adv))
                    && p.protocol_version == pv && p.server_address@ == addr && p.server_port
                    == port && p.next_state == ns && final(reader).rem() == old(
                    reader,
                ).rem().skip(adv),
                Err(e) => parse_handshake(old(reader).rem()) matches Err(e2) && e == e2,
            },
    {
        let ghost s0 = reader.rem();
        proof {
            crate::packet_utils::lemma_parse_varint_done_len(s0, 5);
        }
        let protocol_version: i32 = match reader.read_varint() {
            Ok(v) => v,
            Err(e) => {
                return Err(e);
            },
        };
        let ghost l1 = s0.len() - reader.rem().len();
        proof {
            assert(reader.rem() =~= s0.skip(l1));
            crate::packet_utils::lemma_parse_string_adv(s0.skip(l1));
        }
        let server_address: String = match reader.read_string() {
            Ok(v) => v,
            Err(e) => {
                return Err(e);
            },
        };
        let ghost l2 = s0.skip(l1).len() - reader.rem().len();
        proof {
            assert(reader.rem() =~= s0.skip(l1 + l2));
        }
        let server_port: u16 = match reader.read_ushort() {
            Ok(v) => v,
            Err(e) => {
                return Err(e);
            },
        };
        proof {
            assert(reader.rem() =~= s0.skip(l1 + l2).skip(2));
        }
        proof {
            crate::packet_utils::lemma_parse_varint_done_len(s0.skip(l1 + l2).skip(2), 5);
        }
        let raw_next: i32 = match reader.read_varint() {
            Ok(v) => v,
            Err(e) => {
                return Err(e);
            },
        };
        let ghost l3 = s0.skip(l1 + l2).skip(2).len() - reader.rem().len();
        proof {
            assert(reader.rem() =~= s0.skip(l1 + l2 + 2 + l3));
        }
        let next_state: HandshakeNextState = if raw_next == 1 {
            HandshakeNextState::Status
        } else if raw_next == 2 {
            HandshakeNextState::Login
        } else if raw_next == 3 {
            HandshakeNextState::Transfer
        } else {
            return Err(PacketReadError::UnexpectedValue);
        };
        Ok(
            HandshakingServerboundHandshake {
                protocol_version,
                server_address,
                server_port,
                next_state,
            },
        )
    }
}

} // verus!
