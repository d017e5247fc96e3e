//! Error taxonomy of the protocol engine.
//!
//! Frame-level read errors are local to one frame and leave the connection
//! alive; protocol-order errors surface as a disconnect; both are plain data
//! here so that contracts can name them exactly.

use vstd::prelude::*;

verus! {

/// Why handling one inbound frame failed.
#[derive(Debug)]
pub enum PacketHandleError {
    /// The frame's packet ID is not valid in the current connection state.
    BadId(i32),
    /// A typed field of the frame could not be read.
    ReadError(PacketReadError),
}

/// Why reading a primitive value out of a buffer failed.
#[derive(Debug)]
pub enum PacketReadError {
    /// The buffer ran out in the middle of a varint: wait for more bytes.
    EmptyBuf,
    /// Fewer bytes remain than a typed field needs.
    BufferUnderflow,
    /// A varint ran past its maximum number of groups.
    TooLong,
    /// A string's bytes are not valid UTF-8.
    Utf8Error,
    /// A decoded value is outside the set the protocol allows here.
    UnexpectedValue,
    /// A value could not be converted to its target form.
    ConvertationIssue(String),
}

impl PacketHandleError {
    /// A human-readable description, in place of a `Display` impl.
    pub fn describe(&self) -> (r: String)
        ensures
            r@ == match *self {
                PacketHandleError::BadId(_) => "Bad packet ID"@,
                PacketHandleError::ReadError(e) => "ReadError during handling: "@
                    + spec_read_error_text(e),
            },
    {
        match self {
            PacketHandleError::BadId(_) => "Bad packet ID".to_owned(),
            PacketHandleError::ReadError(e) => {
                let mut text: String = "ReadError during handling: ".to_owned();
                let detail: String = e.describe();
                text.append(detail.as_str());
                text
            },
        }
    }
}

/// The description of a read error.
pub open spec fn spec_read_error_text(e: PacketReadError) -> Seq<char> {
    match e {
        PacketReadError::EmptyBuf => "Empty buffer"@,
        PacketReadError::BufferUnderflow => "Buffer underflow"@,
        PacketReadError::TooLong => "Too long"@,
        PacketReadError::Utf8Error => "UTF-8 Error"@,
        PacketReadError::UnexpectedValue => "Unexpected value"@,
        PacketReadError::ConvertationIssue(d) => "Convertation issue: "@ + d@,
    }
}

impl PacketReadError {
    /// A human-readable description, in place of a `Display` impl.
    pub fn describe(&self) -> (r: String)
        ensures
            r@ == spec_read_error_text(*self),
    {
        match self {
            PacketReadError::EmptyBuf => "Empty buffer".to_owned(),
            PacketReadError::BufferUnderflow => "Buffer underflow".to_owned(),
            PacketReadError::TooLong => "Too long".to_owned(),
            PacketReadError::Utf8Error => "UTF-8 Error".to_owned(),
            PacketReadError::UnexpectedValue => "Unexpected value".to_owned(),
            PacketReadError::ConvertationIssue(d) => {
                let mut text: String = "Convertation issue: ".to_owned();
                text.append(d.as_str());
                text
            },
        }
    }
}

impl From<PacketReadError> for PacketHandleError {
    fn from(err: PacketReadError) -> (r: PacketHandleError) {
        PacketHandleError::ReadError(err)
    }
}

impl vstd::std_specs::convert::FromSpecImpl<PacketReadError> for PacketHandleError {
    open spec fn obeys_from_spec() -> bool {
        true
    }

    open spec fn from_spec(err: PacketReadError) -> PacketHandleError {
        PacketHandleError::ReadError(err)
    }
}

/// Why the remote session-server lookup failed.
#[derive(Debug)]
pub enum ObjectResponseError {
    /// The HTTP request itself failed.
    ReqwestError(String),
    /// The response body could not be parsed.
    SerdeParseError(String),
}

impl ObjectResponseError {
    /// A human-readable description, in place of a `Display` impl.
    pub fn describe(&self) -> (r: String)
        ensures
            r@ == match *self {
                ObjectResponseError::ReqwestError(e) => "Error while sending request: "@ + e@,
                ObjectResponseError::SerdeParseError(e) => "Failed to parse object: "@ + e@,
            },
    {
        match self {
            ObjectResponseError::ReqwestError(e) => {
                let mut text: String = "Error while sending request: ".to_owned();
                text.append(e.as_str());
                text
            },
            ObjectResponseError::SerdeParseError(e) => {
                let mut text: String = "Failed to parse object: ".to_owned();
                text.append(e.as_str());
                text
            },
        }
    }
}

} // verus!
