//! The primitive wire codec: variable-length integers and length-prefixed
//! UTF-8 strings.
//!
//! A varint stores a 32-bit value in little-endian groups of 7 data bits;
//! the high bit of each byte says whether another group follows.  At most
//! 5 groups are accepted for a 32-bit value and 10 for a 64-bit one.
//! Readers take a buffer and a position and report how far they advanced;
//! writers append to the end of a buffer.

use vstd::prelude::*;

use crate::errors::PacketReadError;

verus! {

broadcast use vstd::utf8::group_utf8_lib;

/// Outcome of parsing a varint prefix of a byte sequence.
pub enum VarintParse {
    /// A terminated varint of `len` bytes denoting `value` (two's-complement
    /// bit pattern of the encoded 32-bit value).
    Done { value: u32, len: int },
    /// The bytes end before a terminating group: more data is needed.
    Incomplete,
    /// No terminating group within the first 5 bytes.
    TooLong,
}

/// Outcome of parsing a varlong prefix of a byte sequence.
pub enum VarlongParse {
    /// A terminated varlong of `len` bytes denoting `value`.
    Done { value: u64, len: int },
    /// The bytes end before a terminating group: more data is needed.
    Incomplete,
    /// No terminating group within the first 10 bytes.
    TooLong,
}

/// Parse a varint at the head of `s`, with `max_groups` groups still allowed.
/// Groups arrive least-significant first; bits shifted past bit 31 are lost,
/// exactly as a 32-bit register would lose them.
pub open spec fn parse_varint_rec(s: Seq<u8>, max_groups: nat) -> VarintParse
    decreases max_groups,
{
    if max_groups == 0 {
        VarintParse::TooLong
    } else if s.len() == 0 {
        VarintParse::Incomplete
    } else if s[0] < 0x80 {
        VarintParse::Done { value: s[0] as u32, len: 1 }
    } else {
        match parse_varint_rec(s.drop_first(), (max_groups - 1) as nat) {
            VarintParse::Done { value, len } => VarintParse::Done {
                value: (((s[0] - 0x80) + 0x80 * value) % 0x1_0000_0000) as u32,
                len: len + 1,
            },
            VarintParse::Incomplete => VarintParse::Incomplete,
            VarintParse::TooLong => VarintParse::TooLong,
        }
    }
}

/// Parse a varint (at most 5 groups) at the head of `s`.
pub open spec fn parse_varint(s: Seq<u8>) -> VarintParse {
    parse_varint_rec(s, 5)
}

/// A terminated varint takes between 1 and `max_groups` bytes, all of
/// them present in the buffer.
pub proof fn lemma_parse_varint_done_len(s: Seq<u8>, max_groups: nat)
    ensures
        parse_varint_rec(s, max_groups) matches VarintParse::Done { value, len } ==> 1 <= len
            <= max_groups && len <= s.len(),
    decreases max_groups,
{
    if max_groups > 0 && s.len() > 0 && s[0] >= 0x80 {
        lemma_parse_varint_done_len(s.drop_first(), (max_groups - 1) as nat);
    }
}

/// Parse a varlong at the head of `s`, with `max_groups` groups still allowed.
pub open spec fn parse_varlong_rec(s: Seq<u8>, max_groups: nat) -> VarlongParse
    decreases max_groups,
{
    if max_groups == 0 {
        VarlongParse::TooLong
    } else if s.len() == 0 {
        VarlongParse::Incomplete
    } else if s[0] < 0x80 {
        VarlongParse::Done { value: s[0] as u64, len: 1 }
    } else {
        match parse_varlong_rec(s.drop_first(), (max_groups - 1) as nat) {
            VarlongParse::Done { value, len } => VarlongParse::Done {
                value: (((s[0] - 0x80) + 0x80 * value) % 0x1_0000_0000_0000_0000) as u64,
                len: len + 1,
            },
            VarlongParse::Incomplete => VarlongParse::Incomplete,
            VarlongParse::TooLong => VarlongParse::TooLong,
        }
    }
}

/// Parse a varlong (at most 10 groups) at the head of `s`.
pub open spec fn parse_varlong(s: Seq<u8>) -> VarlongParse {
    parse_varlong_rec(s, 10)
}

/// The bytes of the varint encoding of `v`: 7 bits per group, least
/// significant group first, high bit set on every group but the last.
pub open spec fn varint_bytes(v: u32) -> Seq<u8>
    decreases v,
{
    if v < 0x80 {
        seq![v as u8]
    } else {
        seq![(v % 0x80 + 0x80) as u8] + varint_bytes(v / 0x80)
    }
}

/// The bytes of the varlong encoding of `v`.
pub open spec fn varlong_bytes(v: u64) -> Seq<u8>
    decreases v,
{
    if v < 0x80 {
        seq![v as u8]
    } else {
        seq![(v % 0x80 + 0x80) as u8] + varlong_bytes(v / 0x80)
    }
}

/// How many bytes the varint encoding of `v` takes.
pub open spec fn varint_len(v: u32) -> int {
    if v < 0x80 {
        1
    } else if v < 0x4000 {
        2
    } else if v < 0x20_0000 {
        3
    } else if v < 0x1000_0000 {
        4
    } else {
        5
    }
}

/// The varint encoding is as long as `varint_len` says.
pub proof fn lemma_varint_bytes_len(v: u32)
    ensures
        varint_bytes(v).len() == varint_len(v),
    decreases v,
{
    if v >= 0x80 {
        lemma_varint_bytes_len(v / 0x80);
    }
}

/// Round trip: a varint encoding followed by anything parses back to the
/// value it encodes, consuming exactly the encoding.
pub proof fn lemma_varint_round_trip(v: u32, rest: Seq<u8>)
    ensures
        parse_varint(varint_bytes(v) + rest) == (VarintParse::Done {
            value: v,
            len: varint_bytes(v).len() as int,
        }),
{
    lemma_varint_bytes_len(v);
    lemma_varint_round_trip_rec(v, rest, 5);
}

proof fn lemma_varint_round_trip_rec(v: u32, rest: Seq<u8>, max_groups: nat)
    requires
        varint_len(v) <= max_groups,
    ensures
        parse_varint_rec(varint_bytes(v) + rest, max_groups) == (VarintParse::Done {
            value: v,
            len: varint_bytes(v).len() as int,
        }),
    decreases v,
{
    let s = varint_bytes(v) + rest;
    if v < 0x80 {
        assert(s[0] == v as u8);
        assert(s[0] < 0x80);
    } else {
        let b0: u8 = (v % 0x80 + 0x80) as u8;
        assert(s[0] == b0);
        assert(b0 >= 0x80);
        lemma_varint_bytes_len(v);
        lemma_varint_bytes_len(v / 0x80);
        assert(varint_len(v / 0x80) < varint_len(v)) by (bit_vector)
            requires
                v >= 0x80,
        ;
        assert(s.drop_first() =~= varint_bytes(v / 0x80) + rest);
        lemma_varint_round_trip_rec(v / 0x80, rest, (max_groups - 1) as nat);
        assert((((b0 - 0x80) + 0x80 * (v / 0x80)) % 0x1_0000_0000) as u32 == v) by (bit_vector)
            requires
                v >= 0x80,
                b0 == (v % 0x80 + 0x80) as u8,
        ;
    }
}

/// A parsed byte block consumes between one byte and the whole buffer.
pub proof fn lemma_parse_byte_block_adv(s: Seq<u8>)
    ensures
        parse_byte_block(s) matches Ok((b, adv)) ==> 1 <= adv <= s.len(),
{
    lemma_parse_varint_done_len(s, 5);
}

/// Read a varint from `buf` starting at `pos`.  On success the result pairs
/// the decoded value with the position just past the varint.  `EmptyBuf`
/// asks the caller to wait for more bytes; `TooLong` is a protocol error.
pub fn read_varint(buf: &Vec<u8>, pos: usize) -> (r: Result<(i32, usize), PacketReadError>)
    requires
        pos <= buf@.len(),
    ensures
        match r {
            Ok((v, end)) => {
                &&& parse_varint(buf@.skip(pos as int)) matches VarintParse::Done { value, len }
                    && v == value as i32 && end == pos + len
                &&& pos < end <= buf@.len()
            },
            Err(PacketReadError::EmptyBuf) => parse_varint(buf@.skip(pos as int))
                is Incomplete,
            Err(PacketReadError::TooLong) => parse_varint(buf@.skip(pos as int)) is TooLong,
            Err(_) => false,
        },
{
    match read_varint_rec(buf, pos, 5) {
        Ok((v, end)) => Ok((v as i32, end)),
        Err(e) => Err(e),
    }
}

/// Read a varlong from `buf` starting at `pos`.
pub fn read_varlong(buf: &Vec<u8>, pos: usize) -> (r: Result<(i64, usize), PacketReadError>)
    requires
        pos <= buf@.len(),
    ensures
        match r {
            Ok((v, end)) => {
                &&& parse_varlong(buf@.skip(pos as int)) matches VarlongParse::Done { value, len }
                    && v == value as i64 && end == pos + len
                &&& pos < end <= buf@.len()
            },
            Err(PacketReadError::EmptyBuf) => parse_varlong(buf@.skip(pos as int))
                is Incomplete,
            Err(PacketReadError::TooLong) => parse_varlong(buf@.skip(pos as int)) is TooLong,
            Err(_) => false,
        },
{
    match read_varlong_rec(buf, pos, 10) {
        Ok((v, end)) => Ok((v as i64, end)),
        Err(e) => Err(e),
    }
}

fn read_varint_rec(buf: &Vec<u8>, pos: usize, max_groups: u8) -> (r: Result<
    (u32, usize),
    PacketReadError,
>)
    requires
        pos <= buf@.len(),
    ensures
        match r {
            Ok((v, end)) => {
                &&& parse_varint_rec(buf@.skip(pos as int), max_groups as nat)
                    matches VarintParse::Done { value, len } && v == value && end == pos + len
                &&& pos < end <= buf@.len()
            },
            Err(PacketReadError::EmptyBuf) => parse_varint_rec(
                buf@.skip(pos as int),
                max_groups as nat,
            ) is Incomplete,
            Err(PacketReadError::TooLong) => parse_varint_rec(
                buf@.skip(pos as int),
                max_groups as nat,
            ) is TooLong,
            Err(_) => false,
        },
    decreases max_groups,
{
    if max_groups == 0 {
        return Err(PacketReadError::TooLong);
    }
    if pos >= buf.len() {
        return Err(PacketReadError::EmptyBuf);
    }
    let b: u8 = buf[pos];
    assert(buf@.skip(pos as int)[0] == b);
    if b < 0x80 {
        return Ok((b as u32, pos + 1));
    }
    proof {
        assert(buf@.skip(pos as int).drop_first() =~= buf@.skip(pos as int + 1));
    }
    match read_varint_rec(buf, pos + 1, max_groups - 1) {
        Ok((v, end)) => {
            let value: u32 = ((b - 0x80) as u32) | (v << 7u32);
            proof {
                let s = buf@.skip(pos as int);
                assert(s.drop_first() =~= buf@.skip(pos as int + 1));
                let rec = parse_varint_rec(s.drop_first(), (max_groups - 1) as nat);
                assert(rec matches VarintParse::Done { value: rv, len: rl } && rv == v && end
                    == pos + 1 + rl);
                assert((((b - 0x80) as u32) | (v << 7u32)) == (((b - 0x80) + 0x80 * v)
                    % 0x1_0000_0000) as u32) by (bit_vector)
                    requires
                        b >= 0x80,
                ;
                assert(parse_varint_rec(s, max_groups as nat) matches VarintParse::Done {
                    value: pv,
                    len: pl,
                } && pv == value && pl == end - pos);
            }
            Ok((value, end))
        },
        Err(e) => Err(e),
    }
}

fn read_varlong_rec(buf: &Vec<u8>, pos: usize, max_groups: u8) -> (r: Result<
    (u64, usize),
    PacketReadError,
>)
    requires
        pos <= buf@.len(),
    ensures
        match r {
            Ok((v, end)) => {
                &&& parse_varlong_rec(buf@.skip(pos as int), max_groups as nat)
                    matches VarlongParse::Done { value, len } && v == value && end == pos + len
                &&& pos < end <= buf@.len()
            },
            Err(PacketReadError::EmptyBuf) => parse_varlong_rec(
                buf@.skip(pos as int),
                max_groups as nat,
            ) is Incomplete,
            Err(PacketReadError::TooLong) => parse_varlong_rec(
                buf@.skip(pos as int),
                max_groups as nat,
            ) is TooLong,
            Err(_) => false,
        },
    decreases max_groups,
{
    if max_groups == 0 {
        return Err(PacketReadError::TooLong);
    }
    if pos >= buf.len() {
        return Err(PacketReadError::EmptyBuf);
    }
    let b: u8 = buf[pos];
    assert(buf@.skip(pos as int)[0] == b);
    if b < 0x80 {
        return Ok((b as u64, pos + 1));
    }
    proof {
        assert(buf@.skip(pos as int).drop_first() =~= buf@.skip(pos as int + 1));
    }
    match read_varlong_rec(buf, pos + 1, max_groups - 1) {
        Ok((v, end)) => {
            let value: u64 = ((b - 0x80) as u64) | (v << 7u64);
            proof {
                assert(buf@.skip(pos as int).drop_first() =~= buf@.skip(pos as int + 1));
                assert((((b - 0x80) as u64) | (v << 7u64)) == (((b - 0x80) + 0x80 * v)
                    % 0x1_0000_0000_0000_0000) as u64) by (bit_vector)
                    requires
                        b >= 0x80,
                ;
            }
            Ok((value, end))
        },
        Err(e) => Err(e),
    }
}

/// Append the varint encoding of `value` (by its unsigned bit pattern, so a
/// negative value always takes 5 bytes) to `buf`.
pub fn write_varint(buf: &mut Vec<u8>, value: i32)
    ensures
        final(buf)@ == old(buf)@ + varint_bytes(value as u32),
{
    write_varuint32(buf, value as u32);
}

/// Append the varlong encoding of `value` to `buf`.
pub fn write_varlong(buf: &mut Vec<u8>, value: i64)
    ensures
        final(buf)@ == old(buf)@ + varlong_bytes(value as u64),
{
    write_varuint64(buf, value as u64);
}

fn write_varuint32(buf: &mut Vec<u8>, v: u32)
    ensures
        final(buf)@ == old(buf)@ + varint_bytes(v),
    decreases v,
{
    if v < 0x80 {
        buf.push(v as u8);
        assert(buf@ =~= old(buf)@ + varint_bytes(v));
    } else {
        buf.push((v % 0x80 + 0x80) as u8);
        write_varuint32(buf, v / 0x80);
        assert(buf@ =~= old(buf)@ + varint_bytes(v));
    }
}

/// A character's UTF-8 encoding takes at most four bytes.
pub proof fn lemma_encode_utf8_len(s: Seq<char>)
    ensures
        vstd::utf8::encode_utf8(s).len() <= 4 * s.len(),
    decreases s.len(),
{
    if s.len() > 0 {
        assert(vstd::utf8::encode_scalar(s[0] as u32).len() <= 4);
        lemma_encode_utf8_len(s.drop_first());
    }
}

/// Relies on `String::from_utf8`: it returns `Ok` exactly when the bytes are
/// a valid UTF-8 encoding, and then decodes them.
#[verifier::external_body]
fn string_from_utf8(bytes: Vec<u8>) -> (r: Option<String>)
    ensures
        r is Some <==> vstd::utf8::valid_utf8(bytes@),
        r matches Some(s) ==> s@ == vstd::utf8::decode_utf8(bytes@),
{
    match String::from_utf8(bytes) {
        Ok(s) => Some(s),
        Err(_) => None,
    }
}

/// What a length-prefixed UTF-8 string at the head of `s` parses to: the
/// characters and the bytes consumed, or the exact error.  The declared
/// byte length is a varint read as a signed 32-bit value, exactly as the
/// wire format has it; a negative declared length can never be satisfied
/// and is an underflow.
pub open spec fn parse_string(s: Seq<u8>) -> Result<(Seq<char>, int), PacketReadError> {
    match parse_varint(s) {
        VarintParse::Done { value, len } => {
            let l = value as i32;
            if !(l >= 0 && len + l <= s.len()) {
                Err(PacketReadError::BufferUnderflow)
            } else if vstd::utf8::valid_utf8(s.subrange(len, len + l)) {
                Ok((vstd::utf8::decode_utf8(s.subrange(len, len + l)), len + l))
            } else {
                Err(PacketReadError::Utf8Error)
            }
        },
        VarintParse::Incomplete => Err(PacketReadError::EmptyBuf),
        VarintParse::TooLong => Err(PacketReadError::TooLong),
    }
}

/// A parsed string consumes between one byte and the whole buffer.
pub proof fn lemma_parse_string_adv(s: Seq<u8>)
    ensures
        parse_string(s) matches Ok((chars, adv)) ==> 1 <= adv <= s.len(),
{
    lemma_parse_varint_done_len(s, 5);
}

/// What a varint-length-prefixed byte array at the head of `s` parses to:
/// the bytes and the amount consumed, or the exact error.
pub open spec fn parse_byte_block(s: Seq<u8>) -> Result<(Seq<u8>, int), PacketReadError> {
    match parse_varint(s) {
        VarintParse::Done { value, len } => {
            let l = value as i32;
            if !(l >= 0 && len + l <= s.len()) {
                Err(PacketReadError::BufferUnderflow)
            } else {
                Ok((s.subrange(len, len + l), len + l))
            }
        },
        VarintParse::Incomplete => Err(PacketReadError::EmptyBuf),
        VarintParse::TooLong => Err(PacketReadError::TooLong),
    }
}

/// Read a length-prefixed UTF-8 string from `buf` starting at `pos`.  The
/// outcome (value and new position on success, or the exact error) is pinned
/// down by [`parse_string`].
pub fn read_string(buf: &Vec<u8>, pos: usize) -> (r: Result<(String, usize), PacketReadError>)
    requires
        pos <= buf@.len(),
    ensures
        match r {
            Ok((s, end)) => parse_string(buf@.skip(pos as int)) == Ok::<_, PacketReadError>(
                (s@, end - pos as int),
            ) && pos <= end <= buf@.len(),
            Err(e) => parse_string(buf@.skip(pos as int)) == Err::<(Seq<char>, int), _>(e),
        },
{
    let (length, data_start) = match read_varint(buf, pos) {
        Ok(v) => v,
        Err(e) => {
            return Err(e);
        },
    };
    if length < 0 {
        return Err(PacketReadError::BufferUnderflow);
    }
    let length: usize = length as usize;
    if length > buf.len() - data_start {
        proof {
            let tail = buf@.skip(pos as int);
            assert(tail.len() == buf@.len() - pos);
        }
        return Err(PacketReadError::BufferUnderflow);
    }
    let end: usize = data_start + length;
    let bytes: Vec<u8> = vstd::slice::slice_to_vec(vstd::slice::slice_subrange(
        buf.as_slice(),
        data_start,
        end,
    ));
    proof {
        let tail = buf@.skip(pos as int);
        let len = (parse_varint(tail)->Done_len);
        assert(bytes@ =~= tail.subrange(len, len + length));
    }
    match string_from_utf8(bytes) {
        Some(s) => Ok((s, end)),
        None => Err(PacketReadError::Utf8Error),
    }
}

/// Round trip: writing a string and reading it back yields the same
/// characters, whatever follows the encoding in the buffer.
pub proof fn lemma_string_round_trip(s: Seq<char>, rest: Seq<u8>)
    requires
        vstd::utf8::encode_utf8(s).len() <= 0x7fffffff,
    ensures
        ({
            let bytes = vstd::utf8::encode_utf8(s);
            let prefix = varint_bytes(bytes.len() as u32);
            parse_string(prefix + bytes + rest) == Ok::<_, PacketReadError>(
                (s, prefix.len() + bytes.len() as int),
            )
        }),
{
    let bytes = vstd::utf8::encode_utf8(s);
    let prefix = varint_bytes(bytes.len() as u32);
    let tail = prefix + bytes + rest;
    assert(tail =~= prefix + (bytes + rest));
    lemma_varint_round_trip(bytes.len() as u32, bytes + rest);
    lemma_varint_bytes_len(bytes.len() as u32);
    let len = prefix.len() as int;
    assert(tail.subrange(len, len + bytes.len()) =~= bytes);
    vstd::utf8::encode_utf8_valid_utf8(s);
    vstd::utf8::encode_utf8_decode_utf8(s);
}

/// Append the length-prefixed UTF-8 encoding of `data` to `buf`: the byte
/// length as a varint, then the bytes themselves.
pub fn write_string(buf: &mut Vec<u8>, data: &str)
    requires
        vstd::utf8::encode_utf8(data@).len() <= 0x7fffffff,
    ensures
        final(buf)@ == old(buf)@ + varint_bytes(vstd::utf8::encode_utf8(data@).len() as u32)
            + vstd::utf8::encode_utf8(data@),
{
    let bytes: &[u8] = data.as_bytes();
    write_varint(buf, bytes.len() as i32);
    buf.extend_from_slice(bytes);
    assert(final(buf)@ =~= old(buf)@ + varint_bytes(
        vstd::utf8::encode_utf8(data@).len() as u32,
    ) + vstd::utf8::encode_utf8(data@));
}

fn write_varuint64(buf: &mut Vec<u8>, v: u64)
    ensures
        final(buf)@ == old(buf)@ + varlong_bytes(v),
    decreases v,
{
    if v < 0x80 {
        buf.push(v as u8);
        assert(buf@ =~= old(buf)@ + varlong_bytes(v));
    } else {
        buf.push((v % 0x80 + 0x80) as u8);
        write_varuint64(buf, v / 0x80);
        assert(buf@ =~= old(buf)@ + varlong_bytes(v));
    }
}

} // verus!
