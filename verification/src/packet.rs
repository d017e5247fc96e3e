//! The frame payload cursor and builder.
//!
//! A [`PacketReader`] strips the leading packet-id varint off a raw frame
//! and then hands out typed fields one after another; every read fails with
//! a buffer-underflow error rather than panicking when too few bytes remain.
//! A [`PacketWriter`] mirrors it, and [`PacketWriter::build_uncompressed`]
//! wraps the accumulated payload into the outer
//! `[length][packet-id][payload]` envelope, where the length covers the id
//! and the payload together.
//!
//! All multi-byte integers are little-endian on the wire.

use vstd::prelude::*;

use crate::errors::PacketReadError;
use crate::packet_utils::{
    parse_byte_block, parse_string, parse_varint, read_string, read_varint, varint_bytes,
    write_string, write_varint, VarintParse,
};

verus! {

use vstd::arithmetic::power2::{pow2, lemma_pow2_adds, lemma2_to64, lemma_pow2_strictly_increases};

/// The value of a little-endian byte sequence, least significant byte first.
pub open spec fn le_value(s: Seq<u8>) -> nat
    decreases s.len(),
{
    if s.len() == 0 {
        0
    } else {
        (s[0] + 256 * le_value(s.drop_first())) as nat
    }
}

/// The `n` little-endian bytes of `v` (higher bytes of `v` are dropped).
pub open spec fn le_bytes(v: nat, n: nat) -> Seq<u8>
    decreases n,
{
    if n == 0 {
        seq![]
    } else {
        seq![(v % 256) as u8] + le_bytes(v / 256, (n - 1) as nat)
    }
}

/// A little-endian byte sequence is bounded by two to the power of its bit
/// width.
pub proof fn lemma_le_value_bound(s: Seq<u8>)
    ensures
        le_value(s) < pow2(8 * s.len()),
    decreases s.len(),
{
    lemma2_to64();
    if s.len() == 0 {
    } else {
        lemma_le_value_bound(s.drop_first());
        lemma_pow2_adds(8, (8 * (s.len() - 1)) as nat);
        assert(s[0] + 256 * le_value(s.drop_first()) < 256 * pow2(8 * (s.len() - 1) as nat))
            by (nonlinear_arith)
            requires
                s[0] < 256,
                le_value(s.drop_first()) < pow2(8 * (s.len() - 1) as nat),
        ;
    }
}

/// A little-endian rendering is exactly `n` bytes long.
pub proof fn lemma_le_bytes_len(v: nat, n: nat)
    ensures
        le_bytes(v, n).len() == n,
    decreases n,
{
    if n > 0 {
        lemma_le_bytes_len(v / 256, (n - 1) as nat);
    }
}

/// The outer wire envelope of one frame: the length of the id and payload
/// together as a varint, then the packet id as a varint, then the payload.
pub open spec fn frame_bytes(id: i32, payload: Seq<u8>) -> Seq<u8> {
    let body = varint_bytes(id as u32) + payload;
    varint_bytes(body.len() as u32) + body
}

/// Read the `n`-byte little-endian value starting at `pos`.
fn le_from(buf: &Vec<u8>, pos: usize, n: usize) -> (v: u128)
    requires
        pos + n <= buf@.len(),
        n <= 16,
    ensures
        v == le_value(buf@.subrange(pos as int, pos + n)),
{
    proof {
        lemma2_to64();
        lemma_pow2_adds(64, 64);
    }
    let blen: usize = buf.len();
    let mut acc: u128 = 0;
    let mut i: usize = n;
    while i > 0
        invariant
            pos + n <= buf@.len(),
            blen == buf@.len(),
            n <= 16,
            i <= n,
            acc == le_value(buf@.subrange(pos + i, pos + n)),
            acc < pow2((8 * (n - i)) as nat),
            pow2(128) == 0x1_0000_0000_0000_0000_0000_0000_0000_0000,
        decreases i,
    {
        i = i - 1;
        let b: u8 = buf[pos + i];
        proof {
            lemma2_to64();
            let whole = buf@.subrange(pos + i, pos + n);
            assert(whole.drop_first() =~= buf@.subrange(pos + i + 1, pos + n));
            assert(whole[0] == b);
            lemma_pow2_adds(8, (8 * (n - i - 1)) as nat);
            assert(b + 256 * acc < 256 * pow2((8 * (n - i - 1)) as nat)) by (nonlinear_arith)
                requires
                    b < 256,
                    acc < pow2((8 * (n - i - 1)) as nat),
            ;
            if 8 * (n - i) < 128 {
                lemma_pow2_strictly_increases((8 * (n - i)) as nat, 128);
            }
        }
        acc = b as u128 + 256 * acc;
    }
    assert(buf@.subrange(pos as int, pos + n) =~= buf@.subrange(pos + 0, pos + n));
    acc
}

/// Append the `n`-byte little-endian form of `v` to `buf`.
fn put_le(buf: &mut Vec<u8>, v: u128, n: usize)
    ensures
        final(buf)@ == old(buf)@ + le_bytes(v as nat, n as nat),
    decreases n,
{
    if n == 0 {
        assert(final(buf)@ =~= old(buf)@ + le_bytes(v as nat, 0));
    } else {
        buf.push((v % 256) as u8);
        put_le(buf, v / 256, n - 1);
        assert(final(buf)@ =~= old(buf)@ + le_bytes(v as nat, n as nat));
    }
}

/// A cursor over one frame's bytes, after the leading packet-id varint.
pub struct PacketReader {
    packet_id: i32,
    data: Vec<u8>,
    pos: usize,
}

impl PacketReader {
    /// The cursor never points past the end of the data.
    pub closed spec fn wf(&self) -> bool {
        self.pos <= self.data@.len()
    }

    /// The frame's packet id.
    pub closed spec fn spec_id(&self) -> i32 {
        self.packet_id
    }

    /// The bytes not yet consumed.
    pub closed spec fn rem(&self) -> Seq<u8> {
        self.data@.skip(self.pos as int)
    }

    /// Split a raw frame into its packet-id varint and the payload cursor.
    pub fn new(data: &[u8]) -> (r: Result<PacketReader, PacketReadError>)
        ensures
            match r {
                Ok(reader) => {
                    &&& parse_varint(data@) matches VarintParse::Done { value, len }
                        && reader.spec_id() == value as i32 && reader.rem() == data@.skip(len)
                    &&& reader.wf()
                },
                Err(PacketReadError::EmptyBuf) => parse_varint(data@) is Incomplete,
                Err(PacketReadError::TooLong) => parse_varint(data@) is TooLong,
                Err(_) => false,
            },
    {
        let buf: Vec<u8> = vstd::slice::slice_to_vec(data);
        proof {
            assert(buf@.skip(0) =~= data@);
        }
        let (packet_id, pos) = match read_varint(&buf, 0) {
            Ok(v) => v,
            Err(e) => {
                return Err(e);
            },
        };
        Ok(PacketReader { packet_id, data: buf, pos })
    }

    /// The frame's packet id.
    pub fn id(&self) -> (r: i32)
        ensures
            r == self.spec_id(),
    {
        self.packet_id
    }

    /// A copy of the bytes not yet consumed.
    pub fn data(&self) -> (r: Vec<u8>)
        requires
            self.wf(),
        ensures
            r@ == self.rem(),
    {
        vstd::slice::slice_to_vec(vstd::slice::slice_subrange(
            self.data.as_slice(),
            self.pos,
            self.data.len(),
        ))
    }

    /// How many bytes are not yet consumed.
    pub fn remaining(&self) -> (r: usize)
        requires
            self.wf(),
        ensures
            r == self.rem().len(),
    {
        self.data.len() - self.pos
    }

    /// Read a varint field.
    pub fn read_varint(&mut self) -> (r: Result<i32, PacketReadError>)
        requires
            old(self).wf(),
        ensures
            final(self).wf(),
            final(self).spec_id() == old(self).spec_id(),
            match r {
                Ok(v) => parse_varint(old(self).rem()) matches VarintParse::Done { value, len }
                    && v == value as i32 && final(self).rem() == old(self).rem().skip(len),
                Err(e) => final(self).rem() == old(self).rem() && ((e is EmptyBuf && parse_varint(
                    old(self).rem(),
                ) is Incomplete) || (e is TooLong && parse_varint(old(self).rem()) is TooLong)),
            },
    {
        match read_varint(&self.data, self.pos) {
            Ok((v, end)) => {
                proof {
                    let skipped = (end - self.pos) as int;
                    assert(self.data@.skip(end as int) =~= self.rem().skip(skipped));
                }
                self.pos = end;
                Ok(v)
            },
            Err(e) => Err(e),
        }
    }

    /// Read a length-prefixed UTF-8 string field.
    pub fn read_string(&mut self) -> (r: Result<String, PacketReadError>)
        requires
            old(self).wf(),
        ensures
            final(self).wf(),
            final(self).spec_id() == old(self).spec_id(),
            match r {
                Ok(s) => parse_string(old(self).rem()) matches Ok((chars, adv)) && s@ == chars
                    && final(self).rem() == old(self).rem().skip(adv),
                Err(e) => final(self).rem() == old(self).rem() && parse_string(old(self).rem())
                    == Err::<(Seq<char>, int), _>(e),
            },
    {
        let ghost pre = *self;
        match read_string(&self.data, self.pos) {
            Ok((s, end)) => {
                let ghost adv = (end - self.pos) as int;
                proof {
                    assert(self.data@.skip(end as int) =~= pre.rem().skip(adv));
                }
                self.pos = end;
                proof {
                    assert(self.rem() =~= pre.rem().skip(adv));
                }
                Ok(s)
            },
            Err(e) => Err(e),
        }
    }

    /// Consume `n` bytes as a little-endian value.
    fn take_le(&mut self, n: usize) -> (r: Result<u128, PacketReadError>)
        requires
            old(self).wf(),
            1 <= n <= 16,
        ensures
            final(self).wf(),
            final(self).spec_id() == old(self).spec_id(),
            match r {
                Ok(v) => old(self).rem().len() >= n && v == le_value(
                    old(self).rem().take(n as int),
                ) && final(self).rem() == old(self).rem().skip(n as int),
                Err(PacketReadError::BufferUnderflow) => old(self).rem().len() < n && *final(self)
                    == *old(self),
                Err(_) => false,
            },
    {
        if self.data.len() - self.pos < n {
            return Err(PacketReadError::BufferUnderflow);
        }
        let v: u128 = le_from(&self.data, self.pos, n);
        proof {
            assert(self.data@.subrange(self.pos as int, self.pos + n) =~= self.rem().take(n as int));
            assert(self.data@.skip(self.pos + n) =~= self.rem().skip(n as int));
        }
        self.pos = self.pos + n;
        Ok(v)
    }

    /// Read a UUID as a little-endian 128-bit value.
    pub fn read_uuid(&mut self) -> (r: Result<u128, PacketReadError>)
        requires
            old(self).wf(),
        ensures
            final(self).wf(),
            final(self).spec_id() == old(self).spec_id(),
            match r {
                Ok(v) => old(self).rem().len() >= 16 && v == le_value(old(self).rem().take(16))
                    && final(self).rem() == old(self).rem().skip(16),
                Err(PacketReadError::BufferUnderflow) => old(self).rem().len() < 16 && *final(self)
                    == *old(self),
                Err(_) => false,
            },
    {
        proof {
            lemma_le_value_bound(old(self).rem().take(16));
            lemma2_to64();
            lemma_pow2_adds(64, 64);
        }
        self.take_le(16)
    }

    /// Read one signed byte.
    pub fn read_byte(&mut self) -> (r: Result<i8, PacketReadError>)
        requires
            old(self).wf(),
        ensures
            final(self).wf(),
            final(self).spec_id() == old(self).spec_id(),
            match r {
                Ok(v) => old(self).rem().len() >= 1 && v == old(self).rem()[0] as i8 && final(self).rem() == old(self).rem().skip(1),
                Err(PacketReadError::BufferUnderflow) => old(self).rem().len() < 1 && *final(self)
                    == *old(self),
                Err(_) => false,
            },
    {
        match self.read_ubyte() {
            Ok(v) => Ok(v as i8),
            Err(e) => Err(e),
        }
    }

    /// Read one unsigned byte.
    pub fn read_ubyte(&mut self) -> (r: Result<u8, PacketReadError>)
        requires
            old(self).wf(),
        ensures
            final(self).wf(),
            final(self).spec_id() == old(self).spec_id(),
            match r {
                Ok(v) => old(self).rem().len() >= 1 && v == old(self).rem()[0] && final(self).rem()
                    == old(self).rem().skip(1),
                Err(PacketReadError::BufferUnderflow) => old(self).rem().len() < 1 && *final(self)
                    == *old(self),
                Err(_) => false,
            },
    {
        if self.data.len() - self.pos < 1 {
            return Err(PacketReadError::BufferUnderflow);
        }
        let b: u8 = self.data[self.pos];
        proof {
            assert(self.rem()[0] == b);
            assert(self.data@.skip(self.pos + 1) =~= self.rem().skip(1));
        }
        self.pos = self.pos + 1;
        Ok(b)
    }

    /// Read one boolean byte: anything but zero counts as true.
    pub fn read_boolean(&mut self) -> (r: Result<bool, PacketReadError>)
        requires
            old(self).wf(),
        ensures
            final(self).wf(),
            final(self).spec_id() == old(self).spec_id(),
            match r {
                Ok(v) => old(self).rem().len() >= 1 && v == (old(self).rem()[0] != 0) && final(self).rem() == old(self).rem().skip(1),
                Err(PacketReadError::BufferUnderflow) => old(self).rem().len() < 1 && *final(self)
                    == *old(self),
                Err(_) => false,
            },
    {
        match self.read_ubyte() {
            Ok(v) => Ok(v != 0),
            Err(e) => Err(e),
        }
    }

    /// Read a fixed-size byte array.
    pub fn read_byte_array(&mut self, size: usize) -> (r: Result<Vec<u8>, PacketReadError>)
        requires
            old(self).wf(),
        ensures
            final(self).wf(),
            final(self).spec_id() == old(self).spec_id(),
            match r {
                Ok(bytes) => old(self).rem().len() >= size && bytes@ == old(self).rem().take(
                    size as int,
                ) && final(self).rem() == old(self).rem().skip(size as int),
                Err(PacketReadError::BufferUnderflow) => old(self).rem().len() < size && *final(self) == *old(self),
                Err(_) => false,
            },
    {
        if self.data.len() - self.pos < size {
            return Err(PacketReadError::BufferUnderflow);
        }
        let bytes: Vec<u8> = vstd::slice::slice_to_vec(vstd::slice::slice_subrange(
            self.data.as_slice(),
            self.pos,
            self.pos + size,
        ));
        proof {
            assert(self.data@.subrange(self.pos as int, self.pos + size) =~= self.rem().take(
                size as int,
            ));
            assert(self.data@.skip(self.pos + size) =~= self.rem().skip(size as int));
        }
        self.pos = self.pos + size;
        Ok(bytes)
    }

    /// Read a varint-length-prefixed byte array.
    pub fn read_byte_block(&mut self) -> (r: Result<Vec<u8>, PacketReadError>)
        requires
            old(self).wf(),
        ensures
            final(self).wf(),
            final(self).spec_id() == old(self).spec_id(),
            match r {
                Ok(bytes) => parse_byte_block(old(self).rem()) matches Ok((b, adv)) && bytes@ == b
                    && final(self).rem() == old(self).rem().skip(adv),
                Err(e) => parse_byte_block(old(self).rem()) matches Err(e2) && e == e2,
            },
    {
        let ghost s0 = self.rem();
        proof {
            crate::packet_utils::lemma_parse_varint_done_len(s0, 5);
        }
        let length: i32 = match self.read_varint() {
            Ok(v) => v,
            Err(e) => {
                return Err(e);
            },
        };
        let ghost l1 = s0.len() - self.rem().len();
        proof {
            assert(self.rem() =~= s0.skip(l1));
        }
        if length < 0 {
            return Err(PacketReadError::BufferUnderflow);
        }
        match self.read_byte_array(length as usize) {
            Ok(bytes) => {
                proof {
                    let l = length as int;
                    assert(s0.skip(l1).take(l) =~= s0.subrange(l1, l1 + l));
                    assert(s0.skip(l1).skip(l) =~= s0.skip(l1 + l));
                }
                Ok(bytes)
            },
            Err(e) => Err(e),
        }
    }

    /// Read a little-endian signed 16-bit value.
    pub fn read_short(&mut self) -> (r: Result<i16, PacketReadError>)
        requires
            old(self).wf(),
        ensures
            final(self).wf(),
            final(self).spec_id() == old(self).spec_id(),
            match r {
                Ok(v) => old(self).rem().len() >= 2 && v == le_value(
                    old(self).rem().take(2),
                ) as u16 as i16 && final(self).rem() == old(self).rem().skip(2),
                Err(PacketReadError::BufferUnderflow) => old(self).rem().len() < 2 && *final(self)
                    == *old(self),
                Err(_) => false,
            },
    {
        match self.take_le(2) {
            Ok(v) => Ok(v as u16 as i16),
            Err(e) => Err(e),
        }
    }

    /// Read a little-endian unsigned 16-bit value.
    pub fn read_ushort(&mut self) -> (r: Result<u16, PacketReadError>)
        requires
            old(self).wf(),
        ensures
            final(self).wf(),
            final(self).spec_id() == old(self).spec_id(),
            match r {
                Ok(v) => old(self).rem().len() >= 2 && v == le_value(old(self).rem().take(2)) as u16
                    && final(self).rem() == old(self).rem().skip(2),
                Err(PacketReadError::BufferUnderflow) => old(self).rem().len() < 2 && *final(self)
                    == *old(self),
                Err(_) => false,
            },
    {
        match self.take_le(2) {
            Ok(v) => Ok(v as u16),
            Err(e) => Err(e),
        }
    }

    /// Read a little-endian signed 32-bit value.
    pub fn read_int(&mut self) -> (r: Result<i32, PacketReadError>)
        requires
            old(self).wf(),
        ensures
            final(self).wf(),
            final(self).spec_id() == old(self).spec_id(),
            match r {
                Ok(v) => old(self).rem().len() >= 4 && v == le_value(
                    old(self).rem().take(4),
                ) as u32 as i32 && final(self).rem() == old(self).rem().skip(4),
                Err(PacketReadError::BufferUnderflow) => old(self).rem().len() < 4 && *final(self)
                    == *old(self),
                Err(_) => false,
            },
    {
        match self.take_le(4) {
            Ok(v) => Ok(v as u32 as i32),
            Err(e) => Err(e),
        }
    }

    /// Read a little-endian signed 64-bit value.
    pub fn read_long(&mut self) -> (r: Result<i64, PacketReadError>)
        requires
            old(self).wf(),
        ensures
            final(self).wf(),
            final(self).spec_id() == old(self).spec_id(),
            match r {
                Ok(v) => old(self).rem().len() >= 8 && v == le_value(
                    old(self).rem().take(8),
                ) as u64 as i64 && final(self).rem() == old(self).rem().skip(8),
                Err(PacketReadError::BufferUnderflow) => old(self).rem().len() < 8 && *final(self)
                    == *old(self),
                Err(_) => false,
            },
    {
        match self.take_le(8) {
            Ok(v) => Ok(v as u64 as i64),
            Err(e) => Err(e),
        }
    }
}

/// A payload builder for one outbound frame.
pub struct PacketWriter {
    packet_id: i32,
    data: Vec<u8>,
}

impl PacketWriter {
    /// The frame's packet id.
    pub closed spec fn spec_id(&self) -> i32 {
        self.packet_id
    }

    /// The payload accumulated so far.
    pub closed spec fn payload(&self) -> Seq<u8> {
        self.data@
    }

    /// Start a frame with the given packet id and an empty payload.
    pub fn new(packet_id: i32) -> (r: PacketWriter)
        ensures
            r.spec_id() == packet_id,
            r.payload() == Seq::<u8>::empty(),
    {
        let r = PacketWriter { packet_id, data: Vec::new() };
        proof {
            assert(r.payload() =~= Seq::<u8>::empty());
        }
        r
    }

    /// The payload accumulated so far.
    pub fn data(&self) -> (r: &[u8])
        ensures
            r@ == self.payload(),
    {
        self.data.as_slice()
    }

    /// Append a varint field.
    pub fn write_varint(&mut self, n: i32)
        ensures
            final(self).spec_id() == old(self).spec_id(),
            final(self).payload() == old(self).payload() + varint_bytes(n as u32),
    {
        write_varint(&mut self.data, n);
    }

    /// Append a length-prefixed UTF-8 string field.
    pub fn write_string(&mut self, text: &str)
        requires
            vstd::utf8::encode_utf8(text@).len() <= 0x7fffffff,
        ensures
            final(self).spec_id() == old(self).spec_id(),
            final(self).payload() == old(self).payload() + varint_bytes(
                vstd::utf8::encode_utf8(text@).len() as u32,
            ) + vstd::utf8::encode_utf8(text@),
    {
        write_string(&mut self.data, text);
    }

    /// Append a UUID as a little-endian 128-bit value.
    pub fn write_uuid(&mut self, uuid: u128)
        ensures
            final(self).spec_id() == old(self).spec_id(),
            final(self).payload() == old(self).payload() + le_bytes(uuid as nat, 16),
    {
        put_le(&mut self.data, uuid, 16);
    }

    /// Append a boolean byte, `0x01` for true and `0x00` for false.
    pub fn write_boolean(&mut self, val: bool)
        ensures
            final(self).spec_id() == old(self).spec_id(),
            final(self).payload() == old(self).payload() + seq![(if val { 1u8 } else { 0u8 })],
    {
        if val {
            self.data.push(0x01);
        } else {
            self.data.push(0x00);
        }
    }

    /// Append one signed byte.
    pub fn write_byte(&mut self, n: i8)
        ensures
            final(self).spec_id() == old(self).spec_id(),
            final(self).payload() == old(self).payload() + seq![n as u8],
    {
        self.data.push(n as u8);
    }

    /// Append one unsigned byte.
    pub fn write_ubyte(&mut self, n: u8)
        ensures
            final(self).spec_id() == old(self).spec_id(),
            final(self).payload() == old(self).payload() + seq![n],
    {
        self.data.push(n);
    }

    /// Append raw bytes.
    pub fn write_byte_array(&mut self, val: &[u8])
        ensures
            final(self).spec_id() == old(self).spec_id(),
            final(self).payload() == old(self).payload() + val@,
    {
        self.data.extend_from_slice(val);
    }

    /// Append a little-endian signed 16-bit value.
    pub fn write_short(&mut self, n: i16)
        ensures
            final(self).spec_id() == old(self).spec_id(),
            final(self).payload() == old(self).payload() + le_bytes(n as u16 as nat, 2),
    {
        put_le(&mut self.data, n as u16 as u128, 2);
    }

    /// Append a little-endian unsigned 16-bit value.
    pub fn write_ushort(&mut self, n: u16)
        ensures
            final(self).spec_id() == old(self).spec_id(),
            final(self).payload() == old(self).payload() + le_bytes(n as nat, 2),
    {
        put_le(&mut self.data, n as u128, 2);
    }

    /// Append a little-endian signed 32-bit value.
    pub fn write_int(&mut self, n: i32)
        ensures
            final(self).spec_id() == old(self).spec_id(),
            final(self).payload() == old(self).payload() + le_bytes(n as u32 as nat, 4),
    {
        put_le(&mut self.data, n as u32 as u128, 4);
    }

    /// Append a little-endian signed 64-bit value.
    pub fn write_long(&mut self, n: i64)
        ensures
            final(self).spec_id() == old(self).spec_id(),
            final(self).payload() == old(self).payload() + le_bytes(n as u64 as nat, 8),
    {
        put_le(&mut self.data, n as u64 as u128, 8);
    }

    /// Assemble the final wire form `[length][packet-id][payload]`.
    pub fn build_uncompressed(&self) -> (r: Vec<u8>)
        requires
            self.payload().len() + 10 < 0x8000_0000,
        ensures
            r@ == frame_bytes(self.spec_id(), self.payload()),
    {
        let mut body: Vec<u8> = Vec::new();
        write_varint(&mut body, self.packet_id);
        body.extend_from_slice(self.data.as_slice());
        proof {
            crate::packet_utils::lemma_varint_bytes_len(self.packet_id as u32);
            assert(body@ =~= varint_bytes(self.packet_id as u32) + self.payload());
        }
        let mut out: Vec<u8> = Vec::new();
        write_varint(&mut out, body.len() as i32);
        out.extend_from_slice(body.as_slice());
        proof {
            assert(out@ =~= frame_bytes(self.spec_id(), self.payload()));
        }
        out
    }
}

} // verus!
