//! Frame extraction from a growing byte accumulator.
//!
//! A frame only leaves the accumulator once its full declared length has
//! arrived; otherwise the accumulator is left untouched and the caller
//! waits for more bytes.  One read event can surface zero, one or many
//! complete frames, so extraction is loop-driven.
//!
//! [`lemma_frames_split_invariant`] states the law that makes this safe to
//! run incrementally: feeding a byte stream in two chunks extracts exactly
//! the frames, in order, that feeding it at once would.

use vstd::prelude::*;

use crate::packet_utils::{
    lemma_parse_varint_done_len, parse_varint, parse_varint_rec, read_varint, VarintParse,
};

verus! {

/// One extraction step: if a complete frame (length prefix plus that many
/// bytes) sits at the head of `s`, yield its bytes and what follows them.
pub open spec fn extract_one(s: Seq<u8>) -> Option<(Seq<u8>, Seq<u8>)> {
    match parse_varint(s) {
        VarintParse::Done { value, len } => {
            let l = value as i32;
            if l >= 0 && s.len() - len >= l {
                Some((s.subrange(len, len + l), s.skip(len + l)))
            } else {
                None
            }
        },
        VarintParse::Incomplete => None,
        VarintParse::TooLong => None,
    }
}

/// All complete frames at the head of `s`, in order, and the leftover bytes.
pub open spec fn drain_frames(s: Seq<u8>) -> (Seq<Seq<u8>>, Seq<u8>)
    decreases s.len(),
    via drain_frames_decreases
{
    match extract_one(s) {
        Some((frame, rest)) => {
            let (frames, leftover) = drain_frames(rest);
            (seq![frame] + frames, leftover)
        },
        None => (seq![], s),
    }
}

#[via_fn]
proof fn drain_frames_decreases(s: Seq<u8>) {
    lemma_parse_varint_done_len(s, 5);
}

/// A terminated varint at the head of `s` parses the same after `s` grows.
pub proof fn lemma_parse_varint_prefix(s: Seq<u8>, t: Seq<u8>, max_groups: nat)
    requires
        parse_varint_rec(s, max_groups) is Done,
    ensures
        parse_varint_rec(s + t, max_groups) == parse_varint_rec(s, max_groups),
    decreases max_groups,
{
    assert((s + t)[0] == s[0]);
    if s[0] >= 0x80 {
        assert((s + t).drop_first() =~= s.drop_first() + t);
        lemma_parse_varint_prefix(s.drop_first(), t, (max_groups - 1) as nat);
    }
}

/// A complete frame at the head of `s` is unchanged by appending more
/// bytes, and the appended bytes end up after the leftover.
pub proof fn lemma_extract_one_prefix(s: Seq<u8>, t: Seq<u8>)
    requires
        extract_one(s) is Some,
    ensures
        extract_one(s + t) matches Some((frame2, rest2)) && extract_one(s)
            matches Some((frame1, rest1)) && frame2 == frame1 && rest2 == rest1 + t,
{
    lemma_parse_varint_prefix(s, t, 5);
    lemma_parse_varint_done_len(s, 5);
    let (value, len) = (parse_varint(s)->Done_value, parse_varint(s)->Done_len);
    let l = value as i32;
    assert(1 <= len && l >= 0 && len + l <= s.len());
    assert(s.subrange(len, len + l) =~= (s + t).subrange(len, len + l));
    assert((s + t).skip(len + l) =~= s.skip(len + l) + t);
}

/// Frame extraction is insensitive to how the byte stream is chunked:
/// draining `a`, then draining the leftover with `b` appended, yields the
/// same frames in the same order, and the same final leftover, as draining
/// `a + b` at one stroke.
pub proof fn lemma_frames_split_invariant(a: Seq<u8>, b: Seq<u8>)
    ensures
        ({
            let (f1, r1) = drain_frames(a);
            let (f2, r2) = drain_frames(r1 + b);
            let (f, r) = drain_frames(a + b);
            f == f1 + f2 && r == r2
        }),
    decreases a.len(),
{
    let (f1, r1) = drain_frames(a);
    let (f2, r2) = drain_frames(r1 + b);
    let (f, r) = drain_frames(a + b);
    match extract_one(a) {
        Some((frame, rest)) => {
            lemma_extract_one_prefix(a, b);
            lemma_parse_varint_done_len(a, 5);
            lemma_frames_split_invariant(rest, b);
            let (fs1, lo1) = drain_frames(rest);
            assert(f1 =~= seq![frame] + fs1);
            assert(r1 == lo1);
            let (fs, lo) = drain_frames(rest + b);
            assert(f =~= seq![frame] + fs);
            assert(fs =~= fs1 + f2);
            assert(f =~= f1 + f2);
        },
        None => {
            assert(f1 =~= Seq::<Seq<u8>>::empty());
            assert(r1 == a);
            assert(f =~= f1 + f2);
        },
    }
}

/// Take one complete frame off the front of `data`, if one has fully
/// arrived; otherwise leave `data` exactly as it is.
pub fn extract_frame(data: &mut Vec<u8>) -> (r: Option<Vec<u8>>)
    ensures
        match r {
            Some(frame) => extract_one(old(data)@) matches Some((f, rest)) && frame@ == f
                && final(data)@ == rest,
            None => extract_one(old(data)@) is None && *final(data) == *old(data),
        },
{
    proof {
        assert(data@.skip(0) =~= data@);
    }
    let (length, header_len) = match read_varint(data, 0) {
        Ok(v) => v,
        Err(_) => {
            return None;
        },
    };
    if length < 0 {
        return None;
    }
    let length: usize = length as usize;
    if data.len() - header_len < length {
        return None;
    }
    let end: usize = header_len + length;
    let frame: Vec<u8> = vstd::slice::slice_to_vec(vstd::slice::slice_subrange(
        data.as_slice(),
        header_len,
        end,
    ));
    let tail: Vec<u8> = data.split_off(end);
    proof {
        assert(extract_one(old(data)@) matches Some((f, rest)) && frame@ == f && tail@ == rest);
    }
    *data = tail;
    Some(frame)
}

/// Take every complete frame off the front of `data`, in arrival order.
pub fn extract_frames(data: &mut Vec<u8>) -> (frames: Vec<Vec<u8>>)
    ensures
        frames@.map_values(|f: Vec<u8>| f@) == drain_frames(old(data)@).0,
        final(data)@ == drain_frames(old(data)@).1,
{
    let mut frames: Vec<Vec<u8>> = Vec::new();
    proof {
        assert(frames@.map_values(|f: Vec<u8>| f@) =~= Seq::<Seq<u8>>::empty());
    }
    loop
        invariant
            drain_frames(old(data)@).0 == frames@.map_values(|f: Vec<u8>| f@) + drain_frames(
                data@,
            ).0,
            drain_frames(old(data)@).1 == drain_frames(data@).1,
        ensures
            extract_one(data@) is None,
            drain_frames(old(data)@).0 == frames@.map_values(|f: Vec<u8>| f@) + drain_frames(
                data@,
            ).0,
            drain_frames(old(data)@).1 == drain_frames(data@).1,
        decreases data@.len(),
    {
        let ghost before = data@;
        match extract_frame(data) {
            Some(frame) => {
                proof {
                    lemma_parse_varint_done_len(before, 5);
                }
                frames.push(frame);
                proof {
                    let view = |f: Vec<u8>| f@;
                    assert(frames@.map_values(view) =~= frames@.drop_last().map_values(view)
                        + seq![frame@]);
                    assert(drain_frames(before).0 =~= seq![frame@] + drain_frames(data@).0);
                }
            },
            None => {
                break ;
            },
        }
    }
    proof {
        assert(drain_frames(data@).0 =~= Seq::<Seq<u8>>::empty());
        assert(frames@.map_values(|f: Vec<u8>| f@) =~= frames@.map_values(|f: Vec<u8>| f@)
            + drain_frames(data@).0);
    }
    frames
}

} // verus!
