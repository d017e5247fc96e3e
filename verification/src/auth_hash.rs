//! The session-server hash: SHA-1 rendered with the signed-hex convention
//! the remote verification service uses.
//!
//! The 20-byte digest is read as a two's-complement big integer.  If its
//! sign bit is set, the whole digest is negated byte by byte with a ripple
//! carry and the output gains a minus sign; either way the magnitude is
//! written in lower-case hex with leading zero digits stripped.  This exact
//! convention is what the service compares against, so it is pinned down
//! bit for bit by [`spec_hex_digest`] and proved of [`calc_hash`].

use vstd::prelude::*;

use sha1::{Digest, Sha1};

verus! {

use vstd::arithmetic::power2::{pow2, lemma_pow2_adds, lemma2_to64};

/// The SHA-1 digest of `data`, a function of the bytes alone.
pub uninterp spec fn sha1_of(data: Seq<u8>) -> Seq<u8>;

/// Relies on the sha1 crate's `Sha1` (`Digest::digest`): the digest depends
/// on the input bytes alone and is 20 bytes long.
#[verifier::external_body]
pub fn sha1(data: &Vec<u8>) -> (r: Vec<u8>)
    ensures
        r@ == sha1_of(data@),
        r@.len() == 20,
{
    Sha1::digest(data.as_slice()).to_vec()
}

/// The lower-case hex digit character for `n`.
pub open spec fn hex_char(n: u8) -> char
    recommends
        n < 16,
{
    if n == 0 {
        '0'
    } else if n == 1 {
        '1'
    } else if n == 2 {
        '2'
    } else if n == 3 {
        '3'
    } else if n == 4 {
        '4'
    } else if n == 5 {
        '5'
    } else if n == 6 {
        '6'
    } else if n == 7 {
        '7'
    } else if n == 8 {
        '8'
    } else if n == 9 {
        '9'
    } else if n == 10 {
        'a'
    } else if n == 11 {
        'b'
    } else if n == 12 {
        'c'
    } else if n == 13 {
        'd'
    } else if n == 14 {
        'e'
    } else {
        'f'
    }
}

/// The hex digits of a byte sequence, two per byte, high nibble first.
pub open spec fn hex_nibbles(s: Seq<u8>) -> Seq<char>
    decreases s.len(),
{
    if s.len() == 0 {
        seq![]
    } else {
        seq![hex_char((s[0] / 16) as u8), hex_char((s[0] % 16) as u8)] + hex_nibbles(
            s.drop_first(),
        )
    }
}

/// Every character is the zero digit.
pub open spec fn all_zero(s: Seq<char>) -> bool {
    forall|i: int| 0 <= i < s.len() ==> s[i] == '0'
}

/// `s` with its leading zero digits removed.
pub open spec fn strip_zeros(s: Seq<char>) -> Seq<char>
    decreases s.len(),
{
    if s.len() > 0 && s[0] == '0' {
        strip_zeros(s.drop_first())
    } else {
        s
    }
}

/// The byte-wise two's complement of `s` (most significant byte first):
/// every byte inverted, plus one rippling up from the least significant
/// end.  The boolean is the carry out of each position.
pub open spec fn neg_bytes(s: Seq<u8>) -> (Seq<u8>, bool)
    decreases s.len(),
{
    if s.len() == 0 {
        (seq![], true)
    } else {
        let (rest, carry) = neg_bytes(s.drop_first());
        let v = (255 - s[0]) + (if carry {
            1int
        } else {
            0int
        });
        (seq![(v % 256) as u8] + rest, v >= 256)
    }
}

/// The value of a byte sequence read as a big-endian unsigned integer.
pub open spec fn be_value(s: Seq<u8>) -> nat
    decreases s.len(),
{
    if s.len() == 0 {
        0
    } else {
        (s[0] * pow2(8 * (s.len() - 1) as nat) + be_value(s.drop_first())) as nat
    }
}

/// A big-endian value is bounded by two to the power of its bit width.
pub proof fn lemma_be_value_bound(s: Seq<u8>)
    ensures
        be_value(s) < pow2(8 * s.len()),
    decreases s.len(),
{
    lemma2_to64();
    if s.len() > 0 {
        lemma_be_value_bound(s.drop_first());
        lemma_pow2_adds(8, (8 * (s.len() - 1)) as nat);
        assert(s[0] * pow2((8 * (s.len() - 1)) as nat) + pow2((8 * (s.len() - 1)) as nat) <= 256
            * pow2((8 * (s.len() - 1)) as nat)) by (nonlinear_arith)
            requires
                s[0] < 256,
        ;
    }
}

/// The byte-wise negation really is two's complement: read as big-endian
/// integers, the negated digest is the digest's value subtracted from two
/// to the power of the bit width, modulo that power; and the carry runs
/// all the way out exactly for the zero digest.
pub proof fn lemma_neg_bytes_value(s: Seq<u8>)
    ensures
        neg_bytes(s).0.len() == s.len(),
        be_value(neg_bytes(s).0) == (pow2(8 * s.len()) - be_value(s)) % pow2(8 * s.len()) as int,
        neg_bytes(s).1 == (be_value(s) == 0),
    decreases s.len(),
{
    lemma2_to64();
    let n = s.len() as int;
    if s.len() == 0 {
        assert(pow2(0) == 1);
    } else {
        let p = pow2((8 * (n - 1)) as nat);
        lemma_pow2_adds(8, (8 * (n - 1)) as nat);
        assert(pow2((8 * n) as nat) == 256 * p);
        lemma_neg_bytes_value(s.drop_first());
        lemma_be_value_bound(s.drop_first());
        let r = be_value(s.drop_first());
        let (rest, carry) = neg_bytes(s.drop_first());
        let v = (255 - s[0]) + (if carry {
            1int
        } else {
            0int
        });
        let b0 = (v % 256) as u8;
        assert(neg_bytes(s).0 =~= seq![b0] + rest);
        assert((seq![b0] + rest).drop_first() =~= rest);
        assert(be_value(neg_bytes(s).0) == b0 * p + be_value(rest));
        assert(rest.len() == n - 1);
        let whole = s[0] * p + r;
        assert(be_value(s) == whole);
        if r == 0 {
            assert(be_value(rest) == (p - 0) % (p as int));
            vstd::arithmetic::div_mod::lemma_mod_self_0(p as int);
            assert(be_value(rest) == 0);
            if s[0] == 0 {
                assert(v == 256 && b0 == 0 && neg_bytes(s).1);
                assert(be_value(neg_bytes(s).0) == 0);
                vstd::arithmetic::div_mod::lemma_mod_self_0(256 * p as int);
            } else {
                assert(v == 256 - s[0] && v < 256);
                vstd::arithmetic::div_mod::lemma_small_mod(v as nat, 256);
                assert(b0 == 256 - s[0]);
                assert(be_value(neg_bytes(s).0) == (256 - s[0]) * p);
                assert((256 - s[0]) * p == 256 * p - s[0] * p) by (nonlinear_arith);
                assert(0 <= 256 * p - whole < 256 * p) by (nonlinear_arith)
                    requires
                        1 <= s[0] < 256,
                        r == 0,
                        whole == s[0] * p + r,
                        p >= 1,
                ;
                vstd::arithmetic::div_mod::lemma_small_mod(
                    (256 * p - whole) as nat,
                    (256 * p) as nat,
                );
            }
        } else {
            assert(!carry);
            assert(v == 255 - s[0] && v < 256);
            vstd::arithmetic::div_mod::lemma_small_mod(v as nat, 256);
            assert(b0 == 255 - s[0]);
            assert(0 < r < p);
            vstd::arithmetic::div_mod::lemma_small_mod((p - r) as nat, p as nat);
            assert(be_value(rest) == p - r);
            assert(be_value(neg_bytes(s).0) == (255 - s[0]) * p + (p - r));
            assert((255 - s[0]) * p + (p - r) == 256 * p - (s[0] * p + r)) by (nonlinear_arith);
            assert(0 < whole < 256 * p) by (nonlinear_arith)
                requires
                    0 <= s[0] < 256,
                    0 < r < p,
                    whole == s[0] * p + r,
            ;
            vstd::arithmetic::div_mod::lemma_small_mod(
                (256 * p - whole) as nat,
                (256 * p) as nat,
            );
            assert(!neg_bytes(s).1);
            assert(whole != 0);
        }
    }
}

/// The signed-hex rendering of a digest: negate it first if its sign bit is
/// set, then write the hex digits without leading zeros, with a minus sign
/// when negated.  A zero digest renders as the empty magnitude.
pub open spec fn spec_hex_digest(hash: Seq<u8>) -> Seq<char> {
    if hash.len() > 0 && hash[0] >= 0x80 {
        seq!['-'] + strip_zeros(hex_nibbles(neg_bytes(hash).0))
    } else {
        strip_zeros(hex_nibbles(hash))
    }
}

/// Stripping zeros off an all-zero prefix strips the prefix entirely.
proof fn lemma_strip_all_zero(a: Seq<char>, b: Seq<char>)
    requires
        all_zero(a),
    ensures
        strip_zeros(a + b) == strip_zeros(b),
    decreases a.len(),
{
    if a.len() == 0 {
        assert(a + b =~= b);
    } else {
        assert((a + b)[0] == '0');
        assert((a + b).drop_first() =~= a.drop_first() + b);
        assert(all_zero(a.drop_first()));
        lemma_strip_all_zero(a.drop_first(), b);
    }
}

/// Once a nonzero digit has survived stripping, everything appended later
/// passes through unchanged.
proof fn lemma_strip_pass(a: Seq<char>, b: Seq<char>)
    requires
        strip_zeros(a).len() > 0,
    ensures
        strip_zeros(a + b) == strip_zeros(a) + b,
    decreases a.len(),
{
    if a[0] == '0' {
        assert((a + b)[0] == '0');
        assert((a + b).drop_first() =~= a.drop_first() + b);
        lemma_strip_pass(a.drop_first(), b);
    } else {
        assert(strip_zeros(a) == a);
        assert((a + b)[0] == a[0]);
        assert(strip_zeros(a + b) == a + b);
    }
}

/// Hex digits of one more byte: the sequence grows by its two digits.
proof fn lemma_hex_nibbles_push(s: Seq<u8>, b: u8)
    ensures
        hex_nibbles(s.push(b)) == hex_nibbles(s) + seq![
            hex_char((b / 16) as u8),
            hex_char((b % 16) as u8),
        ],
    decreases s.len(),
{
    if s.len() == 0 {
        assert(s.push(b)[0] == b);
        assert(s.push(b).drop_first() =~= Seq::<u8>::empty());
        assert(hex_nibbles(Seq::<u8>::empty()) =~= Seq::<char>::empty());
        assert(hex_nibbles(s.push(b)) =~= hex_nibbles(s) + seq![
            hex_char((b / 16) as u8),
            hex_char((b % 16) as u8),
        ]);
    } else {
        assert(s.push(b)[0] == s[0]);
        assert(s.push(b).drop_first() =~= s.drop_first().push(b));
        lemma_hex_nibbles_push(s.drop_first(), b);
        assert(hex_nibbles(s.push(b)) =~= hex_nibbles(s) + seq![
            hex_char((b / 16) as u8),
            hex_char((b % 16) as u8),
        ]);
    }
}

pub(crate) fn hex_char_exec(n: u8) -> (c: char)
    requires
        n < 16,
    ensures
        c == hex_char(n),
{
    if n == 0 {
        '0'
    } else if n == 1 {
        '1'
    } else if n == 2 {
        '2'
    } else if n == 3 {
        '3'
    } else if n == 4 {
        '4'
    } else if n == 5 {
        '5'
    } else if n == 6 {
        '6'
    } else if n == 7 {
        '7'
    } else if n == 8 {
        '8'
    } else if n == 9 {
        '9'
    } else if n == 10 {
        'a'
    } else if n == 11 {
        'b'
    } else if n == 12 {
        'c'
    } else if n == 13 {
        'd'
    } else if n == 14 {
        'e'
    } else {
        'f'
    }
}

/// Append one hex digit, still skipping while only zeros have been seen.
fn push_nibble(r: &mut String, started: &mut bool, nib: u8, Ghost(prefix): Ghost<Seq<char>>)
    requires
        nib < 16,
        *old(started) ==> old(r)@ == strip_zeros(prefix) && old(r)@.len() > 0,
        !*old(started) ==> all_zero(prefix) && old(r)@.len() == 0,
    ensures
        *final(started) ==> final(r)@ == strip_zeros(prefix + seq![hex_char(nib)])
            && final(r)@.len() > 0,
        !*final(started) ==> all_zero(prefix + seq![hex_char(nib)]) && final(r)@.len() == 0,
{
    if *started || nib != 0 {
        let was_started: bool = *started;
        r.push(hex_char_exec(nib));
        *started = true;
        proof {
            if was_started {
                lemma_strip_pass(prefix, seq![hex_char(nib)]);
            } else {
                lemma_strip_all_zero(prefix, seq![hex_char(nib)]);
                assert(hex_char(nib) != '0');
                assert(strip_zeros(seq![hex_char(nib)]) =~= seq![hex_char(nib)]);
            }
        }
    } else {
        proof {
            assert(hex_char(nib) == '0');
            assert(all_zero(prefix + seq!['0']));
        }
    }
}

/// The hex digits of `bytes` with leading zeros stripped.
fn hex_stripped(bytes: &Vec<u8>) -> (r: String)
    ensures
        r@ == strip_zeros(hex_nibbles(bytes@)),
{
    let mut r = String::new();
    let mut started: bool = false;
    let n: usize = bytes.len();
    let mut i: usize = 0;
    proof {
        assert(bytes@.take(0) =~= Seq::<u8>::empty());
    }
    while i < n
        invariant
            n == bytes@.len(),
            i <= n,
            started ==> r@ == strip_zeros(hex_nibbles(bytes@.take(i as int))) && r@.len() > 0,
            !started ==> all_zero(hex_nibbles(bytes@.take(i as int))) && r@.len() == 0,
        decreases n - i,
    {
        let b: u8 = bytes[i];
        let ghost pre = hex_nibbles(bytes@.take(i as int));
        proof {
            lemma_hex_nibbles_push(bytes@.take(i as int), b);
            assert(bytes@.take(i + 1) =~= bytes@.take(i as int).push(b));
        }
        push_nibble(&mut r, &mut started, b / 16, Ghost(pre));
        push_nibble(&mut r, &mut started, b % 16, Ghost(pre + seq![hex_char((b / 16) as u8)]));
        proof {
            assert(pre + seq![hex_char((b / 16) as u8)] + seq![hex_char((b % 16) as u8)]
                =~= hex_nibbles(bytes@.take(i + 1)));
        }
        i = i + 1;
    }
    proof {
        assert(bytes@.take(n as int) =~= bytes@);
        if !started {
            lemma_strip_all_zero(hex_nibbles(bytes@), Seq::<char>::empty());
            assert(hex_nibbles(bytes@) + Seq::<char>::empty() =~= hex_nibbles(bytes@));
            assert(strip_zeros(Seq::<char>::empty()) =~= Seq::<char>::empty());
        }
    }
    r
}

/// The byte-wise two's complement of the digest.
fn twos_complement(hash: &Vec<u8>) -> (r: Vec<u8>)
    ensures
        r@ == neg_bytes(hash@).0,
{
    let mut bytes: Vec<u8> = vstd::slice::slice_to_vec(hash.as_slice());
    let mut carry: bool = true;
    let n: usize = bytes.len();
    let mut i: usize = n;
    proof {
        assert(hash@.skip(n as int) =~= Seq::<u8>::empty());
        assert(bytes@.skip(n as int) =~= Seq::<u8>::empty());
    }
    while i > 0
        invariant
            n == hash@.len(),
            bytes@.len() == n,
            i <= n,
            bytes@.take(i as int) == hash@.take(i as int),
            bytes@.skip(i as int) == neg_bytes(hash@.skip(i as int)).0,
            carry == neg_bytes(hash@.skip(i as int)).1,
        decreases i,
    {
        i = i - 1;
        let b: u8 = bytes[i];
        proof {
            assert(hash@.take(i + 1)[i as int] == hash@[i as int]);
            assert(b == hash@[i as int]);
        }
        let v: u16 = (255 - b) as u16 + (if carry {
            1u16
        } else {
            0u16
        });
        bytes.set(i, (v % 256) as u8);
        carry = v >= 256;
        proof {
            assert(hash@.skip(i as int).drop_first() =~= hash@.skip(i + 1));
            assert(hash@.skip(i as int)[0] == hash@[i as int]);
            assert(bytes@.take(i as int) =~= hash@.take(i as int));
            assert(bytes@.skip(i as int) =~= seq![bytes@[i as int]] + bytes@.skip(i + 1));
            assert(bytes@.skip(i + 1) =~= neg_bytes(hash@.skip(i + 1)).0);
        }
    }
    proof {
        assert(bytes@.skip(0) =~= bytes@);
        assert(hash@.skip(0) =~= hash@);
    }
    bytes
}

/// The hex digits of `n`, most significant first, with no leading zeros
/// ('0' itself for zero).
pub open spec fn hex_chars_of(n: nat) -> Seq<char>
    decreases n,
{
    if n < 16 {
        seq![hex_char(n as u8)]
    } else {
        hex_chars_of(n / 16) + seq![hex_char((n % 16) as u8)]
    }
}

/// Appending a byte multiplies a big-endian value by 256 and adds it.
proof fn lemma_be_value_snoc(s: Seq<u8>, b: u8)
    ensures
        be_value(s.push(b)) == be_value(s) * 256 + b,
    decreases s.len(),
{
    lemma2_to64();
    if s.len() == 0 {
        assert(s.push(b)[0] == b);
        assert(s.push(b).drop_first() =~= Seq::<u8>::empty());
        assert(pow2(0) == 1);
        assert(be_value(Seq::<u8>::empty()) == 0);
        assert(be_value(s.push(b)) == b * pow2(0) + 0);
    } else {
        assert(s.push(b)[0] == s[0]);
        assert(s.push(b).drop_first() =~= s.drop_first().push(b));
        lemma_be_value_snoc(s.drop_first(), b);
        let n = s.len() as int;
        let p = pow2((8 * (n - 1)) as nat);
        lemma_pow2_adds((8 * (n - 1)) as nat, 8);
        assert(pow2((8 * n) as nat) == p * 256);
        assert(be_value(s.push(b)) == s[0] * pow2((8 * n) as nat) + be_value(
            s.drop_first().push(b),
        ));
        assert(s[0] * (p * 256) + (be_value(s.drop_first()) * 256 + b) == (s[0] * p + be_value(
            s.drop_first(),
        )) * 256 + b) by (nonlinear_arith);
    }
}

/// A byte sequence's hex digits are all zero exactly when its value is.
proof fn lemma_all_zero_value(s: Seq<u8>)
    ensures
        all_zero(hex_nibbles(s)) <==> be_value(s) == 0,
    decreases s.len(),
{
    lemma2_to64();
    if s.len() > 0 {
        lemma_all_zero_value(s.drop_first());
        let n = s.len() as int;
        let p = pow2((8 * (n - 1)) as nat);
        vstd::arithmetic::power2::lemma_pow2_pos((8 * (n - 1)) as nat);
        assert(p >= 1);
        assert(s[0] * p + be_value(s.drop_first()) == 0 <==> s[0] == 0 && be_value(s.drop_first())
            == 0) by (nonlinear_arith)
            requires
                p >= 1,
        ;
        let digits = seq![hex_char((s[0] / 16) as u8), hex_char((s[0] % 16) as u8)];
        assert(hex_nibbles(s) == digits + hex_nibbles(s.drop_first()));
        if s[0] == 0 && be_value(s.drop_first()) == 0 {
            assert forall|i: int| 0 <= i < hex_nibbles(s).len() implies hex_nibbles(s)[i]
                == '0' by {
                if i >= 2 {
                    assert(hex_nibbles(s)[i] == hex_nibbles(s.drop_first())[i - 2]);
                }
            }
        }
        if all_zero(hex_nibbles(s)) {
            assert(hex_nibbles(s)[0] == hex_char((s[0] / 16) as u8));
            assert(hex_nibbles(s)[1] == hex_char((s[0] % 16) as u8));
            assert forall|i: int| 0 <= i < hex_nibbles(s.drop_first()).len() implies hex_nibbles(
                s.drop_first(),
            )[i] == '0' by {
                assert(hex_nibbles(s)[i + 2] == hex_nibbles(s.drop_first())[i]);
            }
        }
    }
}

/// Stripping the leading zeros off a byte sequence's hex digits leaves the
/// canonical hex rendering of its value, and nothing at all for zero.
pub proof fn lemma_hex_digits_value(s: Seq<u8>)
    ensures
        be_value(s) == 0 ==> strip_zeros(hex_nibbles(s)) == Seq::<char>::empty(),
        be_value(s) > 0 ==> strip_zeros(hex_nibbles(s)) == hex_chars_of(be_value(s)),
    decreases s.len(),
{
    lemma2_to64();
    if s.len() == 0 {
        assert(strip_zeros(hex_nibbles(s)) =~= Seq::<char>::empty());
    } else {
        let s2 = s.drop_last();
        let b = s.last();
        assert(s2.push(b) =~= s);
        lemma_hex_digits_value(s2);
        lemma_be_value_snoc(s2, b);
        lemma_hex_nibbles_push(s2, b);
        let v2 = be_value(s2);
        let v = be_value(s);
        assert(v == v2 * 256 + b);
        let digits = seq![hex_char((b / 16) as u8), hex_char((b % 16) as u8)];
        assert(hex_nibbles(s) == hex_nibbles(s2) + digits);
        if v2 == 0 {
            lemma_all_zero_value(s2);
            lemma_strip_all_zero(hex_nibbles(s2), digits);
            assert(v == b);
            if b == 0 {
                assert(all_zero(digits));
                lemma_strip_all_zero(digits, Seq::<char>::empty());
                assert(digits + Seq::<char>::empty() =~= digits);
                assert(strip_zeros(Seq::<char>::empty()) =~= Seq::<char>::empty());
            } else if b < 16 {
                assert(b / 16 == 0 && b % 16 == b);
                assert(digits[0] == hex_char(0) && digits[0] == '0');
                assert(digits.drop_first() =~= seq![hex_char((b % 16) as u8)]);
                assert(hex_char((b % 16) as u8) != '0');
                assert(strip_zeros(digits) == strip_zeros(digits.drop_first()));
                assert(strip_zeros(seq![hex_char((b % 16) as u8)]) =~= seq![hex_char(
                    (b % 16) as u8,
                )]);
                assert(strip_zeros(digits) =~= seq![hex_char(b as u8)]);
                assert(hex_chars_of(b as nat) =~= seq![hex_char(b as u8)]);
            } else {
                assert(digits[0] == hex_char((b / 16) as u8) && digits[0] != '0');
                assert(strip_zeros(digits) == digits);
                assert(hex_chars_of((b / 16) as nat) =~= seq![hex_char((b / 16) as u8)]);
                assert(hex_chars_of(b as nat) =~= digits);
            }
        } else {
            assert(hex_chars_of(v2).len() >= 1);
            lemma_strip_pass(hex_nibbles(s2), digits);
            assert(strip_zeros(hex_nibbles(s)) == hex_chars_of(v2) + digits);
            assert(v >= 256);
            assert(v % 16 == b % 16 && v / 16 == v2 * 16 + b / 16) by (nonlinear_arith)
                requires
                    v == v2 * 256 + b,
                    0 <= b < 256,
                    v2 >= 0,
            ;
            let w = v / 16;
            assert(w >= 16) by (nonlinear_arith)
                requires
                    w == v2 * 16 + b / 16,
                    v2 >= 1,
                    b >= 0,
            ;
            assert(w % 16 == (b / 16) % 16 && w / 16 == v2) by (nonlinear_arith)
                requires
                    w == v2 * 16 + b / 16,
                    0 <= b / 16 < 16,
            ;
            assert((b / 16) % 16 == b / 16);
            assert(hex_chars_of(w) == hex_chars_of(v2) + seq![hex_char((b / 16) as u8)]);
            assert(hex_chars_of(v) == hex_chars_of(w) + seq![hex_char((b % 16) as u8)]);
            assert(hex_chars_of(v) =~= hex_chars_of(v2) + digits);
        }
    }
}

/// The whole rendering, read as numbers: with a clear sign bit the output
/// is the plain hex of the digest's value (empty for zero); with the sign
/// bit set it is a minus sign and the hex of the value's two's complement.
pub proof fn lemma_hex_digest_value(hash: Seq<u8>)
    requires
        hash.len() == 20,
    ensures
        hash[0] < 0x80 && be_value(hash) == 0 ==> spec_hex_digest(hash) == Seq::<char>::empty(),
        hash[0] < 0x80 && be_value(hash) > 0 ==> spec_hex_digest(hash) == hex_chars_of(
            be_value(hash),
        ),
        hash[0] >= 0x80 ==> spec_hex_digest(hash) == seq!['-'] + hex_chars_of(
            (pow2(160) - be_value(hash)) as nat,
        ),
{
    lemma_be_value_bound(hash);
    if hash[0] >= 0x80 {
        lemma_neg_bytes_value(hash);
        let v = be_value(hash);
        assert(v > 0) by {
            assert(be_value(hash) >= hash[0] * pow2(152)) by {
                assert(8 * (hash.len() - 1) == 152);
            }
            vstd::arithmetic::power2::lemma_pow2_pos(152);
            assert(hash[0] * pow2(152) >= pow2(152)) by (nonlinear_arith)
                requires
                    hash[0] >= 1,
                    pow2(152) >= 1,
            ;
        }
        vstd::arithmetic::div_mod::lemma_small_mod(
            (pow2(160) - v) as nat,
            pow2(160),
        );
        assert(be_value(neg_bytes(hash).0) == pow2(160) - v);
        assert(pow2(160) - v > 0);
        lemma_hex_digits_value(neg_bytes(hash).0);
    } else {
        lemma_hex_digits_value(hash);
    }
}

/// Render a 20-byte digest with the service's signed-hex convention.
pub fn calc_hash(hash: &Vec<u8>) -> (r: String)
    requires
        hash@.len() == 20,
    ensures
        r@ == spec_hex_digest(hash@),
{
    let negative: bool = hash[0] >= 0x80;
    if negative {
        let magnitude: Vec<u8> = twos_complement(hash);
        let hex: String = hex_stripped(&magnitude);
        let mut out = String::new();
        out.push('-');
        out.append(hex.as_str());
        proof {
            assert(out@ =~= spec_hex_digest(hash@));
        }
        out
    } else {
        hex_stripped(hash)
    }
}

/// The signed-hex SHA-1 of a string's UTF-8 bytes.
pub fn calc_hash_from_str(name: &str) -> (r: String)
    ensures
        r@ == spec_hex_digest(sha1_of(vstd::utf8::encode_utf8(name@))),
{
    let bytes: Vec<u8> = vstd::string::StrSliceExecFns::as_bytes_vec(name);
    let digest: Vec<u8> = sha1(&bytes);
    calc_hash(&digest)
}

/// The server-id hash of the login handshake: the signed-hex SHA-1 over the
/// empty server id, the shared secret and the server's DER public key.
pub fn server_id_hash(shared_secret: &Vec<u8>, encoded_public_key: &Vec<u8>) -> (r: String)
    ensures
        r@ == spec_hex_digest(sha1_of(shared_secret@ + encoded_public_key@)),
{
    let mut data: Vec<u8> = Vec::new();
    data.extend_from_slice(shared_secret.as_slice());
    data.extend_from_slice(encoded_public_key.as_slice());
    proof {
        assert(data@ =~= shared_secret@ + encoded_public_key@);
    }
    let digest: Vec<u8> = sha1(&data);
    calc_hash(&digest)
}

} // verus!
