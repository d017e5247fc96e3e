//! Small string-building helpers shared across the library: appending one
//! character, and rendering integers in decimal.

use vstd::prelude::*;

verus! {

/// Relies on `String::push`: it appends exactly the one character.
pub assume_specification[ String::push ](s: &mut String, c: char)
    ensures
        final(s)@ == old(s)@.push(c),
;

/// The decimal digit character for `n`.
pub open spec fn dec_char(n: nat) -> char
    recommends
        n < 10,
{
    if n == 0 {
        '0'
    } else if n == 1 {
        '1'
    } else if n == 2 {
        '2'
    } else if n == 3 {
        '3'
    } else if n == 4 {
        '4'
    } else if n == 5 {
        '5'
    } else if n == 6 {
        '6'
    } else if n == 7 {
        '7'
    } else if n == 8 {
        '8'
    } else {
        '9'
    }
}

/// The decimal digits of `n`, most significant first, with no leading
/// zeros ('0' itself for zero).
pub open spec fn dec_chars(n: nat) -> Seq<char>
    decreases n,
{
    if n < 10 {
        seq![dec_char(n)]
    } else {
        dec_chars(n / 10) + seq![dec_char(n % 10)]
    }
}

/// The decimal rendering of a signed 32-bit value: a minus sign for a
/// negative one, then the digits of its magnitude.
pub open spec fn dec_chars_i32(n: i32) -> Seq<char> {
    if n < 0 {
        seq!['-'] + dec_chars((-n) as nat)
    } else {
        dec_chars(n as nat)
    }
}

fn dec_char_exec(n: u32) -> (c: char)
    requires
        n < 10,
    ensures
        c == dec_char(n as nat),
{
    if n == 0 {
        '0'
    } else if n == 1 {
        '1'
    } else if n == 2 {
        '2'
    } else if n == 3 {
        '3'
    } else if n == 4 {
        '4'
    } else if n == 5 {
        '5'
    } else if n == 6 {
        '6'
    } else if n == 7 {
        '7'
    } else if n == 8 {
        '8'
    } else {
        '9'
    }
}

fn push_dec(out: &mut String, n: u32)
    ensures
        final(out)@ == old(out)@ + dec_chars(n as nat),
    decreases n,
{
    if n < 10 {
        out.push(dec_char_exec(n));
        assert(final(out)@ =~= old(out)@ + dec_chars(n as nat));
    } else {
        push_dec(out, n / 10);
        out.push(dec_char_exec(n % 10));
        assert(final(out)@ =~= old(out)@ + dec_chars(n as nat));
    }
}

/// Powers of ten.
pub open spec fn pow10(k: nat) -> nat
    decreases k,
{
    if k == 0 {
        1
    } else {
        10 * pow10((k - 1) as nat)
    }
}

proof fn lemma_dec_chars_len_rec(n: nat, k: nat)
    requires
        k >= 1,
        n < pow10(k),
    ensures
        dec_chars(n).len() <= k,
    decreases k,
{
    if n >= 10 {
        assert(pow10(1) == 10 * pow10(0));
        assert(k != 1);
        assert(n / 10 < pow10((k - 1) as nat)) by (nonlinear_arith)
            requires
                n < 10 * pow10((k - 1) as nat),
        ;
        lemma_dec_chars_len_rec(n / 10, (k - 1) as nat);
    }
}

/// A 32-bit value takes at most eleven characters in decimal.
pub proof fn lemma_dec_chars_i32_len(n: i32)
    ensures
        dec_chars_i32(n).len() <= 11,
{
    reveal_with_fuel(pow10, 12);
    assert(pow10(10) == 10000000000);
    if n < 0 {
        lemma_dec_chars_len_rec((-n) as nat, 10);
    } else {
        lemma_dec_chars_len_rec(n as nat, 10);
    }
}

/// Render a signed 32-bit value in decimal.
pub fn int_to_string(n: i32) -> (r: String)
    ensures
        r@ == dec_chars_i32(n),
{
    let mut out = String::new();
    if n < 0 {
        out.push('-');
        let magnitude: u32 = if n == i32::MIN {
            0x8000_0000u32
        } else {
            (0 - n) as u32
        };
        push_dec(&mut out, magnitude);
        assert(out@ =~= dec_chars_i32(n));
    } else {
        push_dec(&mut out, n as u32);
        assert(out@ =~= dec_chars_i32(n));
    }
    out
}

} // verus!
