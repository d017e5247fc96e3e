//! The session-server side of authenticated login: the shape of the
//! verification response, the endpoint the request goes to, and the parser
//! for the textual identifier the service confirms.  The HTTP call itself
//! is made outside the library and its result handed back in.

use vstd::prelude::*;

verus! {

use vstd::arithmetic::power2::{pow2, lemma_pow2_adds, lemma2_to64, lemma_pow2_strictly_increases};

/// What the session server answers when the player has joined.
pub struct SessionServerHasJoinedResponse {
    pub id: String,
    pub name: String,
    pub properties: Vec<SessionServerProperty>,
}

/// One signed profile property of the response.
pub struct SessionServerProperty {
    pub name: String,
    pub value: String,
    pub signature: String,
}

/// The query path of the has-joined lookup for a player and server hash.
pub open spec fn spec_session_endpoint(username: Seq<char>, hash: Seq<char>) -> Seq<char> {
    "/session/minecraft/hasJoined?username="@ + username + "&serverId="@ + hash
}

/// Build the query path of the has-joined lookup.
pub fn session_endpoint(username: &str, hash: &str) -> (r: String)
    ensures
        r@ == spec_session_endpoint(username@, hash@),
{
    let mut out: String = "/session/minecraft/hasJoined?username=".to_owned();
    out.append(username);
    out.append("&serverId=");
    out.append(hash);
    proof {
        assert(out@ =~= spec_session_endpoint(username@, hash@));
    }
    out
}

/// The value of a hex digit character, or a negative number for any other
/// character.
pub open spec fn hex_val(c: char) -> int {
    let u = c as u32;
    if 48 <= u && u <= 57 {
        u - 48
    } else if 97 <= u && u <= 102 {
        u - 87
    } else if 65 <= u && u <= 70 {
        u - 55
    } else {
        -1
    }
}

/// The digit characters of an identifier text: the text itself for the
/// plain 32-character form, the four dash-separated groups joined for the
/// 36-character form.
pub open spec fn uuid_digits(s: Seq<char>) -> Seq<char> {
    if s.len() == 36 {
        s.subrange(0, 8) + s.subrange(9, 13) + s.subrange(14, 18) + s.subrange(19, 23)
            + s.subrange(24, 36)
    } else {
        s
    }
}

/// A well-formed textual identifier: 32 hex digits, or the dashed
/// 8-4-4-4-12 form of the same digits.
pub open spec fn is_uuid_text(s: Seq<char>) -> bool {
    &&& (s.len() == 32 || (s.len() == 36 && s[8] == '-' && s[13] == '-' && s[18] == '-' && s[23]
        == '-'))
    &&& forall|i: int| 0 <= i < uuid_digits(s).len() ==> hex_val(#[trigger] uuid_digits(s)[i]) >= 0
}

/// The value of a big-endian hex digit sequence (non-digits count as 0).
pub open spec fn hex_value(s: Seq<char>) -> nat
    decreases s.len(),
{
    if s.len() == 0 {
        0
    } else {
        (hex_value(s.drop_last()) * 16 + (if hex_val(s.last()) >= 0 {
            hex_val(s.last())
        } else {
            0
        })) as nat
    }
}

proof fn lemma_hex_value_bound(s: Seq<char>)
    ensures
        hex_value(s) < pow2(4 * s.len()),
    decreases s.len(),
{
    lemma2_to64();
    if s.len() > 0 {
        lemma_hex_value_bound(s.drop_last());
        lemma_pow2_adds((4 * (s.len() - 1)) as nat, 4);
        assert(hex_value(s.drop_last()) * 16 + 16 <= pow2((4 * (s.len() - 1)) as nat) * 16)
            by (nonlinear_arith)
            requires
                hex_value(s.drop_last()) < pow2((4 * (s.len() - 1)) as nat),
        ;
    }
}

fn hex_digit(c: char) -> (r: Option<u8>)
    ensures
        match r {
            Some(v) => hex_val(c) == v && v < 16,
            None => hex_val(c) < 0,
        },
{
    let u: u32 = c as u32;
    if 48 <= u && u <= 57 {
        Some((u - 48) as u8)
    } else if 97 <= u && u <= 102 {
        Some((u - 87) as u8)
    } else if 65 <= u && u <= 70 {
        Some((u - 55) as u8)
    } else {
        None
    }
}

/// Parse a textual identifier into its 128-bit value: exactly the
/// well-formed texts parse, to the value of their hex digits.
pub fn parse_uuid(text: &str) -> (r: Option<u128>)
    ensures
        r is Some <==> is_uuid_text(text@),
        r matches Some(v) ==> v == hex_value(uuid_digits(text@)),
{
    let n: usize = vstd::string::StrSliceExecFns::unicode_len(text);
    if n != 32 && n != 36 {
        return None;
    }
    let digits: String = if n == 36 {
        if !(vstd::string::StrSliceExecFns::get_char(text, 8) == '-'
            && vstd::string::StrSliceExecFns::get_char(text, 13) == '-'
            && vstd::string::StrSliceExecFns::get_char(text, 18) == '-'
            && vstd::string::StrSliceExecFns::get_char(text, 23) == '-') {
            return None;
        }
        let mut t: String = String::new();
        t.append(vstd::string::StrSliceExecFns::substring_char(text, 0, 8));
        t.append(vstd::string::StrSliceExecFns::substring_char(text, 9, 13));
        t.append(vstd::string::StrSliceExecFns::substring_char(text, 14, 18));
        t.append(vstd::string::StrSliceExecFns::substring_char(text, 19, 23));
        t.append(vstd::string::StrSliceExecFns::substring_char(text, 24, 36));
        proof {
            assert(t@ =~= uuid_digits(text@));
        }
        t
    } else {
        let t: String = text.to_owned();
        proof {
            assert(t@ =~= uuid_digits(text@));
        }
        t
    };
    let ghost ds = uuid_digits(text@);
    let m: usize = vstd::string::StrSliceExecFns::unicode_len(digits.as_str());
    assert(m == 32);
    let mut acc: u128 = 0;
    let mut i: usize = 0;
    proof {
        lemma2_to64();
        lemma_pow2_adds(64, 64);
        assert(ds.take(0) =~= Seq::<char>::empty());
    }
    while i < m
        invariant
            m == 32,
            ds == uuid_digits(text@),
            ds.len() == 32,
            digits@ == ds,
            i <= m,
            acc == hex_value(ds.take(i as int)),
            acc < pow2((4 * i) as nat),
            pow2(128) == 0x1_0000_0000_0000_0000_0000_0000_0000_0000,
            forall|j: int| 0 <= j < i ==> hex_val(#[trigger] ds[j]) >= 0,
        decreases m - i,
    {
        let c: char = vstd::string::StrSliceExecFns::get_char(digits.as_str(), i);
        let v: u8 = match hex_digit(c) {
            Some(v) => v,
            None => {
                proof {
                    assert(uuid_digits(text@)[i as int] == c);
                    assert(hex_val(uuid_digits(text@)[i as int]) < 0);
                }
                return None;
            },
        };
        proof {
            lemma2_to64();
            lemma_pow2_adds((4 * i) as nat, 4);
            assert(acc * 16 + v < pow2((4 * i) as nat) * 16) by (nonlinear_arith)
                requires
                    acc < pow2((4 * i) as nat),
                    v < 16,
            ;
            if 4 * (i + 1) < 128 {
                lemma_pow2_strictly_increases((4 * (i + 1)) as nat, 128);
            }
            assert(ds.take(i + 1).drop_last() =~= ds.take(i as int));
            assert(ds.take(i + 1).last() == c);
        }
        acc = acc * 16 + v as u128;
        i = i + 1;
    }
    proof {
        assert(ds.take(32) =~= ds);
    }
    Some(acc)
}

} // verus!
