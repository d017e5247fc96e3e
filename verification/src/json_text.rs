//! The JSON documents the server sends: the status response and the
//! disconnect reason.  Both are fixed shapes around escaped strings and
//! decimal numbers, so they are built, and specified, character by
//! character.

use vstd::prelude::*;

use crate::auth_hash::{hex_char, hex_char_exec};
use crate::text::{dec_chars_i32, int_to_string};

verus! {

/// How one character appears inside a JSON string literal: quote,
/// backslash and the named control characters get a two-character escape,
/// other control characters a `\u00..` escape, everything else itself.
pub open spec fn json_escape_char(c: char) -> Seq<char> {
    if c == '"' {
        seq!['\\', '"']
    } else if c == '\\' {
        seq!['\\', '\\']
    } else if c == '\u{8}' {
        seq!['\\', 'b']
    } else if c == '\u{c}' {
        seq!['\\', 'f']
    } else if c == '\n' {
        seq!['\\', 'n']
    } else if c == '\r' {
        seq!['\\', 'r']
    } else if c == '\t' {
        seq!['\\', 't']
    } else if (c as u32) < 0x20 {
        seq!['\\', 'u', '0', '0', hex_char(((c as u32) / 16) as u8), hex_char(
            ((c as u32) % 16) as u8,
        )]
    } else {
        seq![c]
    }
}

/// A string's characters as they appear inside a JSON string literal.
pub open spec fn json_escape(s: Seq<char>) -> Seq<char>
    decreases s.len(),
{
    if s.len() == 0 {
        seq![]
    } else {
        json_escape_char(s[0]) + json_escape(s.drop_first())
    }
}

/// Escaping one more character appends its escape.
proof fn lemma_json_escape_push(s: Seq<char>, c: char)
    ensures
        json_escape(s.push(c)) == json_escape(s) + json_escape_char(c),
    decreases s.len(),
{
    if s.len() == 0 {
        assert(s.push(c)[0] == c);
        assert(s.push(c).drop_first() =~= Seq::<char>::empty());
        assert(json_escape(Seq::<char>::empty()) =~= Seq::<char>::empty());
        assert(json_escape(s.push(c)) =~= json_escape(s) + json_escape_char(c));
    } else {
        assert(s.push(c)[0] == s[0]);
        assert(s.push(c).drop_first() =~= s.drop_first().push(c));
        lemma_json_escape_push(s.drop_first(), c);
        assert(json_escape(s.push(c)) =~= json_escape(s) + json_escape_char(c));
    }
}

/// An escape takes at most six characters.
pub proof fn lemma_json_escape_len(s: Seq<char>)
    ensures
        json_escape(s).len() <= 6 * s.len(),
    decreases s.len(),
{
    if s.len() > 0 {
        lemma_json_escape_len(s.drop_first());
    }
}

fn push_escaped_char(out: &mut String, c: char)
    ensures
        final(out)@ == old(out)@ + json_escape_char(c),
{
    if c == '"' {
        out.push('\\');
        out.push('"');
    } else if c == '\\' {
        out.push('\\');
        out.push('\\');
    } else if c == '\u{8}' {
        out.push('\\');
        out.push('b');
    } else if c == '\u{c}' {
        out.push('\\');
        out.push('f');
    } else if c == '\n' {
        out.push('\\');
        out.push('n');
    } else if c == '\r' {
        out.push('\\');
        out.push('r');
    } else if c == '\t' {
        out.push('\\');
        out.push('t');
    } else if (c as u32) < 0x20 {
        let u: u32 = c as u32;
        out.push('\\');
        out.push('u');
        out.push('0');
        out.push('0');
        out.push(hex_char_exec((u / 16) as u8));
        out.push(hex_char_exec((u % 16) as u8));
    } else {
        out.push(c);
    }
    assert(final(out)@ =~= old(out)@ + json_escape_char(c));
}

/// Append `s` to `out` in its escaped form.
pub fn append_escaped(out: &mut String, s: &str)
    ensures
        final(out)@ == old(out)@ + json_escape(s@),
{
    let ghost base = out@;
    let n: usize = vstd::string::StrSliceExecFns::unicode_len(s);
    let mut i: usize = 0;
    proof {
        assert(s@.take(0) =~= Seq::<char>::empty());
    }
    while i < n
        invariant
            n == s@.len(),
            i <= n,
            out@ == base + json_escape(s@.take(i as int)),
        decreases n - i,
    {
        let c: char = vstd::string::StrSliceExecFns::get_char(s, i);
        push_escaped_char(out, c);
        proof {
            lemma_json_escape_push(s@.take(i as int), c);
            assert(s@.take(i + 1) =~= s@.take(i as int).push(c));
        }
        i = i + 1;
    }
    proof {
        assert(s@.take(n as int) =~= s@);
    }
}

/// The disconnect reason document: one `text` member.
pub open spec fn spec_disconnect_json(reason: Seq<char>) -> Seq<char> {
    "{\"text\":\""@ + json_escape(reason) + "\"}"@
}

/// The disconnect document is bounded by the reason's escaped length.
pub proof fn lemma_disconnect_json_len(reason: Seq<char>)
    ensures
        spec_disconnect_json(reason).len() <= 16 + 6 * reason.len(),
{
    reveal_strlit("{\"text\":\"");
    reveal_strlit("\"}");
    lemma_json_escape_len(reason);
}

/// Build the disconnect reason document.
pub fn disconnect_json(reason: &str) -> (r: String)
    ensures
        r@ == spec_disconnect_json(reason@),
{
    let mut out: String = "{\"text\":\"".to_owned();
    append_escaped(&mut out, reason);
    out.append("\"}");
    proof {
        assert(out@ =~= spec_disconnect_json(reason@));
    }
    out
}

/// The status response document: version name and protocol, player counts
/// with a fixed online count and an empty sample, the message of the day,
/// and the secure-chat flag.
pub open spec fn spec_status_json(
    version_name: Seq<char>,
    protocol: i32,
    max_players: i32,
    motd: Seq<char>,
) -> Seq<char> {
    "{\"version\":{\"name\":\""@ + json_escape(version_name) + "\",\"protocol\":"@ + dec_chars_i32(
        protocol,
    ) + "},\"players\":{\"max\":"@ + dec_chars_i32(max_players)
        + ",\"online\":69,\"sample\":[]},\"description\":{\"text\":\""@ + json_escape(motd)
        + "\"},\"enforcesSecureChat\":false}"@
}

/// The status document is bounded by its inputs' escaped lengths.
pub proof fn lemma_status_json_len(
    version_name: Seq<char>,
    protocol: i32,
    max_players: i32,
    motd: Seq<char>,
)
    ensures
        spec_status_json(version_name, protocol, max_players, motd).len() <= 200 + 6
            * version_name.len() + 6 * motd.len(),
{
    reveal_strlit("{\"version\":{\"name\":\"");
    reveal_strlit("\",\"protocol\":");
    reveal_strlit("},\"players\":{\"max\":");
    reveal_strlit(",\"online\":69,\"sample\":[]},\"description\":{\"text\":\"");
    reveal_strlit("\"},\"enforcesSecureChat\":false}");
    lemma_json_escape_len(version_name);
    lemma_json_escape_len(motd);
    crate::text::lemma_dec_chars_i32_len(protocol);
    crate::text::lemma_dec_chars_i32_len(max_players);
}

/// Build the status response document.
pub fn status_json(version_name: &str, protocol: i32, max_players: i32, motd: &str) -> (r: String)
    ensures
        r@ == spec_status_json(version_name@, protocol, max_players, motd@),
{
    let mut out: String = "{\"version\":{\"name\":\"".to_owned();
    append_escaped(&mut out, version_name);
    out.append("\",\"protocol\":");
    let protocol_text: String = int_to_string(protocol);
    out.append(protocol_text.as_str());
    out.append("},\"players\":{\"max\":");
    let max_text: String = int_to_string(max_players);
    out.append(max_text.as_str());
    out.append(",\"online\":69,\"sample\":[]},\"description\":{\"text\":\"");
    append_escaped(&mut out, motd);
    out.append("\"},\"enforcesSecureChat\":false}");
    proof {
        assert(out@ =~= spec_status_json(version_name@, protocol, max_players, motd@));
    }
    out
}

} // verus!
