//! JSON framing for the request bodies the library sends to the token
//! endpoint.
//!
//! Only string values are framed: a quoted string escapes the quote and the
//! backslash, and writes control characters as `\u00` plus two lowercase hex
//! digits. Everything else passes through, so the body stays valid JSON for
//! any token, code or secret.

use vstd::prelude::*;

use crate::hexfmt::hex_char;

verus! {

/// How one character appears inside a JSON string literal.
pub open spec fn json_escape_char(c: char) -> Seq<char> {
    if c == '"' {
        seq!['\\', '"']
    } else if c == '\\' {
        seq!['\\', '\\']
    } else if (c as u32) < 0x20 {
        seq![
            '\\',
            'u',
            '0',
            '0',
            hex_char(((c as u32) / 16) as nat),
            hex_char(((c as u32) % 16) as nat),
        ]
    } else {
        seq![c]
    }
}

/// How a text value appears inside a JSON string literal.
pub open spec fn json_escaped(s: Seq<char>) -> Seq<char>
    decreases s.len(),
{
    if s.len() == 0 {
        Seq::empty()
    } else {
        json_escaped(s.drop_last()) + json_escape_char(s.last())
    }
}

/// A JSON string literal for the given text.
pub open spec fn json_str(s: Seq<char>) -> Seq<char> {
    seq!['"'] + json_escaped(s) + seq!['"']
}

pub proof fn lemma_json_escaped_push(s: Seq<char>, c: char)
    ensures
        json_escaped(s.push(c)) == json_escaped(s) + json_escape_char(c),
{
    assert(s.push(c).drop_last() =~= s);
    assert(s.push(c).last() == c);
}

/// Appends the JSON string literal for `s` to `out`.
pub fn push_json_str(out: &mut Vec<char>, s: &str)
    ensures
        final(out)@ == old(out)@ + json_str(s@),
{
    out.push('"');
    let ghost prefix = out@;
    let v = crate::chars::chars_of_str(s);
    let n = v.len();
    let mut i: usize = 0;
    while i < n
        invariant
            n == v@.len(),
            v@ == s@,
            i <= n,
            out@ == prefix + json_escaped(v@.take(i as int)),
        decreases n - i,
    {
        let c = v[i];
        proof {
            lemma_json_escaped_push(v@.take(i as int), c);
            assert(v@.take(i as int).push(v@[i as int]) =~= v@.take(i as int + 1));
        }
        if c == '"' {
            out.push('\\');
            out.push('"');
        } else if c == '\\' {
            out.push('\\');
            out.push('\\');
        } else if (c as u32) < 0x20 {
            let cp: u32 = c as u32;
            out.push('\\');
            out.push('u');
            out.push('0');
            out.push('0');
            out.push(crate::hexfmt::hex_char_of((cp / 16) as u64));
            out.push(crate::hexfmt::hex_char_of((cp % 16) as u64));
        } else {
            out.push(c);
        }
        i = i + 1;
    }
    out.push('"');
    proof {
        assert(v@.take(n as int) =~= v@);
        assert(out@ =~= old(out)@ + json_str(s@));
    }
}

} // verus!
