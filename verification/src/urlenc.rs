//! Form-urlencoding of query-string values.
//!
//! A value is encoded byte by byte over its UTF-8 form: space becomes `+`,
//! ASCII alphanumerics and `*-._` stand for themselves, and every other byte
//! becomes `%` followed by two uppercase hex digits.

use vstd::prelude::*;
use vstd::string::StringSliceAdditionalSpecFns;

verus! {

/// Bytes that stand for themselves in a query string.
pub open spec fn is_urlenc_unreserved(b: u8) -> bool {
    ||| 0x30 <= b <= 0x39
    ||| 0x41 <= b <= 0x5A
    ||| 0x61 <= b <= 0x7A
    ||| b == 0x2A
    ||| b == 0x2D
    ||| b == 0x2E
    ||| b == 0x5F
}

/// The uppercase hex digit for a value below sixteen.
pub open spec fn hex_up(d: nat) -> char {
    if d == 0 {
        '0'
    } else if d == 1 {
        '1'
    } else if d == 2 {
        '2'
    } else if d == 3 {
        '3'
    } else if d == 4 {
        '4'
    } else if d == 5 {
        '5'
    } else if d == 6 {
        '6'
    } else if d == 7 {
        '7'
    } else if d == 8 {
        '8'
    } else if d == 9 {
        '9'
    } else if d == 10 {
        'A'
    } else if d == 11 {
        'B'
    } else if d == 12 {
        'C'
    } else if d == 13 {
        'D'
    } else if d == 14 {
        'E'
    } else {
        'F'
    }
}

/// How one byte of a value appears in a query string.
pub open spec fn form_enc_byte(b: u8) -> Seq<char> {
    if b == 0x20 {
        seq!['+']
    } else if is_urlenc_unreserved(b) {
        seq![b as char]
    } else {
        seq!['%', hex_up((b / 16) as nat), hex_up((b % 16) as nat)]
    }
}

/// How a byte string appears in a query string.
pub open spec fn form_enc_bytes(bs: Seq<u8>) -> Seq<char>
    decreases bs.len(),
{
    if bs.len() == 0 {
        Seq::empty()
    } else {
        form_enc_bytes(bs.drop_last()) + form_enc_byte(bs.last())
    }
}

/// How a text value appears in a query string: its UTF-8 bytes, each
/// encoded.
pub open spec fn form_enc(s: Seq<char>) -> Seq<char> {
    form_enc_bytes(vstd::utf8::encode_utf8(s))
}

pub proof fn lemma_form_enc_bytes_push(bs: Seq<u8>, b: u8)
    ensures
        form_enc_bytes(bs.push(b)) == form_enc_bytes(bs) + form_enc_byte(b),
{
    assert(bs.push(b).drop_last() =~= bs);
    assert(bs.push(b).last() == b);
}

/// The uppercase hex digit of a value below sixteen.
fn hex_up_of(d: u8) -> (c: char)
    requires
        d < 16,
    ensures
        c == hex_up(d as nat),
{
    if d == 0 {
        '0'
    } else if d == 1 {
        '1'
    } else if d == 2 {
        '2'
    } else if d == 3 {
        '3'
    } else if d == 4 {
        '4'
    } else if d == 5 {
        '5'
    } else if d == 6 {
        '6'
    } else if d == 7 {
        '7'
    } else if d == 8 {
        '8'
    } else if d == 9 {
        '9'
    } else if d == 10 {
        'A'
    } else if d == 11 {
        'B'
    } else if d == 12 {
        'C'
    } else if d == 13 {
        'D'
    } else if d == 14 {
        'E'
    } else {
        'F'
    }
}

/// Appends the query-string encoding of `s` to `out`.
pub fn push_form_enc(out: &mut Vec<char>, s: &str)
    ensures
        final(out)@ == old(out)@ + form_enc(s@),
{
    let bytes = s.as_bytes();
    let ghost prefix = out@;
    let n = bytes.len();
    let mut i: usize = 0;
    while i < n
        invariant
            n == bytes@.len(),
            i <= n,
            out@ == prefix + form_enc_bytes(bytes@.take(i as int)),
        decreases n - i,
    {
        let b = bytes[i];
        proof {
            lemma_form_enc_bytes_push(bytes@.take(i as int), b);
            assert(bytes@.take(i as int).push(bytes@[i as int]) =~= bytes@.take(i as int + 1));
        }
        if b == 0x20 {
            out.push('+');
        } else if (0x30 <= b && b <= 0x39) || (0x41 <= b && b <= 0x5A) || (0x61 <= b && b
            <= 0x7A) || b == 0x2A || b == 0x2D || b == 0x2E || b == 0x5F {
            out.push(b as char);
        } else {
            out.push('%');
            out.push(hex_up_of(b / 16));
            out.push(hex_up_of(b % 16));
        }
        i = i + 1;
    }
    proof {
        assert(bytes@.take(n as int) =~= bytes@);
        assert(bytes@ == s.spec_bytes());
    }
}

/// Appends the characters of a literal to `out` unchanged.
pub fn push_chars(out: &mut Vec<char>, s: &str)
    ensures
        final(out)@ == old(out)@ + s@,
{
    let v = crate::chars::chars_of_str(s);
    let ghost prefix = out@;
    let n = v.len();
    let mut i: usize = 0;
    while i < n
        invariant
            n == v@.len(),
            v@ == s@,
            i <= n,
            out@ == prefix + v@.take(i as int),
        decreases n - i,
    {
        proof {
            assert(v@.take(i as int).push(v@[i as int]) =~= v@.take(i as int + 1));
        }
        out.push(v[i]);
        i = i + 1;
    }
    proof {
        assert(v@.take(n as int) =~= v@);
    }
}

} // verus!
