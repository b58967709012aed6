//! The cookie wire format for `Session` values.
//!
//! An encoded cookie is a single line of lowercase hex digits behind an
//! explicit variant tag, closed by a checksum over everything before it:
//!
//! * `T` `len:8` `chars:6 each` `checksum:8` — a pending-login verifier;
//! * `L` `len_a:8` `len_r:8` `access chars` `refresh chars` `expiry:16`
//!   `checksum:8` — a logged-in session.
//!
//! Each character of a text field is written as six hex digits of its code
//! point; the expiry timestamp as sixteen hex digits of its two's-complement
//! bits. Every number is fixed width, so each well-formed session value has
//! exactly one spelling. `decode` accepts precisely those spellings: anything
//! else — a truncated value, a flipped bit the checksum catches, a forged
//! tail, a non-canonical digit — is rejected, never mis-read.

use vstd::prelude::*;

use crate::chars::{char_from_u32, chars_of_str, string_from_chars};
use crate::hexfmt::{
    hex_seq_val, hex_w, is_hex_char, lemma_hex_seq_canonical, lemma_hex_w_all_hex,
    lemma_hex_w_len, lemma_hex_w_val, lemma_pow16_values, parse_hex, pow16, push_hex,
};
use crate::session::{
    LoggedInSession, LoggedInSessionView, Session, SessionView, TempCodeVerifierSession,
    TempCodeVerifierSessionView, MAX_FIELD_CHARS,
};

verus! {

/// Encoding fails only when a text field is too long for the format's
/// length header.
#[derive(Debug, Clone, PartialEq, Eq)]
pub enum EncodeError {
    FieldTooLong,
}

/// Any cookie that is not the canonical spelling of a session value decodes
/// to this, and is treated the same as an absent cookie.
#[derive(Debug, Clone, PartialEq, Eq)]
pub struct DecodeError;

/// The six-digit spelling of one character.
pub open spec fn enc_char(c: char) -> Seq<char> {
    hex_w((c as u32) as nat, 6)
}

/// The spelling of a text field: each character in turn.
pub open spec fn enc_text(s: Seq<char>) -> Seq<char>
    decreases s.len(),
{
    if s.len() == 0 {
        Seq::empty()
    } else {
        enc_text(s.drop_last()) + enc_char(s.last())
    }
}

/// Sum of the code points of a character sequence.
pub open spec fn sum_chars(s: Seq<char>) -> nat
    decreases s.len(),
{
    if s.len() == 0 {
        0nat
    } else {
        sum_chars(s.drop_last()) + (s.last() as u32) as nat
    }
}

/// The integrity checksum written at the end of a cookie: the code-point sum
/// of everything before it, reduced to 32 bits.
pub open spec fn checksum(s: Seq<char>) -> nat {
    sum_chars(s) % 0x100000000
}

/// The two's-complement bit pattern of a 64-bit timestamp, as a number.
pub open spec fn i64_bits(v: int) -> nat {
    if v >= 0 {
        v as nat
    } else {
        (v + 0x10000000000000000) as nat
    }
}

/// Everything of the encoded cookie except the trailing checksum.
pub open spec fn payload_of(v: SessionView) -> Seq<char> {
    match v {
        SessionView::TempCodeVerifier(t) => seq!['T'] + hex_w(t.code_verifier.len(), 8)
            + enc_text(t.code_verifier),
        SessionView::LoggedIn(l) => seq!['L'] + hex_w(l.access_token.len(), 8) + hex_w(
            l.refresh_token.len(),
            8,
        ) + enc_text(l.access_token) + enc_text(l.refresh_token) + hex_w(
            i64_bits(l.expires_at),
            16,
        ),
    }
}

/// The canonical cookie spelling of a session value.
pub open spec fn spec_encode(v: SessionView) -> Seq<char> {
    payload_of(v) + hex_w(checksum(payload_of(v)), 8)
}

/// True when the string is the canonical spelling of some well-formed
/// session value.
pub open spec fn decodable(t: Seq<char>) -> bool {
    exists|v: SessionView| v.wf() && t == spec_encode(v)
}

/// The session value a decodable string spells. By injectivity of
/// `spec_encode` there is exactly one.
pub open spec fn decoded_of(t: Seq<char>) -> SessionView {
    choose|v: SessionView| v.wf() && t == spec_encode(v)
}

pub proof fn lemma_enc_text_len(s: Seq<char>)
    ensures
        enc_text(s).len() == 6 * s.len(),
    decreases s.len(),
{
    if s.len() > 0 {
        lemma_enc_text_len(s.drop_last());
        lemma_hex_w_len((s.last() as u32) as nat, 6);
    }
}

pub proof fn lemma_enc_text_push(s: Seq<char>, c: char)
    ensures
        enc_text(s.push(c)) == enc_text(s) + enc_char(c),
{
    assert(s.push(c).drop_last() =~= s);
    assert(s.push(c).last() == c);
}

/// The six digits at slot `i` of an encoded text field spell its `i`-th
/// character.
pub proof fn lemma_enc_text_index(s: Seq<char>, i: int)
    requires
        0 <= i < s.len(),
    ensures
        enc_text(s).len() == 6 * s.len(),
        enc_text(s).subrange(6 * i, 6 * i + 6) == enc_char(s[i]),
    decreases s.len(),
{
    lemma_enc_text_len(s);
    let front = s.drop_last();
    lemma_enc_text_len(front);
    lemma_hex_w_len((s.last() as u32) as nat, 6);
    if i < s.len() - 1 {
        lemma_enc_text_index(front, i);
        assert(enc_text(s).subrange(6 * i, 6 * i + 6) =~= enc_text(front).subrange(
            6 * i,
            6 * i + 6,
        ));
        assert(front[i] == s[i]);
    } else {
        assert(enc_text(s).subrange(6 * i, 6 * i + 6) =~= enc_char(s.last()));
    }
}

pub proof fn lemma_sum_chars_push(s: Seq<char>, c: char)
    ensures
        sum_chars(s.push(c)) == sum_chars(s) + (c as u32) as nat,
{
    assert(s.push(c).drop_last() =~= s);
    assert(s.push(c).last() == c);
}

/// Appends the six-digit spellings of all characters of `field` to `out`.
fn push_text(out: &mut Vec<char>, field: &Vec<char>)
    ensures
        final(out)@ == old(out)@ + enc_text(field@),
{
    proof {
        lemma_pow16_values();
    }
    let ghost prefix = out@;
    let mut i: usize = 0;
    while i < field.len()
        invariant
            i <= field@.len(),
            out@ == prefix + enc_text(field@.take(i as int)),
        decreases field@.len() - i,
    {
        let c = field[i];
        proof {
            lemma_pow16_values();
            vstd::utf8::char_is_scalar(c);
            assert(((c as u32) as nat) < pow16(6));
            lemma_enc_text_push(field@.take(i as int), c);
            assert(field@.take(i as int).push(field@[i as int]) =~= field@.take(i as int + 1));
        }
        let cp: u32 = c as u32;
        push_hex(out, cp as u64, 6);
        i = i + 1;
    }
    proof {
        assert(field@.take(field@.len() as int) =~= field@);
    }
}

/// Sums the code points of `cv[..end]`. The caller bounds `end` so the sum
/// cannot overflow.
fn sum_window(cv: &Vec<char>, end: usize) -> (r: u64)
    requires
        end <= cv@.len(),
        end <= 0x1000000000,
    ensures
        r == sum_chars(cv@.take(end as int)),
{
    let mut acc: u64 = 0;
    let mut i: usize = 0;
    while i < end
        invariant
            i <= end,
            end <= cv@.len(),
            end <= 0x1000000000,
            acc == sum_chars(cv@.take(i as int)),
            acc <= i * 0x110000,
        decreases end - i,
    {
        let c = cv[i];
        proof {
            vstd::utf8::char_is_scalar(c);
            assert((c as u32) <= 0x10FFFF);
            lemma_sum_chars_push(cv@.take(i as int), c);
            assert(cv@.take(i as int).push(cv@[i as int]) =~= cv@.take(i as int + 1));
        }
        let cp: u32 = c as u32;
        acc = acc + cp as u64;
        i = i + 1;
    }
    acc
}

/// The bit pattern of a timestamp, computed without overflow.
fn bits_of_i64(e: i64) -> (r: u64)
    ensures
        r == i64_bits(e as int),
        r < pow16(16),
{
    proof {
        lemma_pow16_values();
    }
    if e >= 0 {
        e as u64
    } else {
        ((e + 1) + i64::MAX) as u64 + 0x8000000000000000
    }
}

/// The timestamp a bit pattern spells; inverse of `bits_of_i64`.
fn i64_of_bits(bits: u64) -> (r: i64)
    ensures
        i64_bits(r as int) == bits,
{
    if bits < 0x8000000000000000 {
        bits as i64
    } else {
        let m = (bits - 0x8000000000000000) as i64;
        (m - i64::MAX) - 1
    }
}

/// Encodes a session into its cookie spelling. Fails only when a field is
/// too long for the format's length header.
pub fn encode(session: &Session) -> (r: Result<String, EncodeError>)
    ensures
        r is Ok <==> session@.wf(),
        r matches Ok(s) ==> s@ == spec_encode(session@),
{
    proof {
        lemma_pow16_values();
    }
    match session {
        Session::TempCodeVerifier(t) => {
            let field = chars_of_str(t.code_verifier.as_str());
            let n = field.len();
            if (n as u64) >= MAX_FIELD_CHARS {
                return Err(EncodeError::FieldTooLong);
            }
            let mut out: Vec<char> = Vec::new();
            out.push('T');
            push_hex(&mut out, n as u64, 8);
            push_text(&mut out, &field);
            proof {
                assert(out@ =~= payload_of(session@));
                lemma_payload_len_bound(session@);
            }
            let cs = sum_window(&out, out.len()) % 0x100000000;
            proof {
                assert(out@.take(out@.len() as int) =~= out@);
            }
            push_hex(&mut out, cs, 8);
            proof {
                assert(out@ =~= spec_encode(session@));
            }
            Ok(string_from_chars(out))
        },
        Session::LoggedIn(l) => {
            let access = chars_of_str(l.access_token.as_str());
            let refresh = chars_of_str(l.refresh_token.as_str());
            let na = access.len();
            let nr = refresh.len();
            if (na as u64) >= MAX_FIELD_CHARS || (nr as u64) >= MAX_FIELD_CHARS {
                return Err(EncodeError::FieldTooLong);
            }
            let mut out: Vec<char> = Vec::new();
            out.push('L');
            push_hex(&mut out, na as u64, 8);
            push_hex(&mut out, nr as u64, 8);
            push_text(&mut out, &access);
            push_text(&mut out, &refresh);
            let bits = bits_of_i64(l.expires_at);
            push_hex(&mut out, bits, 16);
            proof {
                assert(out@ =~= payload_of(session@));
                lemma_payload_len_bound(session@);
            }
            let cs = sum_window(&out, out.len()) % 0x100000000;
            proof {
                assert(out@.take(out@.len() as int) =~= out@);
            }
            push_hex(&mut out, cs, 8);
            proof {
                assert(out@ =~= spec_encode(session@));
            }
            Ok(string_from_chars(out))
        },
    }
}

/// A well-formed payload is far below the checksum loop's overflow bound.
proof fn lemma_payload_len_bound(v: SessionView)
    requires
        v.wf(),
    ensures
        payload_of(v).len() <= 41 + 12 * (MAX_FIELD_CHARS as int),
{
    match v {
        SessionView::TempCodeVerifier(t) => {
            lemma_hex_w_len(t.code_verifier.len(), 8);
            lemma_enc_text_len(t.code_verifier);
        },
        SessionView::LoggedIn(l) => {
            lemma_hex_w_len(l.access_token.len(), 8);
            lemma_hex_w_len(l.refresh_token.len(), 8);
            lemma_hex_w_len(i64_bits(l.expires_at), 16);
            lemma_enc_text_len(l.access_token);
            lemma_enc_text_len(l.refresh_token);
        },
    }
}


/// Six positions of `t` starting at `p` spell some character: all hex
/// digits, and their value is a Unicode scalar.
pub open spec fn char_group_ok(t: Seq<char>, p: int) -> bool {
    &&& forall|k: int| p <= k < p + 6 ==> is_hex_char(#[trigger] t[k])
    &&& vstd::utf8::is_scalar(hex_seq_val(t.subrange(p, p + 6)) as u32)
}

/// The `i`-th six-digit slot after `base`, as a quantification target.
pub open spec fn group_at(t: Seq<char>, base: int, i: int) -> bool {
    char_group_ok(t, base + 6 * i)
}

/// A slot that spells the character `c` is a valid group with value `c`.
proof fn lemma_enc_char_group_ok(t: Seq<char>, p: int, c: char)
    requires
        0 <= p,
        p + 6 <= t.len(),
        t.subrange(p, p + 6) == enc_char(c),
    ensures
        char_group_ok(t, p),
        hex_seq_val(t.subrange(p, p + 6)) == (c as u32) as nat,
{
    let cp = (c as u32) as nat;
    lemma_pow16_values();
    vstd::utf8::char_is_scalar(c);
    lemma_hex_w_all_hex(cp, 6);
    lemma_hex_w_len(cp, 6);
    assert forall|k: int| p <= k < p + 6 implies is_hex_char(#[trigger] t[k]) by {
        assert(t[k] == t.subrange(p, p + 6)[k - p]);
    }
    lemma_hex_w_val(cp, 6);
}

/// Two characters with the same six-digit spelling are the same character.
proof fn lemma_enc_char_injective(c1: char, c2: char)
    requires
        enc_char(c1) == enc_char(c2),
    ensures
        c1 == c2,
{
    lemma_pow16_values();
    vstd::utf8::char_is_scalar(c1);
    vstd::utf8::char_is_scalar(c2);
    crate::hexfmt::lemma_hex_w_injective((c1 as u32) as nat, (c2 as u32) as nat, 6);
    vstd::utf8::char_u32_cast(c1, c1 as u32);
    vstd::utf8::char_u32_cast(c2, c2 as u32);
}

/// Layout of an encoded pending-login cookie: where each part sits and what
/// it spells.
pub proof fn lemma_shape_temp(t: TempCodeVerifierSessionView)
    requires
        SessionView::TempCodeVerifier(t).wf(),
    ensures
        ({
            let e = spec_encode(SessionView::TempCodeVerifier(t));
            let h = t.code_verifier.len() as int;
            &&& e.len() == 17 + 6 * h
            &&& e[0] == 'T'
            &&& e.subrange(1, 9) == hex_w(t.code_verifier.len(), 8)
            &&& forall|i: int|
                0 <= i < h ==> e.subrange(9 + 6 * i, 9 + 6 * i + 6) == enc_char(
                    t.code_verifier[i],
                )
            &&& e.subrange(9, 9 + 6 * h) == enc_text(t.code_verifier)
            &&& e.subrange(0, e.len() - 8) == payload_of(SessionView::TempCodeVerifier(t))
            &&& e.subrange(e.len() - 8, e.len() as int) == hex_w(
                checksum(e.subrange(0, e.len() - 8)),
                8,
            )
        }),
{
    let v = SessionView::TempCodeVerifier(t);
    let s = t.code_verifier;
    let h = s.len() as int;
    let p = payload_of(v);
    let e = spec_encode(v);
    lemma_hex_w_len(s.len(), 8);
    lemma_enc_text_len(s);
    lemma_hex_w_len(checksum(p), 8);
    assert(p.len() == 9 + 6 * h);
    assert(e.len() == 17 + 6 * h);
    assert(e.subrange(1, 9) =~= hex_w(s.len(), 8));
    assert(e.subrange(9, 9 + 6 * h) =~= enc_text(s));
    assert forall|i: int| 0 <= i < h implies e.subrange(9 + 6 * i, 9 + 6 * i + 6) == enc_char(
        s[i],
    ) by {
        lemma_enc_text_index(s, i);
        assert(e.subrange(9 + 6 * i, 9 + 6 * i + 6) =~= enc_text(s).subrange(6 * i, 6 * i + 6));
    }
    assert(e.subrange(0, e.len() - 8) =~= p);
    assert(e.subrange(e.len() - 8, e.len() as int) =~= hex_w(checksum(p), 8));
}

/// Layout of an encoded logged-in cookie.
pub proof fn lemma_shape_logged_in(l: LoggedInSessionView)
    requires
        SessionView::LoggedIn(l).wf(),
    ensures
        ({
            let e = spec_encode(SessionView::LoggedIn(l));
            let a = l.access_token.len() as int;
            let r = l.refresh_token.len() as int;
            &&& e.len() == 41 + 6 * (a + r)
            &&& e[0] == 'L'
            &&& e.subrange(1, 9) == hex_w(l.access_token.len(), 8)
            &&& e.subrange(9, 17) == hex_w(l.refresh_token.len(), 8)
            &&& forall|i: int|
                0 <= i < a ==> e.subrange(17 + 6 * i, 17 + 6 * i + 6) == enc_char(
                    l.access_token[i],
                )
            &&& e.subrange(17, 17 + 6 * a) == enc_text(l.access_token)
            &&& forall|i: int|
                0 <= i < r ==> e.subrange(17 + 6 * a + 6 * i, 17 + 6 * a + 6 * i + 6) == enc_char(
                    l.refresh_token[i],
                )
            &&& e.subrange(17 + 6 * a, 17 + 6 * a + 6 * r) == enc_text(l.refresh_token)
            &&& e.subrange(17 + 6 * a + 6 * r, 33 + 6 * a + 6 * r) == hex_w(
                i64_bits(l.expires_at),
                16,
            )
            &&& e.subrange(0, e.len() - 8) == payload_of(SessionView::LoggedIn(l))
            &&& e.subrange(e.len() - 8, e.len() as int) == hex_w(
                checksum(e.subrange(0, e.len() - 8)),
                8,
            )
        }),
{
    let v = SessionView::LoggedIn(l);
    let sa = l.access_token;
    let sr = l.refresh_token;
    let a = sa.len() as int;
    let r = sr.len() as int;
    let p = payload_of(v);
    let e = spec_encode(v);
    lemma_hex_w_len(sa.len(), 8);
    lemma_hex_w_len(sr.len(), 8);
    lemma_hex_w_len(i64_bits(l.expires_at), 16);
    lemma_enc_text_len(sa);
    lemma_enc_text_len(sr);
    lemma_hex_w_len(checksum(p), 8);
    assert(p.len() == 33 + 6 * (a + r));
    assert(e.len() == 41 + 6 * (a + r));
    assert(e.subrange(1, 9) =~= hex_w(sa.len(), 8));
    assert(e.subrange(9, 17) =~= hex_w(sr.len(), 8));
    assert(e.subrange(17, 17 + 6 * a) =~= enc_text(sa));
    assert forall|i: int| 0 <= i < a implies e.subrange(17 + 6 * i, 17 + 6 * i + 6) == enc_char(
        sa[i],
    ) by {
        lemma_enc_text_index(sa, i);
        assert(e.subrange(17 + 6 * i, 17 + 6 * i + 6) =~= enc_text(sa).subrange(
            6 * i,
            6 * i + 6,
        ));
    }
    assert(e.subrange(17 + 6 * a, 17 + 6 * a + 6 * r) =~= enc_text(sr));
    assert forall|i: int| 0 <= i < r implies e.subrange(
        17 + 6 * a + 6 * i,
        17 + 6 * a + 6 * i + 6,
    ) == enc_char(sr[i]) by {
        lemma_enc_text_index(sr, i);
        assert(e.subrange(17 + 6 * a + 6 * i, 17 + 6 * a + 6 * i + 6) =~= enc_text(sr).subrange(
            6 * i,
            6 * i + 6,
        ));
    }
    assert(e.subrange(17 + 6 * a + 6 * r, 33 + 6 * a + 6 * r) =~= hex_w(
        i64_bits(l.expires_at),
        16,
    ));
    assert(e.subrange(0, e.len() - 8) =~= p);
    assert(e.subrange(e.len() - 8, e.len() as int) =~= hex_w(checksum(p), 8));
}

/// Each well-formed session has one spelling: equal spellings mean equal
/// values.
pub proof fn lemma_spec_encode_injective(v1: SessionView, v2: SessionView)
    requires
        v1.wf(),
        v2.wf(),
        spec_encode(v1) == spec_encode(v2),
    ensures
        v1 == v2,
{
    lemma_pow16_values();
    let e = spec_encode(v1);
    match v1 {
        SessionView::TempCodeVerifier(t1) => {
            lemma_shape_temp(t1);
            match v2 {
                SessionView::TempCodeVerifier(t2) => {
                    lemma_shape_temp(t2);
                    let h1 = t1.code_verifier.len() as int;
                    let h2 = t2.code_verifier.len() as int;
                    assert(h1 == h2);
                    assert forall|i: int| 0 <= i < h1 implies t1.code_verifier[i]
                        == t2.code_verifier[i] by {
                        lemma_enc_char_injective(t1.code_verifier[i], t2.code_verifier[i]);
                    }
                    assert(t1.code_verifier =~= t2.code_verifier);
                },
                SessionView::LoggedIn(l2) => {
                    lemma_shape_logged_in(l2);
                    assert(e[0] == 'T' && e[0] == 'L');
                },
            }
        },
        SessionView::LoggedIn(l1) => {
            lemma_shape_logged_in(l1);
            match v2 {
                SessionView::TempCodeVerifier(t2) => {
                    lemma_shape_temp(t2);
                    assert(e[0] == 'L' && e[0] == 'T');
                },
                SessionView::LoggedIn(l2) => {
                    lemma_shape_logged_in(l2);
                    let a1 = l1.access_token.len() as int;
                    let a2 = l2.access_token.len() as int;
                    let r1 = l1.refresh_token.len() as int;
                    let r2 = l2.refresh_token.len() as int;
                    crate::hexfmt::lemma_hex_w_injective(
                        l1.access_token.len(),
                        l2.access_token.len(),
                        8,
                    );
                    assert(a1 == a2);
                    crate::hexfmt::lemma_hex_w_injective(
                        l1.refresh_token.len(),
                        l2.refresh_token.len(),
                        8,
                    );
                    assert(r1 == r2);
                    assert forall|i: int| 0 <= i < a1 implies l1.access_token[i]
                        == l2.access_token[i] by {
                        lemma_enc_char_injective(l1.access_token[i], l2.access_token[i]);
                    }
                    assert(l1.access_token =~= l2.access_token);
                    assert forall|i: int| 0 <= i < r1 implies l1.refresh_token[i]
                        == l2.refresh_token[i] by {
                        lemma_enc_char_injective(l1.refresh_token[i], l2.refresh_token[i]);
                    }
                    assert(l1.refresh_token =~= l2.refresh_token);
                    crate::hexfmt::lemma_hex_w_injective(
                        i64_bits(l1.expires_at),
                        i64_bits(l2.expires_at),
                        16,
                    );
                    assert(l1.expires_at == l2.expires_at);
                },
            }
        },
    }
}


/// If a string starting with `T` is an encoding at all, it encodes a
/// pending-login value whose length header matches the hex digits at 1..9.
proof fn lemma_temp_candidate(t: Seq<char>, w: SessionView)
    requires
        t.len() >= 1,
        t[0] == 'T',
        w.wf(),
        t == spec_encode(w),
    ensures
        w is TempCodeVerifier,
        ({
            let h = w->TempCodeVerifier_0.code_verifier.len() as int;
            &&& t.len() == 17 + 6 * h
            &&& (forall|k: int| 1 <= k < 9 ==> is_hex_char(#[trigger] t[k]))
            &&& hex_seq_val(t.subrange(1, 9)) == h
            &&& forall|i: int| 0 <= i < h ==> #[trigger] group_at(t, 9, i)
        }),
{
    lemma_pow16_values();
    match w {
        SessionView::LoggedIn(l) => {
            lemma_shape_logged_in(l);
        },
        SessionView::TempCodeVerifier(tv) => {
            lemma_shape_temp(tv);
            let h = tv.code_verifier.len();
            lemma_hex_w_all_hex(h, 8);
            lemma_hex_w_len(h, 8);
            assert forall|k: int| 1 <= k < 9 implies is_hex_char(#[trigger] t[k]) by {
                assert(t[k] == t.subrange(1, 9)[k - 1]);
            }
            lemma_hex_w_val(h, 8);
            assert forall|i: int| 0 <= i < h implies #[trigger] group_at(t, 9, i) by {
                lemma_enc_char_group_ok(t, 9 + 6 * i, tv.code_verifier[i]);
            }
        },
    }
}

/// If a string starting with `L` is an encoding at all, it encodes a
/// logged-in value whose two length headers match the digits at 1..9 and
/// 9..17.
proof fn lemma_logged_in_candidate(t: Seq<char>, w: SessionView)
    requires
        t.len() >= 1,
        t[0] == 'L',
        w.wf(),
        t == spec_encode(w),
    ensures
        w is LoggedIn,
        ({
            let a = w->LoggedIn_0.access_token.len() as int;
            let r = w->LoggedIn_0.refresh_token.len() as int;
            &&& t.len() == 41 + 6 * (a + r)
            &&& (forall|k: int| 1 <= k < 17 ==> is_hex_char(#[trigger] t[k]))
            &&& hex_seq_val(t.subrange(1, 9)) == a
            &&& hex_seq_val(t.subrange(9, 17)) == r
            &&& (forall|i: int| 0 <= i < a ==> #[trigger] group_at(t, 17, i))
            &&& (forall|i: int| 0 <= i < r ==> #[trigger] group_at(t, 17 + 6 * a, i))
            &&& (forall|k: int|
                17 + 6 * (a + r) <= k < 33 + 6 * (a + r) ==> is_hex_char(#[trigger] t[k]))
        }),
{
    lemma_pow16_values();
    match w {
        SessionView::TempCodeVerifier(tv) => {
            lemma_shape_temp(tv);
        },
        SessionView::LoggedIn(l) => {
            lemma_shape_logged_in(l);
            let a = l.access_token.len();
            let r = l.refresh_token.len();
            lemma_hex_w_all_hex(a, 8);
            lemma_hex_w_len(a, 8);
            lemma_hex_w_all_hex(r, 8);
            lemma_hex_w_len(r, 8);
            assert forall|k: int| 1 <= k < 17 implies is_hex_char(#[trigger] t[k]) by {
                if k < 9 {
                    assert(t[k] == t.subrange(1, 9)[k - 1]);
                } else {
                    assert(t[k] == t.subrange(9, 17)[k - 9]);
                }
            }
            lemma_hex_w_val(a, 8);
            lemma_hex_w_val(r, 8);
            assert forall|i: int| 0 <= i < a implies #[trigger] group_at(t, 17, i) by {
                lemma_enc_char_group_ok(t, 17 + 6 * i, l.access_token[i]);
            }
            assert forall|i: int| 0 <= i < r implies #[trigger] group_at(
                t,
                17 + 6 * a as int,
                i,
            ) by {
                lemma_enc_char_group_ok(t, 17 + 6 * a as int + 6 * i, l.refresh_token[i]);
            }
            let pe = 17 + 6 * (a + r) as int;
            lemma_hex_w_all_hex(i64_bits(l.expires_at), 16);
            lemma_hex_w_len(i64_bits(l.expires_at), 16);
            assert forall|k: int| pe <= k < pe + 16 implies is_hex_char(#[trigger] t[k]) by {
                assert(t[k] == t.subrange(pe, pe + 16)[k - pe]);
            }
        },
    }
}

/// A string too short for any encoding, or with an unknown tag, spells no
/// session.
proof fn lemma_undecodable_frame(t: Seq<char>)
    requires
        t.len() < 17 || (t[0] != 'T' && t[0] != 'L'),
    ensures
        !decodable(t),
{
    assert forall|v: SessionView| v.wf() implies t != spec_encode(v) by {
        if t == spec_encode(v) {
            match v {
                SessionView::TempCodeVerifier(tv) => {
                    lemma_shape_temp(tv);
                },
                SessionView::LoggedIn(l) => {
                    lemma_shape_logged_in(l);
                },
            }
        }
    }
}

/// A `T` cookie whose length header is unreadable or inconsistent with the
/// total length spells no session. `hdr_hex` and `hdr_val` say what the
/// caller found at positions 1..9.
proof fn lemma_undecodable_temp_frame(t: Seq<char>)
    requires
        t.len() >= 17,
        t[0] == 'T',
        ({
            ||| !(forall|k: int| 1 <= k < 9 ==> is_hex_char(#[trigger] t[k]))
            ||| ((forall|k: int| 1 <= k < 9 ==> is_hex_char(#[trigger] t[k])) && t.len() != 17 + 6
                * hex_seq_val(t.subrange(1, 9)))
        }),
    ensures
        !decodable(t),
{
    assert forall|v: SessionView| v.wf() implies t != spec_encode(v) by {
        if t == spec_encode(v) {
            lemma_temp_candidate(t, v);
        }
    }
}

/// A `T` cookie with a framing that checks out but one unreadable character
/// slot spells no session.
proof fn lemma_undecodable_temp_group(t: Seq<char>, i: int)
    requires
        t.len() >= 17,
        t[0] == 'T',
        forall|k: int| 1 <= k < 9 ==> is_hex_char(#[trigger] t[k]),
        t.len() == 17 + 6 * hex_seq_val(t.subrange(1, 9)),
        0 <= i < hex_seq_val(t.subrange(1, 9)),
        !char_group_ok(t, 9 + 6 * i),
    ensures
        !decodable(t),
{
    assert forall|v: SessionView| v.wf() implies t != spec_encode(v) by {
        if t == spec_encode(v) {
            lemma_temp_candidate(t, v);
            assert(group_at(t, 9, i));
        }
    }
}

/// An `L` cookie whose length headers are unreadable or inconsistent with
/// the total length spells no session.
proof fn lemma_undecodable_logged_in_frame(t: Seq<char>)
    requires
        t.len() >= 17,
        t[0] == 'L',
        ({
            ||| !(forall|k: int| 1 <= k < 17 ==> is_hex_char(#[trigger] t[k]))
            ||| ((forall|k: int| 1 <= k < 17 ==> is_hex_char(#[trigger] t[k])) && t.len() != 41 + 6
                * (hex_seq_val(t.subrange(1, 9)) + hex_seq_val(t.subrange(9, 17))))
        }),
    ensures
        !decodable(t),
{
    assert forall|v: SessionView| v.wf() implies t != spec_encode(v) by {
        if t == spec_encode(v) {
            lemma_logged_in_candidate(t, v);
        }
    }
}

/// An `L` cookie with sound framing but one unreadable slot in either text
/// field or a non-hex digit in the expiry field spells no session.
proof fn lemma_undecodable_logged_in_body(t: Seq<char>, i: int)
    requires
        t.len() >= 17,
        t[0] == 'L',
        forall|k: int| 1 <= k < 17 ==> is_hex_char(#[trigger] t[k]),
        t.len() == 41 + 6 * (hex_seq_val(t.subrange(1, 9)) + hex_seq_val(t.subrange(9, 17))),
        ({
            let a = hex_seq_val(t.subrange(1, 9)) as int;
            let r = hex_seq_val(t.subrange(9, 17)) as int;
            ||| (0 <= i < a && !char_group_ok(t, 17 + 6 * i))
            ||| (0 <= i < r && !char_group_ok(t, 17 + 6 * a + 6 * i))
            ||| !(forall|k: int|
                17 + 6 * (a + r) <= k < 33 + 6 * (a + r) ==> is_hex_char(#[trigger] t[k]))
        }),
    ensures
        !decodable(t),
{
    let a = hex_seq_val(t.subrange(1, 9)) as int;
    let r = hex_seq_val(t.subrange(9, 17)) as int;
    assert forall|v: SessionView| v.wf() implies t != spec_encode(v) by {
        if t == spec_encode(v) {
            lemma_logged_in_candidate(t, v);
            if 0 <= i < a {
                assert(group_at(t, 17, i));
            }
            if 0 <= i < r {
                assert(group_at(t, 17 + 6 * a, i));
            }
        }
    }
}

/// A cookie whose final eight digits do not spell the checksum of what
/// precedes them spells no session.
proof fn lemma_undecodable_checksum(t: Seq<char>)
    requires
        t.len() >= 17,
        t.subrange(t.len() - 8, t.len() as int) != hex_w(checksum(t.subrange(0, t.len() - 8)), 8),
    ensures
        !decodable(t),
{
    assert forall|v: SessionView| v.wf() implies t != spec_encode(v) by {
        if t == spec_encode(v) {
            match v {
                SessionView::TempCodeVerifier(tv) => {
                    lemma_shape_temp(tv);
                },
                SessionView::LoggedIn(l) => {
                    lemma_shape_logged_in(l);
                },
            }
        }
    }
}


/// Reads `count` six-digit character slots starting at `start`, or reports
/// the first unreadable slot.
fn decode_text(cv: &Vec<char>, start: usize, count: usize) -> (r: Option<Vec<char>>)
    requires
        start + 6 * count <= cv@.len(),
    ensures
        r matches Some(f) ==> {
            &&& f@.len() == count
            &&& enc_text(f@) == cv@.subrange(start as int, start as int + 6 * count as int)
        },
        r is None ==> exists|i: int| 0 <= i < count && !#[trigger] group_at(cv@, start as int, i),
{
    let slen = cv.len();
    let mut f: Vec<char> = Vec::new();
    let mut i: usize = 0;
    while i < count
        invariant
            i <= count,
            start + 6 * count <= cv@.len(),
            slen == cv@.len(),
            f@.len() == i,
            enc_text(f@) == cv@.subrange(start as int, start as int + 6 * i as int),
        decreases count - i,
    {
        let p = start + 6 * i;
        let ghost gp = p as int;
        match parse_hex(cv, p, 6) {
            None => {
                proof {
                    assert(!char_group_ok(cv@, gp));
                    assert(!group_at(cv@, start as int, i as int));
                }
                return None;
            },
            Some(g) => {
                match char_from_u32(g as u32) {
                    None => {
                        proof {
                            lemma_pow16_values();
                            assert(hex_seq_val(cv@.subrange(gp, gp + 6)) == g);
                            assert(!char_group_ok(cv@, gp));
                            assert(!group_at(cv@, start as int, i as int));
                        }
                        return None;
                    },
                    Some(c) => {
                        proof {
                            lemma_pow16_values();
                            assert(((c as u32) as nat) == g as nat);
                            lemma_enc_text_push(f@, c);
                            lemma_hex_seq_canonical(cv@.subrange(gp, gp + 6));
                            assert(cv@.subrange(gp, gp + 6) == hex_w(
                                hex_seq_val(cv@.subrange(gp, gp + 6)),
                                6,
                            ));
                            assert(enc_char(c) == cv@.subrange(gp, gp + 6));
                            assert(enc_text(f@) + enc_char(c) =~= cv@.subrange(
                                start as int,
                                start as int + 6 * (i as int + 1),
                            ));
                        }
                        f.push(c);
                    },
                }
            },
        }
        i = i + 1;
    }
    Some(f)
}

/// Decodes a cookie string. Returns the session it canonically spells;
/// any other string — tampered, truncated, forged, or foreign — is an
/// error, never a value and never a panic.
pub fn decode(cookie: &str) -> (r: Result<Session, DecodeError>)
    ensures
        r is Ok <==> decodable(cookie@),
        r matches Ok(s) ==> s@ == decoded_of(cookie@) && s@.wf(),
{
    proof {
        lemma_pow16_values();
    }
    let cv = chars_of_str(cookie);
    let n = cv.len();
    if n < 17 {
        proof {
            lemma_undecodable_frame(cookie@);
        }
        return Err(DecodeError);
    }
    let tag = cv[0];
    if tag == 'T' {
        decode_temp(cookie, cv, n)
    } else if tag == 'L' {
        decode_logged_in(cookie, cv, n)
    } else {
        proof {
            lemma_undecodable_frame(cookie@);
        }
        Err(DecodeError)
    }
}

/// The `T` arm of `decode`.
fn decode_temp(cookie: &str, cv: Vec<char>, n: usize) -> (r: Result<Session, DecodeError>)
    requires
        cv@ == cookie@,
        n == cv@.len(),
        n >= 17,
        cv@[0] == 'T',
    ensures
        r is Ok <==> decodable(cookie@),
        r matches Ok(s) ==> s@ == decoded_of(cookie@) && s@.wf(),
{
    proof {
        lemma_pow16_values();
    }
    let t = cookie;
    let h = match parse_hex(&cv, 1, 8) {
        None => {
            proof {
                lemma_undecodable_temp_frame(t@);
            }
            return Err(DecodeError);
        },
        Some(h) => h,
    };
    if (n as u64) != 17 + 6 * h {
        proof {
            lemma_undecodable_temp_frame(t@);
        }
        return Err(DecodeError);
    }
    let count = (n - 17) / 6;
    proof {
        assert(6 * (h as int) == n - 17);
        assert((n - 17) / 6 == h as int) by (nonlinear_arith)
            requires
                6 * (h as int) == n - 17,
                n >= 17,
        ;
    }
    let field = match decode_text(&cv, 9, count) {
        None => {
            proof {
                let i = choose|i: int| 0 <= i < count && !#[trigger] group_at(cv@, 9, i);
                lemma_undecodable_temp_group(t@, i);
            }
            return Err(DecodeError);
        },
        Some(f) => f,
    };
    let pend = n - 8;
    let sum = sum_window(&cv, pend);
    let ghost front = t@.subrange(0, t@.len() - 8);
    proof {
        assert(cv@.take(pend as int) =~= front);
    }
    let csv = match parse_hex(&cv, pend, 8) {
        None => {
            proof {
                lemma_tail_not_checksum_nonhex(t@);
                lemma_undecodable_checksum(t@);
            }
            return Err(DecodeError);
        },
        Some(csv) => csv,
    };
    if csv != sum % 0x100000000 {
        proof {
            lemma_tail_not_checksum_value(t@, csv, checksum(front));
            lemma_undecodable_checksum(t@);
        }
        return Err(DecodeError);
    }
    let sess = Session::TempCodeVerifier(
        TempCodeVerifierSession { code_verifier: string_from_chars(field) },
    );
    proof {
        let fv = sess@->TempCodeVerifier_0.code_verifier;
        assert(fv.len() == count);
        let p = payload_of(sess@);
        lemma_hex_seq_canonical(t@.subrange(1, 9));
        assert(t@.subrange(1, 9) == hex_w(h as nat, 8));
        lemma_hex_w_len(h as nat, 8);
        lemma_enc_text_len(fv);
        assert(p =~= front);
        lemma_hex_seq_canonical(t@.subrange(t@.len() - 8, t@.len() as int));
        assert(t@.subrange(t@.len() - 8, t@.len() as int) == hex_w(csv as nat, 8));
        assert(checksum(p) == csv as nat);
        lemma_hex_w_len(csv as nat, 8);
        assert(spec_encode(sess@) =~= t@);
        assert(sess@.wf());
        assert(decodable(t@));
        lemma_spec_encode_injective(decoded_of(t@), sess@);
    }
    Ok(sess)
}

/// If the last eight positions hold a non-hex character, they do not spell
/// the checksum.
proof fn lemma_tail_not_checksum_nonhex(t: Seq<char>)
    requires
        t.len() >= 17,
        !(forall|k: int| t.len() - 8 <= k < t.len() ==> is_hex_char(#[trigger] t[k])),
    ensures
        t.subrange(t.len() - 8, t.len() as int) != hex_w(checksum(t.subrange(0, t.len() - 8)), 8),
{
    let cs = checksum(t.subrange(0, t.len() - 8));
    lemma_hex_w_all_hex(cs, 8);
    lemma_hex_w_len(cs, 8);
    let k = choose|k: int| t.len() - 8 <= k < t.len() && !is_hex_char(#[trigger] t[k]);
    if t.subrange(t.len() - 8, t.len() as int) == hex_w(cs, 8) {
        assert(t[k] == t.subrange(t.len() - 8, t.len() as int)[k - (t.len() - 8)]);
    }
}

/// If the last eight positions spell `csv` and `csv` is not the checksum of
/// the front, they do not spell the checksum of the front.
proof fn lemma_tail_not_checksum_value(t: Seq<char>, csv: u64, cs: nat)
    requires
        t.len() >= 17,
        forall|k: int| t.len() - 8 <= k < t.len() ==> is_hex_char(#[trigger] t[k]),
        csv == hex_seq_val(t.subrange(t.len() - 8, t.len() as int)),
        cs == checksum(t.subrange(0, t.len() - 8)),
        csv != cs,
    ensures
        t.subrange(t.len() - 8, t.len() as int) != hex_w(cs, 8),
{
    let tail = t.subrange(t.len() - 8, t.len() as int);
    assert(forall|k: int| 0 <= k < tail.len() ==> is_hex_char(#[trigger] tail[k]));
    lemma_hex_seq_canonical(tail);
    lemma_pow16_values();
    if tail == hex_w(cs, 8) {
        lemma_hex_w_val(cs, 8);
    }
}


/// The `L` arm of `decode`.
fn decode_logged_in(cookie: &str, cv: Vec<char>, n: usize) -> (r: Result<Session, DecodeError>)
    requires
        cv@ == cookie@,
        n == cv@.len(),
        n >= 17,
        cv@[0] == 'L',
    ensures
        r is Ok <==> decodable(cookie@),
        r matches Ok(s) ==> s@ == decoded_of(cookie@) && s@.wf(),
{
    proof {
        lemma_pow16_values();
    }
    let t = cookie;
    let a = match parse_hex(&cv, 1, 8) {
        None => {
            proof {
                lemma_undecodable_logged_in_frame(t@);
            }
            return Err(DecodeError);
        },
        Some(a) => a,
    };
    let rr = match parse_hex(&cv, 9, 8) {
        None => {
            proof {
                lemma_undecodable_logged_in_frame(t@);
            }
            return Err(DecodeError);
        },
        Some(rr) => rr,
    };
    if (n as u64) != 41 + 6 * (a + rr) {
        proof {
            lemma_undecodable_logged_in_frame(t@);
        }
        return Err(DecodeError);
    }
    // The length equation bounds both counts by the cookie's length, so the
    // narrowing casts and the position arithmetic below stay in range.
    let ca = a as usize;
    let cr = rr as usize;
    proof {
        assert(6 * (a as int) + 6 * (rr as int) == n - 41);
        assert(a as int == ca as int && rr as int == cr as int);
    }
    let access = match decode_text(&cv, 17, ca) {
        None => {
            proof {
                let i = choose|i: int| 0 <= i < ca && !#[trigger] group_at(cv@, 17, i);
                lemma_undecodable_logged_in_body(t@, i);
            }
            return Err(DecodeError);
        },
        Some(f) => f,
    };
    let pr = 17 + 6 * ca;
    let refresh = match decode_text(&cv, pr, cr) {
        None => {
            proof {
                let i = choose|i: int| 0 <= i < cr && !#[trigger] group_at(cv@, pr as int, i);
                lemma_undecodable_logged_in_body(t@, i);
            }
            return Err(DecodeError);
        },
        Some(f) => f,
    };
    let pe = pr + 6 * cr;
    let bits = match parse_hex(&cv, pe, 16) {
        None => {
            proof {
                lemma_undecodable_logged_in_body(t@, 0);
            }
            return Err(DecodeError);
        },
        Some(bits) => bits,
    };
    let expires_at = i64_of_bits(bits);
    let pend = n - 8;
    let sum = sum_window(&cv, pend);
    let ghost front = t@.subrange(0, t@.len() - 8);
    proof {
        assert(cv@.take(pend as int) =~= front);
    }
    let csv = match parse_hex(&cv, pend, 8) {
        None => {
            proof {
                lemma_tail_not_checksum_nonhex(t@);
                lemma_undecodable_checksum(t@);
            }
            return Err(DecodeError);
        },
        Some(csv) => csv,
    };
    if csv != sum % 0x100000000 {
        proof {
            lemma_tail_not_checksum_value(t@, csv, checksum(front));
            lemma_undecodable_checksum(t@);
        }
        return Err(DecodeError);
    }
    let sess = Session::LoggedIn(
        LoggedInSession {
            access_token: string_from_chars(access),
            refresh_token: string_from_chars(refresh),
            expires_at,
        },
    );
    proof {
        let l = sess@->LoggedIn_0;
        assert(l.access_token.len() == ca);
        assert(l.refresh_token.len() == cr);
        let p = payload_of(sess@);
        lemma_hex_seq_canonical(t@.subrange(1, 9));
        assert(t@.subrange(1, 9) == hex_w(a as nat, 8));
        lemma_hex_seq_canonical(t@.subrange(9, 17));
        assert(t@.subrange(9, 17) == hex_w(rr as nat, 8));
        lemma_hex_w_len(a as nat, 8);
        lemma_hex_w_len(rr as nat, 8);
        lemma_enc_text_len(l.access_token);
        lemma_enc_text_len(l.refresh_token);
        lemma_hex_seq_canonical(t@.subrange(pe as int, pe as int + 16));
        assert(t@.subrange(pe as int, pe as int + 16) == hex_w(bits as nat, 16));
        assert(i64_bits(l.expires_at) == bits as nat);
        lemma_hex_w_len(bits as nat, 16);
        assert(p =~= front);
        lemma_hex_seq_canonical(t@.subrange(t@.len() - 8, t@.len() as int));
        assert(t@.subrange(t@.len() - 8, t@.len() as int) == hex_w(csv as nat, 8));
        assert(checksum(p) == csv as nat);
        lemma_hex_w_len(csv as nat, 8);
        assert(spec_encode(sess@) =~= t@);
        assert(sess@.wf());
        assert(decodable(t@));
        lemma_spec_encode_injective(decoded_of(t@), sess@);
    }
    Ok(sess)
}


/// Every encoding ends in the checksum of its front, whatever the variant.
proof fn lemma_encode_tail(w: SessionView)
    requires
        w.wf(),
    ensures
        spec_encode(w).len() >= 17,
        spec_encode(w).subrange(spec_encode(w).len() - 8, spec_encode(w).len() as int) == hex_w(
            checksum(spec_encode(w).subrange(0, spec_encode(w).len() - 8)),
            8,
        ),
{
    match w {
        SessionView::TempCodeVerifier(tv) => {
            lemma_shape_temp(tv);
        },
        SessionView::LoggedIn(l) => {
            lemma_shape_logged_in(l);
        },
    }
}

/// Replacing one character changes the code-point sum by the difference of
/// the two characters.
proof fn lemma_sum_chars_update(s: Seq<char>, i: int, c: char)
    requires
        0 <= i < s.len(),
    ensures
        sum_chars(s.update(i, c)) + (s[i] as u32) as nat == sum_chars(s) + (c as u32) as nat,
    decreases s.len(),
{
    let m = s.update(i, c);
    if i == s.len() - 1 {
        assert(m.drop_last() =~= s.drop_last());
        assert(m.last() == c);
    } else {
        assert(m.drop_last() =~= s.drop_last().update(i, c));
        assert(m.last() == s.last());
        lemma_sum_chars_update(s.drop_last(), i, c);
    }
}

/// Two numbers that differ by less than the modulus and are not equal have
/// different remainders.
proof fn lemma_mod_distinct(x: int, y: int, m: int)
    requires
        m > 0,
        x >= 0,
        y >= 0,
        x != y,
        x - y < m,
        y - x < m,
    ensures
        x % m != y % m,
{
    vstd::arithmetic::div_mod::lemma_fundamental_div_mod(x, m);
    vstd::arithmetic::div_mod::lemma_fundamental_div_mod(y, m);
    let qx = x / m;
    let qy = y / m;
    vstd::arithmetic::div_mod::lemma_mod_bound(x, m);
    vstd::arithmetic::div_mod::lemma_mod_bound(y, m);
    if x % m == y % m {
        assert(x == m * qx + x % m);
        assert(y == m * qy + y % m);
        assert(x - y == (qx - qy) * m) by (nonlinear_arith)
            requires
                x == m * qx + x % m,
                y == m * qy + y % m,
                x % m == y % m,
        ;
        if qx > qy {
            assert((qx - qy) * m >= m) by (nonlinear_arith)
                requires
                    qx - qy >= 1,
                    m > 0,
            ;
        } else if qx < qy {
            assert((qx - qy) * m <= -m) by (nonlinear_arith)
                requires
                    qx - qy <= -1,
                    m > 0,
            ;
        }
    }
}

/// Round trip: the cookie spelling of a well-formed session value decodes,
/// and decodes to that value and no other.
pub proof fn lemma_round_trip(v: SessionView)
    requires
        v.wf(),
    ensures
        decodable(spec_encode(v)),
        decoded_of(spec_encode(v)) == v,
{
    assert(v.wf() && spec_encode(v) == spec_encode(v));
    assert(decodable(spec_encode(v)));
    lemma_spec_encode_injective(decoded_of(spec_encode(v)), v);
}

/// Whatever decodes is canonical: a string accepted by `decode` is exactly
/// the encoding of the value it decodes to. Contrapositively, any string
/// that `encode` does not produce is rejected.
pub proof fn lemma_decode_only_canonical(t: Seq<char>)
    requires
        decodable(t),
    ensures
        decoded_of(t).wf(),
        t == spec_encode(decoded_of(t)),
{
}

/// Corrupting any single character of an encoded cookie makes it
/// undecodable: either the checksum no longer matches its front, or the
/// checksum field itself no longer spells the front's checksum.
pub proof fn lemma_corrupted_cookie_rejected(v: SessionView, i: int, c: char)
    requires
        v.wf(),
        0 <= i < spec_encode(v).len(),
        c != spec_encode(v)[i],
    ensures
        !decodable(spec_encode(v).update(i, c)),
{
    lemma_pow16_values();
    let t = spec_encode(v);
    let m = t.update(i, c);
    let len = t.len() as int;
    lemma_encode_tail(v);
    let pt = t.subrange(0, len - 8);
    assert forall|w: SessionView| w.wf() implies m != spec_encode(w) by {
        if m == spec_encode(w) {
            lemma_encode_tail(w);
            let pm = m.subrange(0, len - 8);
            if i < len - 8 {
                // the tail is untouched, so both checksums spell it; but the
                // corrupted front sums differently
                assert(m.subrange(len - 8, len) =~= t.subrange(len - 8, len));
                crate::hexfmt::lemma_hex_w_injective(checksum(pm), checksum(pt), 8);
                assert(pm =~= pt.update(i, c));
                lemma_sum_chars_update(pt, i, c);
                vstd::utf8::char_u32_cast(t[i], t[i] as u32);
                vstd::utf8::char_u32_cast(c, c as u32);
                assert((c as u32) != (t[i] as u32));
                vstd::utf8::char_is_scalar(c);
                vstd::utf8::char_is_scalar(t[i]);
                lemma_mod_distinct(
                    sum_chars(pm) as int,
                    sum_chars(pt) as int,
                    0x100000000,
                );
            } else {
                // the front is untouched, so the checksum field must repeat
                // itself; but it was changed
                assert(pm =~= pt);
                assert(m.subrange(len - 8, len) == t.subrange(len - 8, len));
                assert(m.subrange(len - 8, len)[i - (len - 8)] == c);
                assert(t.subrange(len - 8, len)[i - (len - 8)] == t[i]);
            }
        }
    }
}

} // verus!
