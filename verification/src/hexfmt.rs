//! Fixed-width lowercase hexadecimal, the alphabet of the cookie wire format.
//!
//! Every number inside an encoded cookie (field lengths, character code
//! points, the expiry timestamp, the checksum) is written as a fixed number of
//! lowercase hex digits. Fixed width makes the representation canonical: a
//! value has exactly one spelling, and both round-trip directions below are
//! proved, which the codec's tamper-rejection argument rests on.

use vstd::prelude::*;

verus! {

/// The lowercase hex digit for a value below sixteen.
pub open spec fn hex_char(d: nat) -> char {
    if d == 0 {
        '0'
    } else if d == 1 {
        '1'
    } else if d == 2 {
        '2'
    } else if d == 3 {
        '3'
    } else if d == 4 {
        '4'
    } else if d == 5 {
        '5'
    } else if d == 6 {
        '6'
    } else if d == 7 {
        '7'
    } else if d == 8 {
        '8'
    } else if d == 9 {
        '9'
    } else if d == 10 {
        'a'
    } else if d == 11 {
        'b'
    } else if d == 12 {
        'c'
    } else if d == 13 {
        'd'
    } else if d == 14 {
        'e'
    } else {
        'f'
    }
}

pub open spec fn is_hex_char(c: char) -> bool {
    ('0' <= c && c <= '9') || ('a' <= c && c <= 'f')
}

/// The value of a lowercase hex digit.
pub open spec fn hex_val(c: char) -> nat {
    if '0' <= c && c <= '9' {
        (c as nat - '0' as nat) as nat
    } else {
        (c as nat - 'a' as nat + 10) as nat
    }
}

pub proof fn lemma_hex_char_val(d: nat)
    requires
        d < 16,
    ensures
        is_hex_char(hex_char(d)),
        hex_val(hex_char(d)) == d,
{
}

pub proof fn lemma_hex_val_char(c: char)
    requires
        is_hex_char(c),
    ensures
        hex_val(c) < 16,
        hex_char(hex_val(c)) == c,
{
}

/// Sixteen to the given power: the number of values a hex string of that
/// width can hold.
pub open spec fn pow16(w: nat) -> nat
    decreases w,
{
    if w == 0 {
        1nat
    } else {
        16 * pow16((w - 1) as nat)
    }
}

pub proof fn lemma_pow16_values()
    ensures
        pow16(6) == 0x1000000,
        pow16(8) == 0x100000000,
        pow16(16) == 0x10000000000000000,
{
    reveal_with_fuel(pow16, 17);
}

/// The value `v` written as exactly `w` lowercase hex digits, most
/// significant first. For `v < pow16(w)` this is the canonical spelling.
pub open spec fn hex_w(v: nat, w: nat) -> Seq<char>
    decreases w,
{
    if w == 0 {
        Seq::empty()
    } else {
        hex_w(v / 16, (w - 1) as nat) + seq![hex_char(v % 16)]
    }
}

/// The value of a big-endian string of hex digits.
pub open spec fn hex_seq_val(s: Seq<char>) -> nat
    decreases s.len(),
{
    if s.len() == 0 {
        0nat
    } else {
        hex_seq_val(s.drop_last()) * 16 + hex_val(s.last())
    }
}

pub proof fn lemma_hex_w_len(v: nat, w: nat)
    ensures
        hex_w(v, w).len() == w,
    decreases w,
{
    if w > 0 {
        lemma_hex_w_len(v / 16, (w - 1) as nat);
    }
}

pub proof fn lemma_hex_w_all_hex(v: nat, w: nat)
    ensures
        forall|i: int| 0 <= i < hex_w(v, w).len() ==> is_hex_char(#[trigger] hex_w(v, w)[i]),
    decreases w,
{
    if w > 0 {
        lemma_hex_w_all_hex(v / 16, (w - 1) as nat);
        lemma_hex_w_len(v / 16, (w - 1) as nat);
        assert forall|i: int| 0 <= i < hex_w(v, w).len() implies is_hex_char(
            #[trigger] hex_w(v, w)[i],
        ) by {
            if i < w - 1 {
                assert(hex_w(v, w)[i] == hex_w(v / 16, (w - 1) as nat)[i]);
            } else {
                assert(hex_w(v, w)[i] == hex_char(v % 16));
                lemma_hex_char_val(v % 16);
            }
        }
    }
}

/// Reading back the fixed-width spelling of a value in range gives the value.
pub proof fn lemma_hex_w_val(v: nat, w: nat)
    requires
        v < pow16(w),
    ensures
        hex_seq_val(hex_w(v, w)) == v,
    decreases w,
{
    if w == 0 {
    } else {
        let rest = hex_w(v / 16, (w - 1) as nat);
        let whole = rest + seq![hex_char(v % 16)];
        assert(whole.drop_last() =~= rest);
        assert(whole.last() == hex_char(v % 16));
        assert(v / 16 < pow16((w - 1) as nat)) by {
            assert(pow16(w) == 16 * pow16((w - 1) as nat));
        };
        lemma_hex_w_val(v / 16, (w - 1) as nat);
        lemma_hex_char_val(v % 16);
        assert(hex_seq_val(whole) == hex_seq_val(rest) * 16 + hex_val(hex_char(v % 16)));
        assert((v / 16) * 16 + v % 16 == v) by {
            vstd::arithmetic::div_mod::lemma_fundamental_div_mod(v as int, 16);
        };
    }
}

/// A string of hex digits denotes a value in range, and re-spelling that
/// value at the same width gives back the same string.
pub proof fn lemma_hex_seq_canonical(s: Seq<char>)
    requires
        forall|i: int| 0 <= i < s.len() ==> is_hex_char(#[trigger] s[i]),
    ensures
        hex_seq_val(s) < pow16(s.len()),
        hex_w(hex_seq_val(s), s.len()) == s,
    decreases s.len(),
{
    if s.len() == 0 {
        assert(hex_w(0, 0) =~= s);
    } else {
        let front = s.drop_last();
        assert(forall|i: int| 0 <= i < front.len() ==> is_hex_char(#[trigger] front[i]));
        lemma_hex_seq_canonical(front);
        let v = hex_seq_val(s);
        lemma_hex_val_char(s.last());
        assert(v == hex_seq_val(front) * 16 + hex_val(s.last()));
        assert(v < pow16(s.len())) by {
            assert(pow16(s.len()) == 16 * pow16(front.len()));
            assert(hex_seq_val(front) <= pow16(front.len()) - 1);
            assert(hex_seq_val(front) * 16 <= (pow16(front.len()) - 1) * 16) by (nonlinear_arith)
                requires
                    hex_seq_val(front) <= pow16(front.len()) - 1,
            ;
        };
        assert(v / 16 == hex_seq_val(front) && v % 16 == hex_val(s.last())) by {
            vstd::arithmetic::div_mod::lemma_fundamental_div_mod_converse(
                v as int,
                16,
                hex_seq_val(front) as int,
                hex_val(s.last()) as int,
            );
        };
        assert(hex_w(v, s.len()) == hex_w(v / 16, front.len()) + seq![hex_char(v % 16)]);
        assert(hex_w(v / 16, front.len()) == front);
        assert(hex_char(v % 16) == s.last());
        assert(hex_w(v, s.len()) =~= s);
    }
}

/// Two values in range with the same fixed-width spelling are equal.
pub proof fn lemma_hex_w_injective(v1: nat, v2: nat, w: nat)
    requires
        v1 < pow16(w),
        v2 < pow16(w),
        hex_w(v1, w) == hex_w(v2, w),
    ensures
        v1 == v2,
{
    lemma_hex_w_val(v1, w);
    lemma_hex_w_val(v2, w);
}

/// The hex digit of a value below sixteen.
pub fn hex_char_of(d: u64) -> (c: char)
    requires
        d < 16,
    ensures
        c == hex_char(d as nat),
{
    if d == 0 {
        '0'
    } else if d == 1 {
        '1'
    } else if d == 2 {
        '2'
    } else if d == 3 {
        '3'
    } else if d == 4 {
        '4'
    } else if d == 5 {
        '5'
    } else if d == 6 {
        '6'
    } else if d == 7 {
        '7'
    } else if d == 8 {
        '8'
    } else if d == 9 {
        '9'
    } else if d == 10 {
        'a'
    } else if d == 11 {
        'b'
    } else if d == 12 {
        'c'
    } else if d == 13 {
        'd'
    } else if d == 14 {
        'e'
    } else {
        'f'
    }
}

/// The value of a hex digit, or `None` for any other character.
pub fn hex_val_of(c: char) -> (r: Option<u64>)
    ensures
        r is Some <==> is_hex_char(c),
        r matches Some(v) ==> v == hex_val(c) && v < 16,
{
    let n = c as u32;
    if '0' as u32 <= n && n <= '9' as u32 {
        Some((n - '0' as u32) as u64)
    } else if 'a' as u32 <= n && n <= 'f' as u32 {
        Some((n - 'a' as u32 + 10) as u64)
    } else {
        None
    }
}

/// Appends the fixed-width hex spelling of `v` to `out`.
pub fn push_hex(out: &mut Vec<char>, v: u64, w: usize)
    requires
        w <= 16,
        v < pow16(w as nat),
    ensures
        final(out)@ == old(out)@ + hex_w(v as nat, w as nat),
    decreases w,
{
    if w == 0 {
        proof {
            assert(old(out)@ + hex_w(v as nat, 0) =~= old(out)@);
        }
    } else {
        proof {
            assert(pow16(w as nat) == 16 * pow16((w - 1) as nat));
            assert(v / 16 < pow16((w - 1) as nat)) by (nonlinear_arith)
                requires
                    v < 16 * pow16((w - 1) as nat),
            ;
        }
        push_hex(out, v / 16, w - 1);
        out.push(hex_char_of(v % 16));
        proof {
            assert(out@ =~= old(out)@ + hex_w(v as nat, w as nat));
        }
    }
}

pub proof fn lemma_pow16_monotone(a: nat, b: nat)
    requires
        a <= b,
    ensures
        pow16(a) <= pow16(b),
        pow16(a) >= 1,
    decreases b,
{
    if b > 0 {
        if a == b {
            lemma_pow16_monotone((a - 1) as nat, (b - 1) as nat);
        } else {
            lemma_pow16_monotone(a, (b - 1) as nat);
        }
    }
}

/// Reads `w` hex digits of `s` starting at `start`: their value, or `None`
/// if any character in the window is not a lowercase hex digit.
pub fn parse_hex(s: &Vec<char>, start: usize, w: usize) -> (r: Option<u64>)
    requires
        start + w <= s.len(),
        w <= 16,
    ensures
        r is Some <==> forall|i: int|
            start <= i < start + w ==> is_hex_char(#[trigger] s@[i]),
        r matches Some(v) ==> {
            &&& v == hex_seq_val(s@.subrange(start as int, (start + w) as int))
            &&& v < pow16(w as nat)
        },
{
    proof {
        lemma_pow16_values();
    }
    let slen = s.len();
    let mut acc: u64 = 0;
    let mut i: usize = 0;
    while i < w
        invariant
            start + w <= s@.len(),
            slen == s@.len(),
            w <= 16,
            i <= w,
            forall|j: int| start <= j < start + i ==> is_hex_char(#[trigger] s@[j]),
            acc == hex_seq_val(s@.subrange(start as int, (start + i) as int)),
            acc < pow16(i as nat),
            pow16(16) == 0x10000000000000000,
        decreases w - i,
    {
        let c = s[start + i];
        match hex_val_of(c) {
            None => {
                return None;
            },
            Some(d) => {
                proof {
                    let window = s@.subrange(start as int, (start + i + 1) as int);
                    assert(window.drop_last() =~= s@.subrange(start as int, (start + i) as int));
                    assert(window.last() == s@[start + i]);
                    lemma_pow16_monotone((i + 1) as nat, 16);
                    assert(pow16((i + 1) as nat) == 16 * pow16(i as nat));
                }
                acc = acc * 16 + d;
            },
        }
        i = i + 1;
    }
    proof {
        assert(s@.subrange(start as int, (start + w) as int) == s@.subrange(
            start as int,
            (start + i) as int,
        ));
    }
    Some(acc)
}

} // verus!
