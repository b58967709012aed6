//! Canonical decimal spelling of numbers, for URL parameters and derived
//! keys.

use vstd::prelude::*;

verus! {

/// The decimal digit for a value below ten.
pub open spec fn dec_digit(d: nat) -> char {
    if d == 0 {
        '0'
    } else if d == 1 {
        '1'
    } else if d == 2 {
        '2'
    } else if d == 3 {
        '3'
    } else if d == 4 {
        '4'
    } else if d == 5 {
        '5'
    } else if d == 6 {
        '6'
    } else if d == 7 {
        '7'
    } else if d == 8 {
        '8'
    } else {
        '9'
    }
}

/// The usual decimal spelling: no leading zeros, `"0"` for zero.
pub open spec fn dec_str(v: nat) -> Seq<char>
    decreases v,
{
    if v < 10 {
        seq![dec_digit(v)]
    } else {
        dec_str(v / 10) + seq![dec_digit(v % 10)]
    }
}

/// The decimal digit of a value below ten.
fn dec_digit_of(d: u32) -> (c: char)
    requires
        d < 10,
    ensures
        c == dec_digit(d as nat),
{
    if d == 0 {
        '0'
    } else if d == 1 {
        '1'
    } else if d == 2 {
        '2'
    } else if d == 3 {
        '3'
    } else if d == 4 {
        '4'
    } else if d == 5 {
        '5'
    } else if d == 6 {
        '6'
    } else if d == 7 {
        '7'
    } else if d == 8 {
        '8'
    } else {
        '9'
    }
}

/// Appends the decimal spelling of `v` to `out`.
pub fn push_dec_u32(out: &mut Vec<char>, v: u32)
    ensures
        final(out)@ == old(out)@ + dec_str(v as nat),
    decreases v,
{
    if v < 10 {
        out.push(dec_digit_of(v));
        proof {
            assert(out@ =~= old(out)@ + dec_str(v as nat));
        }
    } else {
        push_dec_u32(out, v / 10);
        out.push(dec_digit_of(v % 10));
        proof {
            assert(out@ =~= old(out)@ + dec_str(v as nat));
        }
    }
}

} // verus!
