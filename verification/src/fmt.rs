//! Rendering of unsigned integers as decimal and hexadecimal digit
//! strings, the formatting glue behind the console's number printing.

use vstd::prelude::*;

verus! {

/// The decimal digit string of `n`, most significant digit first, with no
/// leading zeros (a single `0` for zero).
pub open spec fn dec_digits(n: nat) -> Seq<u8>
    decreases n,
{
    if n < 10 {
        seq![(0x30 + n) as u8]
    } else {
        dec_digits(n / 10).push((0x30 + n % 10) as u8)
    }
}

/// The character for one hexadecimal digit value: `0`-`9` then `a`-`f`.
pub open spec fn hex_digit(d: nat) -> u8 {
    if d < 10 {
        (0x30 + d) as u8
    } else {
        (0x57 + d) as u8
    }
}

/// The hexadecimal digit string of `n`, most significant digit first,
/// with no leading zeros (a single `0` for zero).
pub open spec fn hex_digits(n: nat) -> Seq<u8>
    decreases n,
{
    if n < 16 {
        seq![hex_digit(n)]
    } else {
        hex_digits(n / 16).push(hex_digit(n % 16))
    }
}

/// Renders `n` in decimal.
pub fn fmt_dec(n: usize) -> (v: Vec<u8>)
    ensures
        v@ == dec_digits(n as nat),
    decreases n,
{
    if n < 10 {
        let mut v: Vec<u8> = Vec::new();
        v.push(0x30 + (n as u8));
        proof {
            assert(v@ =~= dec_digits(n as nat));
        }
        v
    } else {
        let mut v = fmt_dec(n / 10);
        v.push(0x30 + ((n % 10) as u8));
        proof {
            assert(v@ =~= dec_digits(n as nat));
        }
        v
    }
}

/// Renders `n` in hexadecimal.
pub fn fmt_hex(n: u64) -> (v: Vec<u8>)
    ensures
        v@ == hex_digits(n as nat),
    decreases n,
{
    if n < 16 {
        let d: u8 = n as u8;
        let mut v: Vec<u8> = Vec::new();
        if d < 10 {
            v.push(0x30 + d);
        } else {
            v.push(0x57 + d);
        }
        proof {
            assert(v@ =~= hex_digits(n as nat));
        }
        v
    } else {
        let mut v = fmt_hex(n / 16);
        let d: u8 = (n % 16) as u8;
        if d < 10 {
            v.push(0x30 + d);
        } else {
            v.push(0x57 + d);
        }
        proof {
            assert(v@ =~= hex_digits(n as nat));
        }
        v
    }
}

} // verus!
