//! Decimal rendering of unsigned integers, with zero padding.
use vstd::prelude::*;

use crate::text::{push_char, push_str};

verus! {

broadcast use vstd::string::group_string_axioms;

/// The ASCII digit for `d < 10`.
pub open spec fn digit(d: nat) -> char {
    if d == 0 {
        '0'
    } else if d == 1 {
        '1'
    } else if d == 2 {
        '2'
    } else if d == 3 {
        '3'
    } else if d == 4 {
        '4'
    } else if d == 5 {
        '5'
    } else if d == 6 {
        '6'
    } else if d == 7 {
        '7'
    } else if d == 8 {
        '8'
    } else {
        '9'
    }
}

/// The decimal representation of `n`, without leading zeros.
pub open spec fn dec(n: nat) -> Seq<char>
    decreases n,
{
    if n < 10 {
        seq![digit(n)]
    } else {
        dec(n / 10).push(digit(n % 10))
    }
}

/// `k` zero characters.
pub open spec fn zeros(k: nat) -> Seq<char> {
    Seq::new(k, |i: int| '0')
}

/// `n` in decimal, left-padded with zeros to at least `w` characters.
pub open spec fn padded(n: nat, w: nat) -> Seq<char> {
    let d = dec(n);
    if d.len() >= w {
        d
    } else {
        zeros((w - d.len()) as nat) + d
    }
}

/// Executable form of [`digit`].
pub fn digit_char(d: u64) -> (c: char)
    requires
        d < 10,
    ensures
        c == digit(d as nat),
{
    if d == 0 {
        '0'
    } else if d == 1 {
        '1'
    } else if d == 2 {
        '2'
    } else if d == 3 {
        '3'
    } else if d == 4 {
        '4'
    } else if d == 5 {
        '5'
    } else if d == 6 {
        '6'
    } else if d == 7 {
        '7'
    } else if d == 8 {
        '8'
    } else {
        '9'
    }
}

/// Append `n` in decimal.
pub fn push_decimal(out: &mut String, n: u64)
    ensures
        final(out)@ == old(out)@ + dec(n as nat),
    decreases n,
{
    if n >= 10 {
        push_decimal(out, n / 10);
    }
    push_char(out, digit_char(n % 10));
    proof {
        if n >= 10 {
            assert(old(out)@ + dec(n as nat) =~= old(out)@ + dec((n / 10) as nat) + seq![
                digit((n % 10) as nat),
            ]);
        } else {
            assert(dec(n as nat) =~= seq![digit((n % 10) as nat)]);
        }
    }
}

/// Append `n` in decimal, zero-padded to at least `w` characters.
pub fn push_padded(out: &mut String, n: u64, w: usize)
    ensures
        final(out)@ == old(out)@ + padded(n as nat, w as nat),
{
    let mut digits = String::new();
    push_decimal(&mut digits, n);
    let k = digits.as_str().unicode_len();
    if k < w {
        let mut i: usize = k;
        let ghost start = out@;
        while i < w
            invariant
                k <= i <= w,
                out@ == start + zeros((i - k) as nat),
            decreases w - i,
        {
            push_char(out, '0');
            proof {
                assert(start + zeros((i + 1 - k) as nat) =~= start + zeros((i - k) as nat).push(
                    '0',
                ));
            }
            i = i + 1;
        }
    }
    push_str(out, digits.as_str());
    proof {
        assert(digits@ =~= dec(n as nat));
        if k < w {
            assert(old(out)@ + padded(n as nat, w as nat) =~= old(out)@ + zeros(
                (w - k) as nat,
            ) + digits@);
        }
    }
}

} // verus!
