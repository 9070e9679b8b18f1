//! Integers in decimal, as `{}` prints them.
use vstd::prelude::*;

verus! {

/// The ASCII digit that stands for `d`, for `d` from 0 to 9.
pub open spec fn digit(d: int) -> u8 {
    (0x30 + d) as u8
}

/// The decimal digits of `n`, most significant first, without leading zeros.
pub open spec fn decimal(n: nat) -> Seq<u8>
    decreases n,
{
    if n < 10 {
        seq![digit(n as int)]
    } else {
        decimal(n / 10).push(digit((n % 10) as int))
    }
}

/// A signed integer in decimal: a minus sign before the digits of a negative
/// one, no sign otherwise.
pub open spec fn signed_decimal(n: int) -> Seq<u8> {
    if n < 0 {
        seq![0x2du8] + decimal((-n) as nat)
    } else {
        decimal(n as nat)
    }
}

/// Appends `n` in decimal to `buf`.
pub fn push_decimal(buf: &mut Vec<u8>, n: u128)
    ensures
        final(buf)@ == old(buf)@ + decimal(n as nat),
    decreases n,
{
    if n >= 10 {
        push_decimal(buf, n / 10);
    }
    let d: u8 = (n % 10) as u8;
    buf.push(0x30 + d);
    assert(buf@ =~= old(buf)@ + decimal(n as nat));
}

/// Appends `n` in decimal to `buf`, with a minus sign if it is negative.
pub fn push_signed_decimal(buf: &mut Vec<u8>, n: i128)
    ensures
        final(buf)@ == old(buf)@ + signed_decimal(n as int),
{
    if n < 0 {
        buf.push(0x2d);
        let magnitude: u128 = (-(n + 1)) as u128 + 1;
        push_decimal(buf, magnitude);
        assert(buf@ =~= old(buf)@ + signed_decimal(n as int));
    } else {
        push_decimal(buf, n as u128);
    }
}

} // verus!
