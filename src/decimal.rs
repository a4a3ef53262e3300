//! Integers in the decimal text form used for text-format column values.

use vstd::prelude::*;

verus! {

/// The ASCII digits of `n` in base ten, most significant first, without
/// leading zeros (zero itself is `"0"`).
pub open spec fn digits(n: nat) -> Seq<u8>
    decreases n,
{
    if n < 10 {
        seq![(48 + n) as u8]
    } else {
        digits(n / 10).push((48 + n % 10) as u8)
    }
}

/// The decimal text of `i`: a leading `-` for a negative value, then its digits.
pub open spec fn decimal(i: int) -> Seq<u8> {
    if i < 0 {
        seq![45u8] + digits((-i) as nat)
    } else {
        digits(i as nat)
    }
}

/// Appends the digits of `n`.
pub fn put_digits(buf: &mut Vec<u8>, n: u64)
    ensures
        final(buf)@ == old(buf)@ + digits(n as nat),
    decreases n,
{
    if n >= 10 {
        put_digits(buf, n / 10);
    }
    buf.push((48 + n % 10) as u8);
    assert(final(buf)@ =~= old(buf)@ + digits(n as nat));
}

/// Appends the decimal text of `i`.
pub fn put_decimal(buf: &mut Vec<u8>, i: i64)
    ensures
        final(buf)@ == old(buf)@ + decimal(i as int),
{
    if i < 0 {
        buf.push(45u8);
        let magnitude: u64 = ((-(i + 1)) as u64) + 1;
        put_digits(buf, magnitude);
        assert(final(buf)@ =~= old(buf)@ + decimal(i as int));
    } else {
        put_digits(buf, i as u64);
    }
}

/// The decimal text of `i`, as `i.to_string()` writes it.
pub fn decimal_text(i: i64) -> (r: Vec<u8>)
    ensures
        r@ == decimal(i as int),
{
    let mut r: Vec<u8> = Vec::new();
    put_decimal(&mut r, i);
    assert(r@ =~= decimal(i as int));
    r
}

} // verus!
