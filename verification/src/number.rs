//! Line numbers as they appear in front of a line.

use vstd::prelude::*;
use crate::render::TAB;

verus! {

/// The digit `0`. The other digits follow it in order.
pub const DIGIT_ZERO: u8 = 48;

/// The space that separates a line number from the line.
pub const SPACE: u8 = 32;

/// `n` written in decimal digits, without sign, padding or leading zeros.
pub open spec fn decimal(n: nat) -> Seq<u8>
    decreases n,
{
    if n < 10 {
        seq![(DIGIT_ZERO + n) as u8]
    } else {
        decimal(n / 10).push((DIGIT_ZERO + n % 10) as u8)
    }
}

/// What stands in front of the line that has the number `n`: a tab, the
/// number in decimal, and a space.
pub open spec fn number_prefix(n: nat) -> Seq<u8> {
    seq![TAB] + decimal(n) + seq![SPACE]
}

/// Appends `n` in decimal digits to `writer`.
pub fn write_decimal(n: u64, writer: &mut Vec<u8>)
    ensures
        final(writer)@ == old(writer)@ + decimal(n as nat),
    decreases n,
{
    if n >= 10 {
        write_decimal(n / 10, writer);
    }
    let digit: u8 = DIGIT_ZERO + (n % 10) as u8;
    writer.push(digit);
    assert(writer@ =~= old(writer)@ + decimal(n as nat));
}

/// Appends to `writer` the prefix of the line that has the number `n`.
pub fn write_number_prefix(n: u64, writer: &mut Vec<u8>)
    ensures
        final(writer)@ == old(writer)@ + number_prefix(n as nat),
{
    writer.push(TAB);
    write_decimal(n, writer);
    writer.push(SPACE);
    assert(writer@ =~= old(writer)@ + number_prefix(n as nat));
}

} // verus!
