//! Single-precision numbers by their bits: the order of the numbers, without their arithmetic.

use vstd::prelude::*;

verus! {

/// The bits of the number one.
pub const ONE_BITS: u32 = 0x3F80_0000;

/// Whether bits stand for no number at all. The highest bit is the sign and says nothing of that.
pub open spec fn is_nan(bits: u32) -> bool {
    bits % 0x8000_0000 > 0x7F80_0000
}

/// Numbers in the order of the numbers that bits stand for. Without the sign, the bits rise with
/// the numbers; the two zeros are equal.
pub open spec fn rank(bits: u32) -> int {
    if bits < 0x8000_0000 {
        bits as int
    } else {
        0x8000_0000 - bits
    }
}

/// Whether one number is less than another. What is no number is not less than anything, and
/// nothing is less than it.
pub open spec fn less(a: u32, b: u32) -> bool {
    !is_nan(a) && !is_nan(b) && rank(a) < rank(b)
}

/// Whether one number is less than another, or equal to it.
pub open spec fn at_most(a: u32, b: u32) -> bool {
    !is_nan(a) && !is_nan(b) && rank(a) <= rank(b)
}

fn rank_of(bits: u32) -> (r: i64)
    ensures
        r == rank(bits),
{
    if bits < 0x8000_0000 {
        bits as i64
    } else {
        0x8000_0000i64 - bits as i64
    }
}

/// Whether bits stand for no number at all.
pub fn bits_are_nan(bits: u32) -> (r: bool)
    ensures
        r == is_nan(bits),
{
    bits % 0x8000_0000 > 0x7F80_0000
}

/// Whether one number is less than another.
pub fn is_less(a: u32, b: u32) -> (r: bool)
    ensures
        r == less(a, b),
{
    !bits_are_nan(a) && !bits_are_nan(b) && rank_of(a) < rank_of(b)
}

/// Whether one number is less than another, or equal to it.
pub fn is_at_most(a: u32, b: u32) -> (r: bool)
    ensures
        r == at_most(a, b),
{
    !bits_are_nan(a) && !bits_are_nan(b) && rank_of(a) <= rank_of(b)
}

/// Of two numbers one is less than the other, or they are equal, and never both.
pub proof fn law_order_is_total(a: u32, b: u32)
    requires
        !is_nan(a),
        !is_nan(b),
    ensures
        less(a, b) <==> !at_most(b, a),
        at_most(a, b) || at_most(b, a),
{
}

/// Bits stand for no number exactly when all bits of the exponent are set and one of the fraction
/// is, whatever the sign.
pub proof fn law_nan_bits(bits: u32)
    ensures
        is_nan(bits) <==> (bits / 0x80_0000) % 256 == 255 && bits % 0x80_0000 != 0,
{
}

/// Among numbers with the sign clear the order is that of the bits; with the sign set it is the
/// reverse; and one with the sign set is less than one with the sign clear, but for the two zeros,
/// which are equal.
pub proof fn law_order_of_bits(a: u32, b: u32)
    requires
        !((a / 0x80_0000) % 256 == 255 && a % 0x80_0000 != 0),
        !((b / 0x80_0000) % 256 == 255 && b % 0x80_0000 != 0),
    ensures
        a < 0x8000_0000 && b < 0x8000_0000 ==> (less(a, b) <==> a < b) && (at_most(a, b) <==> a <= b),
        a >= 0x8000_0000 && b >= 0x8000_0000 ==> (less(a, b) <==> a > b) && (at_most(a, b) <==> a
            >= b),
        a >= 0x8000_0000 && b < 0x8000_0000 ==> (less(a, b) <==> !(a == 0x8000_0000 && b == 0))
            && at_most(a, b),
        a < 0x8000_0000 && b >= 0x8000_0000 ==> !less(a, b) && (at_most(a, b) <==> a == 0 && b
            == 0x8000_0000),
{
    law_nan_bits(a);
    law_nan_bits(b);
}

/// What is no number is neither less than anything nor equal to anything, itself included.
pub proof fn law_nan_is_unordered(a: u32, b: u32)
    requires
        (a / 0x80_0000) % 256 == 255 && a % 0x80_0000 != 0,
    ensures
        !less(a, b),
        !less(b, a),
        !at_most(a, b),
        !at_most(b, a),
{
    law_nan_bits(a);
}

/// The order is transitive, and nothing is less than itself.
pub proof fn law_order_is_transitive(a: u32, b: u32, c: u32)
    ensures
        less(a, b) && at_most(b, c) ==> less(a, c),
        at_most(a, b) && less(b, c) ==> less(a, c),
        at_most(a, b) && at_most(b, c) ==> at_most(a, c),
        !less(a, a),
{
}

/// The number one has the exponent 127 and no fraction.
pub proof fn law_one_bits()
    ensures
        ONE_BITS / 0x80_0000 == 127,
        ONE_BITS % 0x80_0000 == 0,
{
}

} // verus!
