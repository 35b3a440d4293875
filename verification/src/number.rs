use vstd::prelude::*;

verus! {

/// The sign bit of a binary64 bit pattern.
pub const SIGN_BIT: u64 = 0x8000_0000_0000_0000;

/// The bits below the sign: exponent and fraction.
pub const MAGNITUDE_BITS: u64 = 0x7fff_ffff_ffff_ffff;

/// The magnitude of infinity: every exponent bit set, no fraction bit.
/// A larger magnitude is not a number.
pub const INFINITY_BITS: u64 = 0x7ff0_0000_0000_0000;

/// The four operations whose results are rounded. They are computed by the
/// caller's arithmetic function, not here.
#[derive(Copy, Clone, Debug, PartialEq, Eq, Structural)]
pub enum Arithmetic {
    Add,
    Subtract,
    Multiply,
    Divide,
}

/// Whether `text` can be what the caller's function shows for the number `n`.
pub open spec fn shows<S: Fn(u64) -> String>(show_number: S, n: u64, text: Seq<char>) -> bool {
    exists|t: String| #[trigger] show_number.ensures((n,), t) && t@ == text
}

/// Whether a bit pattern is a NaN.
pub open spec fn is_nan(bits: u64) -> bool {
    bits & MAGNITUDE_BITS > INFINITY_BITS
}

/// The place of a bit pattern that is no NaN in the order of the numbers:
/// its magnitude, negative where the sign bit is set. Both zeros have place 0.
pub open spec fn place(bits: u64) -> int {
    if bits & SIGN_BIT == 0 {
        (bits & MAGNITUDE_BITS) as int
    } else {
        -((bits & MAGNITUDE_BITS) as int)
    }
}

/// `a == b` on numbers: false where either is a NaN.
pub open spec fn equal(a: u64, b: u64) -> bool {
    !is_nan(a) && !is_nan(b) && place(a) == place(b)
}

/// `a < b` on numbers: false where either is a NaN.
pub open spec fn less(a: u64, b: u64) -> bool {
    !is_nan(a) && !is_nan(b) && place(a) < place(b)
}

/// `a <= b` on numbers: false where either is a NaN.
pub open spec fn less_equal(a: u64, b: u64) -> bool {
    !is_nan(a) && !is_nan(b) && place(a) <= place(b)
}

/// `-a` on numbers: the same magnitude with the other sign.
pub open spec fn negated(bits: u64) -> u64 {
    bits ^ SIGN_BIT
}

pub fn number_is_nan(bits: u64) -> (r: bool)
    ensures
        r == is_nan(bits),
{
    bits & MAGNITUDE_BITS > INFINITY_BITS
}

/// The place of a number in the order, as a machine integer.
fn number_place(bits: u64) -> (r: i128)
    ensures
        r == place(bits),
{
    let magnitude: u64 = bits & MAGNITUDE_BITS;
    if bits & SIGN_BIT == 0 {
        magnitude as i128
    } else {
        -(magnitude as i128)
    }
}

pub fn number_equal(a: u64, b: u64) -> (r: bool)
    ensures
        r == equal(a, b),
{
    !number_is_nan(a) && !number_is_nan(b) && number_place(a) == number_place(b)
}

pub fn number_less(a: u64, b: u64) -> (r: bool)
    ensures
        r == less(a, b),
{
    !number_is_nan(a) && !number_is_nan(b) && number_place(a) < number_place(b)
}

pub fn number_less_equal(a: u64, b: u64) -> (r: bool)
    ensures
        r == less_equal(a, b),
{
    !number_is_nan(a) && !number_is_nan(b) && number_place(a) <= number_place(b)
}

pub fn number_negated(bits: u64) -> (r: u64)
    ensures
        r == negated(bits),
{
    bits ^ SIGN_BIT
}

/// Of two numbers exactly one of `a < b`, `a == b` and `b < a` holds; where
/// either is a NaN, none of them does. `a <= b` is `a < b` or `a == b`.
pub proof fn law_number_order(a: u64, b: u64)
    ensures
        !is_nan(a) && !is_nan(b) ==> (less(a, b) || equal(a, b) || less(b, a)),
        !(less(a, b) && equal(a, b)),
        !(less(a, b) && less(b, a)),
        !(equal(a, b) && less(b, a)),
        is_nan(a) || is_nan(b) ==> !less(a, b) && !equal(a, b) && !less(b, a),
        less_equal(a, b) == (less(a, b) || equal(a, b)),
        equal(a, b) == equal(b, a),
{
}

/// The two zeros are equal, and neither is less than the other.
pub proof fn law_zeros_are_equal()
    ensures
        equal(0, SIGN_BIT),
        !less(SIGN_BIT, 0),
        !less(0, SIGN_BIT),
{
    assert(0x8000_0000_0000_0000u64 & 0x7fff_ffff_ffff_ffffu64 == 0) by (bit_vector);
    assert(0u64 & 0x7fff_ffff_ffff_ffffu64 == 0) by (bit_vector);
    assert(0u64 & 0x8000_0000_0000_0000u64 == 0) by (bit_vector);
}

/// Negating twice gives the number back, bit for bit.
pub proof fn lemma_negated_twice(bits: u64)
    ensures
        negated(negated(bits)) == bits,
{
    assert((bits ^ 0x8000_0000_0000_0000u64) ^ 0x8000_0000_0000_0000u64 == bits) by (bit_vector);
}

/// Negation turns the order round: `-a < -b` exactly when `b < a`.
pub proof fn law_negation_reverses_order(a: u64, b: u64)
    ensures
        less(negated(a), negated(b)) == less(b, a),
        equal(negated(a), negated(b)) == equal(a, b),
        is_nan(negated(a)) == is_nan(a),
{
    lemma_negated_parts(a);
    lemma_negated_parts(b);
}

/// Negation keeps the magnitude and changes the sign bit.
proof fn lemma_negated_parts(bits: u64)
    ensures
        negated(bits) & MAGNITUDE_BITS == bits & MAGNITUDE_BITS,
        (negated(bits) & SIGN_BIT == 0) == (bits & SIGN_BIT != 0),
{
    assert((bits ^ 0x8000_0000_0000_0000u64) & 0x7fff_ffff_ffff_ffffu64 == bits
        & 0x7fff_ffff_ffff_ffffu64) by (bit_vector);
    assert(((bits ^ 0x8000_0000_0000_0000u64) & 0x8000_0000_0000_0000u64 == 0) == (bits
        & 0x8000_0000_0000_0000u64 != 0)) by (bit_vector);
}

} // verus!
