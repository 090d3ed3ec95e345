use vstd::prelude::*;

verus! {

/// The weight of the sign bit in the bit pattern of a double-precision number.
pub const SIGN: u64 = 0x8000_0000_0000_0000u64;

/// The bit pattern of positive infinity: every larger magnitude is not a number.
pub const INFINITY: u64 = 0x7ff0_0000_0000_0000u64;

/// Whether the sign bit of a bit pattern is set.
pub open spec fn negative(bits: u64) -> bool {
    bits >= SIGN
}

/// The bit pattern without its sign bit.
pub open spec fn magnitude(bits: u64) -> int {
    if bits >= SIGN {
        bits - SIGN
    } else {
        bits as int
    }
}

/// Whether a bit pattern stands for no number.
pub open spec fn not_a_number(bits: u64) -> bool {
    magnitude(bits) > INFINITY
}

/// An integer that orders the bit patterns of numbers as the numbers are
/// ordered: both zeros share the rank zero.
pub open spec fn rank(bits: u64) -> int {
    if negative(bits) {
        -magnitude(bits)
    } else {
        magnitude(bits)
    }
}

/// Equality of two numbers: neither is not-a-number and both have one rank.
pub open spec fn equal_numbers(a: u64, b: u64) -> bool {
    !not_a_number(a) && !not_a_number(b) && rank(a) == rank(b)
}

/// Strict order of two numbers: neither is not-a-number and the ranks ascend.
pub open spec fn less_numbers(a: u64, b: u64) -> bool {
    !not_a_number(a) && !not_a_number(b) && rank(a) < rank(b)
}

/// The number with the opposite sign: the same magnitude, the other sign bit.
pub open spec fn negated(bits: u64) -> u64 {
    if bits >= SIGN {
        (bits - SIGN) as u64
    } else {
        (bits + SIGN) as u64
    }
}

fn magnitude_of(bits: u64) -> (r: u64)
    ensures
        r == magnitude(bits),
{
    if bits >= SIGN {
        bits - SIGN
    } else {
        bits
    }
}

/// Whether a bit pattern stands for no number.
pub fn is_nan(bits: u64) -> (r: bool)
    ensures
        r == not_a_number(bits),
{
    magnitude_of(bits) > INFINITY
}

/// The number with the opposite sign.
pub fn negate(bits: u64) -> (r: u64)
    ensures
        r == negated(bits),
{
    if bits >= SIGN {
        bits - SIGN
    } else {
        bits + SIGN
    }
}

/// Whether two numbers are equal.
pub fn equal(a: u64, b: u64) -> (r: bool)
    ensures
        r == equal_numbers(a, b),
{
    if is_nan(a) || is_nan(b) {
        false
    } else {
        let x = magnitude_of(a);
        let y = magnitude_of(b);
        if (a >= SIGN) == (b >= SIGN) {
            x == y
        } else {
            x == 0 && y == 0
        }
    }
}

/// Whether a number is less than another.
pub fn less(a: u64, b: u64) -> (r: bool)
    ensures
        r == less_numbers(a, b),
{
    if is_nan(a) || is_nan(b) {
        false
    } else {
        let x = magnitude_of(a);
        let y = magnitude_of(b);
        if a >= SIGN {
            if b >= SIGN {
                x > y
            } else {
                !(x == 0 && y == 0)
            }
        } else {
            if b >= SIGN {
                false
            } else {
                x < y
            }
        }
    }
}

/// Whether a number is less than another or equal to it.
pub fn less_or_equal(a: u64, b: u64) -> (r: bool)
    ensures
        r == (less_numbers(a, b) || equal_numbers(a, b)),
{
    less(a, b) || equal(a, b)
}

/// Negating twice gives the number back.
pub proof fn negation_undoes_itself(bits: u64)
    ensures
        negated(negated(bits)) == bits,
{
}

/// Negation turns the order around: the rank of the negated number is the
/// negated rank, and it is not-a-number exactly if the number is.
pub proof fn negation_mirrors_the_order(bits: u64)
    ensures
        rank(negated(bits)) == -rank(bits),
        not_a_number(negated(bits)) == not_a_number(bits),
{
}

/// The order of numbers is strict: no number is less than itself, no two
/// numbers are each less than the other, and less than is transitive.
pub proof fn order_is_strict(a: u64, b: u64, c: u64)
    ensures
        !less_numbers(a, a),
        less_numbers(a, b) ==> !less_numbers(b, a),
        less_numbers(a, b) && less_numbers(b, c) ==> less_numbers(a, c),
        less_numbers(a, b) ==> !equal_numbers(a, b),
{
}

/// Two numbers are ordered or equal, unless one of them is not-a-number,
/// which is neither less than, nor greater than, nor equal to any number.
pub proof fn numbers_are_comparable(a: u64, b: u64)
    ensures
        !not_a_number(a) && !not_a_number(b) ==> less_numbers(a, b) || equal_numbers(a, b)
            || less_numbers(b, a),
        not_a_number(a) ==> !less_numbers(a, b) && !less_numbers(b, a) && !equal_numbers(a, b),
{
}

/// The two zeros are equal, though their bit patterns differ.
pub proof fn zeros_are_equal()
    ensures
        equal_numbers(0, SIGN),
        !less_numbers(0, SIGN),
        !less_numbers(SIGN, 0),
{
}

} // verus!
