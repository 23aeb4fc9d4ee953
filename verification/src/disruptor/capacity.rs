//! Capacity validation: a ring holds a power-of-two number of slots.

use vstd::arithmetic::power2::is_pow2;
use vstd::prelude::*;

verus! {

/// The construction error: the requested capacity is zero, negative, or not
/// a power of two.
#[derive(Debug, Clone, Copy, PartialEq, Eq, Structural)]
pub struct CapacityError {
    /// The capacity that was asked for.
    pub requested: isize,
}

impl CapacityError {
    /// A fixed, human-readable description of the error.
    pub fn message(&self) -> (text: &'static str)
        ensures
            text@ == "Size isn't a power of 2"@,
    {
        "Size isn't a power of 2"
    }
}

/// A power of two is at least one.
pub proof fn lemma_pow2_is_positive(n: int)
    requires
        is_pow2(n),
    ensures
        n >= 1,
{
    reveal(is_pow2);
}

/// Halving an integer above one keeps or loses "all bits but one are clear"
/// exactly as it keeps or loses evenness.
proof fn lemma_single_bit_halves(n: isize)
    by (bit_vector)
    requires
        n > 1,
    ensures
        (n & ((n - 1) as isize)) == 0 <==> (n % 2 == 0 && (((n / 2) as isize) & ((n / 2 - 1) as isize))
            == 0),
{
}

/// For a positive integer, clearing its lowest set bit leaves zero exactly
/// when the integer is a power of two.
pub proof fn lemma_single_bit_is_pow2(n: isize)
    requires
        n > 0,
    ensures
        (n & ((n - 1) as isize)) == 0 <==> is_pow2(n as int),
    decreases n,
{
    reveal(is_pow2);
    if n == 1 {
        assert((1isize & 0isize) == 0) by (bit_vector);
    } else {
        lemma_single_bit_halves(n);
        lemma_single_bit_is_pow2((n / 2) as isize);
    }
}

/// Whether `size` can be the capacity of a ring: a power of two, hence at
/// least one.
pub fn is_valid_capacity(size: isize) -> (valid: bool)
    ensures
        valid == is_pow2(size as int),
{
    if size > 0 {
        proof {
            lemma_single_bit_is_pow2(size);
        }
        (size & (size - 1)) == 0
    } else {
        proof {
            reveal(is_pow2);
        }
        false
    }
}

} // verus!
