//! Arithmetic on sizes that must stay within `usize`.

use vstd::prelude::*;

verus! {

/// The product of two sizes. The caller shows that it fits in `usize`.
pub fn strict_mul(lhs: usize, rhs: usize, context: &str) -> (product: usize)
    requires
        lhs * rhs <= usize::MAX,
    ensures
        product == lhs * rhs,
{
    lhs * rhs
}

/// The difference of two sizes. The caller shows that it is not negative.
pub fn strict_sub(lhs: usize, rhs: usize, context: &str) -> (difference: usize)
    requires
        lhs >= rhs,
    ensures
        difference == lhs - rhs,
{
    lhs - rhs
}

} // verus!
