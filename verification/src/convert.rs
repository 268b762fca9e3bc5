//! Conversions between integer types, taken from `num`.

use vstd::prelude::*;

verus! {

/// Calls `num::ToPrimitive::to_usize` on a `u64`: the same number where a
/// `usize` can hold it, else `None`.
#[verifier::external_body]
pub(crate) fn u64_to_usize(value: u64) -> (r: Option<usize>)
    ensures
        r == if value <= usize::MAX {
            Some(value as usize)
        } else {
            None::<usize>
        },
{
    num::ToPrimitive::to_usize(&value)
}

/// Calls `num::ToPrimitive::to_usize` on an `i64`: the same number where it
/// is not negative and a `usize` can hold it, else `None`.
#[verifier::external_body]
pub(crate) fn i64_to_usize(value: i64) -> (r: Option<usize>)
    ensures
        r == if 0 <= value <= usize::MAX {
            Some(value as usize)
        } else {
            None::<usize>
        },
{
    num::ToPrimitive::to_usize(&value)
}

} // verus!
