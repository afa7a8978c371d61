use vstd::prelude::*;

verus! {

/// Adds one to a value that is known to stay in range.
pub fn increment_one(number: u32) -> (r: u32)
    requires
        number < u32::MAX,
    ensures
        r == number + 1,
{
    number + 1
}

} // verus!
