use vstd::prelude::*;

verus! {

/// The marker of an arithmetic result that does not fit the width.
#[derive(Copy, Clone, Debug, PartialEq, Eq, Structural)]
pub struct OverflowException;

} // verus!
