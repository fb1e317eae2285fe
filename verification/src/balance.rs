//! The force balance check: by Newton's third law the forces of a closed
//! system sum to zero, so a sum beyond rounding noise shows a defect.
use crate::double::Double;
use vstd::prelude::*;

verus! {

/// The verdict on a summed force: it passes when its absolute value is
/// strictly below the threshold. A sum or threshold that is not-a-number
/// never passes.
pub fn is_balanced(total: Double, threshold: Double) -> (r: bool)
    ensures
        r == total@.magnitude().below(threshold@),
{
    total.abs().below(threshold)
}

} // verus!
