//! Checks that refuse an operation with a typed error.

use vstd::prelude::*;

verus! {

/// `Ok` where `condition` holds, and `Err(error)` where it does not.
pub fn require<E>(condition: bool, error: E) -> (checked: Result<(), E>)
    ensures
        checked == (if condition {
            Ok::<(), E>(())
        } else {
            Err::<(), E>(error)
        }),
{
    if condition {
        Ok(())
    } else {
        Err(error)
    }
}

} // verus!
