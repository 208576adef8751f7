//! What the library takes for granted of values that are kept from being dropped.
use std::mem::ManuallyDrop;
use vstd::prelude::*;

verus! {

/// `ManuallyDrop::deref_mut`: the value that is kept, to be changed in place.
#[verifier::external_body]
pub(crate) fn kept_mut<T>(kept: &mut ManuallyDrop<T>) -> (val: &mut T)
    ensures
        *val == old(kept)@,
        final(kept)@ == *final(val),
{
    kept
}

} // verus!
