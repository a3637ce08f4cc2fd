//! Sharing of the program between the parts of what runs.

use std::rc::Rc;
use vstd::prelude::*;

verus! {

/// Another pointer to what a pointer points to. Calls `Rc::clone`, which makes a
/// pointer to the same allocation: both point to the same thing.
#[verifier::external_body]
pub(crate) fn share<T>(rc: &Rc<T>) -> (r: Rc<T>)
    ensures
        r == *rc,
{
    Rc::clone(rc)
}

} // verus!
