//! A holder for "produce the next item" closures, as the entity drivers
//! are shaped: each call of the closure yields the next entity, or `None`
//! when its stream is exhausted.

use vstd::prelude::*;

verus! {

/// Wraps a pull function.
#[verifier::reject_recursive_types(A)]
pub struct FromNextFn<A, F: FnMut() -> Option<A>> {
    f: F,
}

impl<A, F: FnMut() -> Option<A>> FromNextFn<A, F> {
    pub fn new(f: F) -> FromNextFn<A, F> {
        FromNextFn { f }
    }
}

} // verus!
