//! A JavaScript object of V8.
use vstd::prelude::*;

verus! {

/// A V8 object handle.
pub struct V8Object<O>(pub O);

impl<O> V8Object<O> {
    /// The object for the handle.
    pub fn from(object: O) -> (r: V8Object<O>)
        ensures
            r.0 == object,
    {
        V8Object(object)
    }
}

} // verus!
