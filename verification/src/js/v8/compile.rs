//! A script compiled in a V8 context.
use vstd::prelude::*;

verus! {

/// A compiled script handle `S` with the context `C` it was compiled in.
pub struct V8Compiled<C, S> {
    pub compiled: S,
    pub context: C,
}

impl<C, S> V8Compiled<C, S> {
    /// The compiled script of the context.
    pub fn from_ctx(ctx: C, value: S) -> (r: V8Compiled<C, S>)
        ensures
            r.context == ctx,
            r.compiled == value,
    {
        V8Compiled { context: ctx, compiled: value }
    }
}

} // verus!
