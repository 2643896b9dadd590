//! The JavaScript runtime: the engine that makes contexts.
use vstd::prelude::*;

use crate::js::v8::V8Engine;

verus! {

/// A runtime around an engine.
pub struct Runtime<R>(pub R);

impl Runtime<V8Engine> {
    /// The runtime around the V8 engine.
    pub fn new() -> (r: Self) {
        Runtime(V8Engine::new())
    }
}

} // verus!
