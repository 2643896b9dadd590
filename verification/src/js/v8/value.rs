//! A JavaScript value of V8, with the context it belongs to.
use vstd::prelude::*;

verus! {

/// A value together with the context it belongs to. A context is any copyable handle `C`, and
/// a V8 value handle any copyable `V`.
#[derive(Debug)]
pub struct V8Value<C, V> {
    pub context: C,
    pub value: V,
}

} // verus!
