//! Interop between the engine and the scripts it runs.
use vstd::prelude::*;

use crate::types::Error;

verus! {

/// Something that can register itself with a WebAssembly context.
pub trait WASMInterop {
    fn implement<C>(ctx: &mut C) -> Result<(), Error>;
}

} // verus!
