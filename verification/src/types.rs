//! The engine's error type.
use vstd::prelude::*;

use crate::web_executor::js::JSError;

verus! {

/// An error of the engine.
#[derive(Debug)]
pub enum Error {
    JS(JSError),
}

impl Error {
    /// The message of the error: that of the JavaScript error it holds.
    pub fn to_string(&self) -> (s: String)
        ensures
            match self {
                Error::JS(e) => s@ == e.message(),
            },
    {
        match self {
            Error::JS(e) => e.to_string(),
        }
    }
}

} // verus!
