//! The JavaScript engine binding layer: errors, value types, and the V8 engine's bookkeeping.
pub mod runtime;
pub mod v8;

use vstd::prelude::*;

verus! {

/// An error of the JavaScript layer.
#[derive(Debug)]
pub enum JSError {
    Generic(String),
    Conversion(String),
}

impl JSError {
    /// The message of the error.
    pub fn to_string(&self) -> (s: String)
        ensures
            s@ == match self {
                JSError::Generic(m) => "generic error: "@ + m@,
                JSError::Conversion(m) => "conversion error: "@ + m@,
            },
    {
        let mut s = String::new();
        match self {
            JSError::Generic(m) => {
                s.append("generic error: ");
                s.append(m.as_str());
            },
            JSError::Conversion(m) => {
                s.append("conversion error: ");
                s.append(m.as_str());
            },
        }
        s
    }
}

/// The type of a JavaScript value.
#[derive(PartialEq, Eq, Structural, Debug, Clone, Copy)]
pub enum JSType {
    Undefined,
    Null,
    Boolean,
    Number,
    String,
    Object,
    Array,
    Function,
}

} // verus!
