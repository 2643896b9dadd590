//! The JavaScript layer of the web executor: errors, value types and the V8 function bindings.
pub mod v8;

use vstd::prelude::*;

verus! {

/// An error of the JavaScript layer.
#[derive(Debug)]
pub enum JSError {
    Generic(String),
    Conversion(String),
    Runtime(String),
    Compile(String),
    Initialize(String),
    Execution(String),
}

impl JSError {
    /// The message of the error, as its `to_string` writes it.
    pub open spec fn message(&self) -> Seq<char> {
        match self {
            JSError::Generic(m) => "generic error: "@ + m@,
            JSError::Conversion(m) => "conversion error: "@ + m@,
            JSError::Runtime(m) => "runtime error: "@ + m@,
            JSError::Compile(m) => "compile error: "@ + m@,
            JSError::Initialize(m) => "initialize error: "@ + m@,
            JSError::Execution(m) => "execution error: "@ + m@,
        }
    }

    /// The message of the error.
    pub fn to_string(&self) -> (s: String)
        ensures
            s@ == self.message(),
    {
        let mut s = String::new();
        match self {
            JSError::Generic(m) => {
                s.append("generic error: ");
                s.append(m.as_str());
            },
            JSError::Conversion(m) => {
                s.append("conversion error: ");
                s.append(m.as_str());
            },
            JSError::Runtime(m) => {
                s.append("runtime error: ");
                s.append(m.as_str());
            },
            JSError::Compile(m) => {
                s.append("compile error: ");
                s.append(m.as_str());
            },
            JSError::Initialize(m) => {
                s.append("initialize error: ");
                s.append(m.as_str());
            },
            JSError::Execution(m) => {
                s.append("execution error: ");
                s.append(m.as_str());
            },
        }
        s
    }
}

/// The type of a JavaScript value.
#[derive(Debug)]
pub enum JSType {
    Undefined,
    Null,
    Boolean,
    Number,
    String,
    Object,
    Array,
    Function,
    Other(String),
}

} // verus!
