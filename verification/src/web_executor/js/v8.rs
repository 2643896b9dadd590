//! The V8 engine's function bindings.
pub mod context;
pub mod function;
