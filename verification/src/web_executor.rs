//! The web executor: the JavaScript layer that runs page scripts and binds Rust functions to them.
pub mod interop;
pub mod js;
pub mod test;
