//! The WebAssembly entry point of the renderer.
pub mod renderer;
