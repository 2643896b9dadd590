//! Verified core of the gosub engine's CSS3 parser and JavaScript binding layer.
pub mod css3;
pub mod js;
pub mod types;
pub mod wasm;
pub mod web_executor;
