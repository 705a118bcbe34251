//! The logic of a desk light that shows what a coding assistant is doing.
pub mod client;
pub mod daemon;
pub mod firmware;
pub mod json;
pub mod light_core;
pub mod protocol;
pub mod text;
