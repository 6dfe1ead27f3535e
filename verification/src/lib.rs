//! Checks whether Oxide/uMod plugins for Rust servers compile.

pub mod branch;
pub mod bytes;
pub mod compile;
pub mod json;
pub mod path;
pub mod plugin;
pub mod report;
pub mod setup;
pub mod source;
pub mod text;
pub mod utils;
