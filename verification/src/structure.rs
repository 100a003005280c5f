//! Abstract syntax of WebAssembly modules.

pub mod instructions;
pub mod modules;
pub mod types;
