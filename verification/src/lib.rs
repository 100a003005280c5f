//! Core of a WebAssembly engine: the abstract syntax of modules, the runtime
//! store and execution stack, and a decoder for the binary format.

pub mod decoding;
pub mod runtime_structure;
pub mod structure;
pub mod structure_references;
