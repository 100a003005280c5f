//! Decoder for the WebAssembly binary format.
//!
//! Every production of the grammar is a function from the input bytes to the
//! decoded value and the bytes that follow it, or to a `DecodeError`.

pub mod binary_format;
pub mod encoding;
pub mod indices;
pub mod instructions;
pub mod integers;
pub mod outcome;
