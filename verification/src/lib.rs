//! The abstract syntax of a WebAssembly (version 1) module, together with its
//! binary encoding and decoding.
//!
//! Decoding keeps every detail that a module's bytes may vary in without changing
//! the module: the number of bytes of each LEB128 integer (also of counts and
//! section sizes). Encoding writes the same detail back, so that decoding and then
//! encoding a module gives back the bytes it was decoded from.
use vstd::prelude::*;

pub mod leb128;
pub mod binary;
pub mod ast;
pub mod types;
pub mod code;
pub mod sections;
pub mod module;
pub mod format;

verus! {

} // verus!
