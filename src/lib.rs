//! A monoalphabetic substitution cipher: a mapping built from two alphabets
//! of equal length, encoding and decoding text through it, random keys by
//! scrambling an alphabet, and the decisions of an interactive session.

use vstd::prelude::*;

pub mod cipher;
pub mod entry;
pub mod laws;
pub mod scramble;
pub mod session;
pub mod text;

verus! {

} // verus!
