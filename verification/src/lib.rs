//! Sunaba: the decision logic of a sandbox server that lets agents write and run
//! code in per-language containers. Paths, commands, names and outcomes are
//! computed here; talking to Docker, the file system and the protocol is left to
//! the program around the library.
use vstd::prelude::*;

pub mod models;
pub mod text;
pub mod lexical;
pub mod errors;
pub mod config;
pub mod workspace;
pub mod docker;
pub mod tools;

verus! {

} // verus!
