use vstd::prelude::*;

pub mod config;
pub mod encoding;
pub mod getrandom_shim;
pub mod host;
pub mod json;
pub mod protocol;
pub mod state;
pub mod text;
pub mod writer;

verus! {
} // verus!
