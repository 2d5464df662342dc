use vstd::prelude::*;

pub mod display;
pub mod filter;
pub mod highlight;
pub mod keys;
pub mod laws;
pub mod lines;
pub mod reflog;
pub mod text;
pub mod timeline;

verus! {
} // verus!
