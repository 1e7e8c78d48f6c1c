use vstd::prelude::*;

pub mod media;
pub mod paths;
pub mod presenter;
pub mod render;
pub mod scripture;
pub mod search;
pub mod text;
pub mod wrap;

verus! {
} // verus!
