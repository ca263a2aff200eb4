use vstd::prelude::*;

pub mod api;
pub mod domain;
pub mod engine;
pub mod json;
pub mod seed;
pub mod seqs;
pub mod text;

verus! {

} // verus!
