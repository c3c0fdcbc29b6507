//! Zero-initialization code for C typedefs.
//!
//! A header's `typedef` declarations are found by pattern ([`parser`]), read
//! into a typedef database ([`types`]), and one alias of it is resolved into a
//! field tree ([`resolver`]). The tree's leaves become assignment statements
//! ([`emitter`]), and each literal array index in them becomes a counted loop
//! ([`loop_nest`]). [`pipeline`] runs the stages in turn; [`laws`] states what
//! holds across them.
use vstd::prelude::*;

pub mod emitter;
pub mod laws;
pub mod lookup;
pub mod loop_nest;
pub mod parser;
pub mod pipeline;
pub mod pattern;
pub mod resolver;
pub mod text;
pub mod types;

verus! {

} // verus!
