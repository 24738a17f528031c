//! Building blocks of a matrix-multiplication kernel compiler: the local
//! variable allocator, the asynchronous copy pipeline and its protocol,
//! problem shapes and strides, grid computation and configuration of the
//! standard algorithm, strategy dispatch with its fallback, integer element
//! values, and the unloader that writes result tiles.
use vstd::prelude::*;

pub mod algorithm;
pub mod allocator;
pub mod element;
pub mod ir;
pub mod launch;
pub mod pipeline;
pub mod problem;
pub mod unloader;

verus! {

} // verus!
