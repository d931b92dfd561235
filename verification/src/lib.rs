//! Exact square-matrix multiplication kernels over 64-bit integer elements.
//!
//! The same mathematical product is offered over several memory layouts —
//! nested row vectors, one flat row-major buffer, and a fixed 3×3 block —
//! together with a cache-friendly transposed-access kernel, deterministic
//! input builders, a chained-multiplication driver, and the aggregation of
//! timing series recorded by an outside benchmark loop. Every kernel is
//! pinned to one spec-level product, so all layouts provably agree.
#![allow(unused_imports)]
use vstd::prelude::*;

pub mod bench;
pub mod fixed;
pub mod flat;
pub mod nested;
pub mod model;

verus! {

/// The single error of the library: the lengths of flat-buffer operands or
/// of the output are inconsistent with the stated order of the matrices.
#[derive(Clone, Copy, Debug, PartialEq, Eq, Structural)]
pub struct DimensionMismatch;

/// The element-level combining operator of the kernels, exposed as a
/// first-class value so that an outside reduction facility can be handed
/// the same associative, commutative operation the kernels accumulate with.
pub fn element_add(x: i64, y: i64) -> (r: i64)
    requires
        i64::MIN <= x + y <= i64::MAX,
    ensures
        r == x + y,
{
    x + y
}

} // verus!
