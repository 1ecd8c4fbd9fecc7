//! Escape-time Mandelbrot kernels: the decision logic of every variant,
//! verified against one mathematical model of the escape time.
//!
//! Each kernel reads, for every lane and every iteration, whether the lane's
//! trajectory lies beyond the divergence threshold at that iteration: `true`
//! unless the squared magnitude is at most the threshold, so that a
//! trajectory that has overflowed to NaN stays beyond. A point's record of
//! such observations, one per iteration up to `ITER_LIMIT`, is all the
//! kernels see of it. The floating-point recurrence that produces the
//! observations lives with the caller; the counting, masking, sentinel
//! handling, narrowing and layout of the output grid live here.
//!
//! Every kernel gives a point its escape time: the index of its first
//! observation beyond the threshold, or `ITER_LIMIT` when there is none. A
//! point escapes once; later observations never change its count.

use vstd::prelude::*;

pub mod batch;
pub mod escape;
pub mod grid;
pub mod masked;

verus! {

/// Number of iterations after which a point that has not escaped is
/// considered to be in the Mandelbrot set.
pub const ITER_LIMIT: u32 = 1000;

} // verus!
