//! The algorithm selector and the output grid: lane-width checks, the
//! dispatch to a kernel, and the row-major assembly of per-block counts.

use vstd::prelude::*;

use crate::batch::{batch_counts, BATCH_SIZE};
use crate::escape::{escape_time, full_record, scalar_count};
use crate::masked::{full_records, masked_counts, records};
use crate::ITER_LIMIT;

verus! {

/// Lanes of the portable-SIMD kernel.
pub const SIMD_LANES: usize = 8;

/// Lanes of the kernel built on four-wide vectors.
pub const WIDE_LANES: usize = 4;

/// The kernel/driver combination that produces the grid.
#[derive(Clone, Copy, Debug, PartialEq, Eq, Structural)]
pub enum Algorithm {
    /// One point at a time, with an early exit at the escape.
    Scalar,
    /// Batched scalar code with per-lane sentinels and no early exit.
    CompilerSimd,
    /// Masked kernel on eight lanes.
    Simd,
    /// Masked kernel on four lanes.
    Wide,
    /// Masked kernel on the lane count detected on the running CPU.
    Pulp,
}

impl Algorithm {
    pub open spec fn lanes_spec(self, detected: usize) -> usize {
        match self {
            Algorithm::Scalar => 1,
            Algorithm::CompilerSimd => BATCH_SIZE,
            Algorithm::Simd => SIMD_LANES,
            Algorithm::Wide => WIDE_LANES,
            Algorithm::Pulp => detected,
        }
    }

    /// Width of the batch of points processed together; `detected` is the
    /// lane count found on the running CPU, used by `Pulp` alone.
    pub fn lanes(self, detected: usize) -> (r: usize)
        ensures
            r == self.lanes_spec(detected),
    {
        match self {
            Algorithm::Scalar => 1,
            Algorithm::CompilerSimd => BATCH_SIZE,
            Algorithm::Simd => SIMD_LANES,
            Algorithm::Wide => WIDE_LANES,
            Algorithm::Pulp => detected,
        }
    }
}

/// The number of batches per row, when `lanes` divides `width`; `None` is the
/// violated precondition of a lane-based kernel.
pub fn blocks_per_row(width: usize, lanes: usize) -> (r: Option<usize>)
    ensures
        r == if lanes > 0 && width % lanes == 0 {
            Some((width / lanes) as usize)
        } else {
            None::<usize>
        },
{
    if lanes == 0 || width % lanes != 0 {
        None
    } else {
        Some(width / lanes)
    }
}

/// A copy of one observation record.
fn copy_record(v: &Vec<bool>) -> (r: Vec<bool>)
    ensures
        r@ == v@,
{
    let mut r: Vec<bool> = Vec::new();
    let mut i: usize = 0;
    while i < v.len()
        invariant
            i <= v@.len(),
            r@ == v@.subrange(0, i as int),
        decreases v@.len() - i,
    {
        r.push(v[i]);
        i = i + 1;
        assert(r@ =~= v@.subrange(0, i as int));
    }
    assert(r@ =~= v@);
    r
}

/// The records of pixels `start .. start + lanes`.
fn gather_block(obs: &Vec<Vec<bool>>, start: usize, lanes: usize) -> (r: Vec<Vec<bool>>)
    requires
        start + lanes <= obs@.len(),
    ensures
        records(r@) =~= records(obs@).subrange(start as int, start + lanes),
{
    let mut r: Vec<Vec<bool>> = Vec::new();
    let n = obs.len();
    let mut i: usize = 0;
    while i < lanes
        invariant
            n == obs@.len(),
            start + lanes <= n,
            i <= lanes,
            r@.len() == i,
            forall|j: int| 0 <= j < i ==> #[trigger] r@[j]@ == obs@[start + j]@,
        decreases lanes - i,
    {
        let v = copy_record(&obs[start + i]);
        r.push(v);
        i = i + 1;
    }
    r
}

/// Runs the algorithm's kernel on one batch of records; every kernel gives
/// each lane its escape time.
pub fn kernel_counts(algorithm: Algorithm, block: &Vec<Vec<bool>>) -> (r: Vec<u32>)
    requires
        full_records(block@),
    ensures
        r@.len() == block@.len(),
        forall|l: int|
            0 <= l < block@.len() ==> #[trigger] r@[l] as nat == escape_time(block@[l]@),
        forall|l: int| 0 <= l < block@.len() ==> #[trigger] r@[l] <= ITER_LIMIT,
{
    match algorithm {
        Algorithm::Scalar => {
            let mut r: Vec<u32> = Vec::new();
            let mut i: usize = 0;
            while i < block.len()
                invariant
                    full_records(block@),
                    i <= block@.len(),
                    r@.len() == i,
                    forall|l: int|
                        0 <= l < i ==> #[trigger] r@[l] as nat == escape_time(block@[l]@),
                    forall|l: int| 0 <= l < i ==> #[trigger] r@[l] <= ITER_LIMIT,
                decreases block@.len() - i,
            {
                assert(full_record(block@[i as int]@));
                r.push(scalar_count(&block[i]));
                i = i + 1;
            }
            r
        },
        Algorithm::CompilerSimd => batch_counts(block),
        _ => masked_counts(block),
    }
}

/// Produces the grid of counts, row-major, from the records `obs` of its
/// `width * height` pixels. `None` when the algorithm's lane count does not
/// divide `width`; otherwise each pixel's count is its escape time, whatever
/// the algorithm.
pub fn render(
    width: usize,
    height: usize,
    algorithm: Algorithm,
    detected: usize,
    obs: &Vec<Vec<bool>>,
) -> (r: Option<Vec<u32>>)
    requires
        obs@.len() == width * height,
        full_records(obs@),
    ensures
        r is None <==> !(algorithm.lanes_spec(detected) > 0 && width % algorithm.lanes_spec(
            detected,
        ) == 0),
        r matches Some(g) ==> {
            &&& g@.len() == obs@.len()
            &&& forall|p: int|
                0 <= p < obs@.len() ==> #[trigger] g@[p] as nat == escape_time(obs@[p]@)
            &&& forall|p: int| 0 <= p < obs@.len() ==> #[trigger] g@[p] <= ITER_LIMIT
        },
{
    let lanes = algorithm.lanes(detected);
    if blocks_per_row(width, lanes).is_none() {
        return None;
    }
    let n = obs.len();
    let ghost m: int = n as int / lanes as int;
    proof {
        let wb = width as int / lanes as int;
        assert(width as int == wb * lanes) by {
            vstd::arithmetic::div_mod::lemma_fundamental_div_mod(width as int, lanes as int);
        }
        assert(n as int == (wb * height) * lanes) by (nonlinear_arith)
            requires
                n as int == width * height,
                width as int == wb * lanes,
        ;
        vstd::arithmetic::div_mod::lemma_fundamental_div_mod_converse(
            n as int,
            lanes as int,
            wb * height,
            0,
        );
    }
    let mut out: Vec<u32> = Vec::new();
    let mut start: usize = 0;
    let ghost mut b: int = 0;
    while start < n
        invariant
            n == obs@.len(),
            full_records(obs@),
            lanes == algorithm.lanes_spec(detected),
            lanes > 0,
            n as int == m * lanes,
            0 <= b <= m,
            start <= n,
            start as int == b * lanes,
            out@.len() == start,
            forall|p: int|
                0 <= p < start ==> #[trigger] out@[p] as nat == escape_time(obs@[p]@),
            forall|p: int| 0 <= p < start ==> #[trigger] out@[p] <= ITER_LIMIT,
        decreases n - start,
    {
        proof {
            assert(b < m) by (nonlinear_arith)
                requires
                    start as int == b * lanes,
                    n as int == m * lanes,
                    start < n,
                    lanes > 0,
            ;
            assert(start + lanes <= n) by (nonlinear_arith)
                requires
                    start as int == b * lanes,
                    n as int == m * lanes,
                    b < m,
            ;
        }
        let block = gather_block(obs, start, lanes);
        proof {
            assert forall|l: int| 0 <= l < block@.len() implies full_record(
                #[trigger] block@[l]@,
            ) by {
                assert(records(block@)[l] == block@[l]@);
                assert(full_record(obs@[start + l]@));
            }
        }
        let counts = kernel_counts(algorithm, &block);
        let mut i: usize = 0;
        while i < lanes
            invariant
                start + lanes <= n,
                counts@.len() == lanes,
                i <= lanes,
                out@.len() == start + i,
                forall|p: int|
                    0 <= p < start ==> #[trigger] out@[p] as nat == escape_time(obs@[p]@),
                forall|p: int| 0 <= p < start ==> #[trigger] out@[p] <= ITER_LIMIT,
                forall|p: int| start <= p < start + i ==> #[trigger] out@[p] == counts@[p - start],
            decreases lanes - i,
        {
            out.push(counts[i]);
            i = i + 1;
        }
        proof {
            assert forall|p: int| start <= p < start + lanes implies #[trigger] out@[p] as nat
                == escape_time(obs@[p]@) && out@[p] <= ITER_LIMIT by {
                assert(records(block@)[p - start] == records(obs@)[p]);
                assert(out@[p] == counts@[p - start]);
            }
            b = b + 1;
            assert(start + lanes == b * lanes) by (nonlinear_arith)
                requires
                    start as int == (b - 1) * lanes,
            ;
        }
        start = start + lanes;
    }
    Some(out)
}

/// The grid does not depend on the algorithm, nor on the call: any two
/// results that meet the contract of `render` for the same records, whatever
/// the algorithms and lane counts behind them, are equal.
pub proof fn lemma_grids_agree(g1: Seq<u32>, g2: Seq<u32>, obs: Seq<Seq<bool>>)
    requires
        g1.len() == obs.len(),
        g2.len() == obs.len(),
        forall|p: int| 0 <= p < obs.len() ==> #[trigger] g1[p] as nat == escape_time(obs[p]),
        forall|p: int| 0 <= p < obs.len() ==> #[trigger] g2[p] as nat == escape_time(obs[p]),
    ensures
        g1 == g2,
{
    assert(g1 =~= g2);
}

} // verus!
