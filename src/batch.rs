//! The batched-scalar kernel: a fixed batch of points, one count per lane
//! that starts at the `ITER_LIMIT` sentinel and is overwritten once, at the
//! lane's escape. Every sweep visits each lane; escaped lanes are skipped.

use vstd::prelude::*;

use crate::escape::{escape_time, lemma_escape_time_facts};
use crate::masked::full_records;
use crate::ITER_LIMIT;

verus! {

/// Number of points the batched-scalar kernel processes together.
pub const BATCH_SIZE: usize = 8;

/// A batch of `lanes` counts, each holding the "not yet escaped" sentinel.
pub fn new_batch(lanes: usize) -> (r: Vec<u32>)
    ensures
        r@ == Seq::new(lanes as nat, |l: int| ITER_LIMIT),
{
    let mut r: Vec<u32> = Vec::new();
    let mut i: usize = 0;
    while i < lanes
        invariant
            i <= lanes,
            r@ == Seq::new(i as nat, |l: int| ITER_LIMIT),
        decreases lanes - i,
    {
        r.push(ITER_LIMIT);
        i = i + 1;
    }
    r
}

/// Whether lane `lane` has not escaped yet, so that its arithmetic still has
/// to be done.
pub fn lane_active(counts: &Vec<u32>, lane: usize) -> (r: bool)
    requires
        lane < counts@.len(),
    ensures
        r == (counts@[lane as int] == ITER_LIMIT),
{
    counts[lane] == ITER_LIMIT
}

/// Records the observation of iteration `iteration` for lane `lane`: an
/// active lane that lies beyond the threshold gets `iteration` as its count;
/// any other lane is left as it is.
pub fn observe_lane(counts: &mut Vec<u32>, lane: usize, iteration: u32, beyond: bool)
    requires
        lane < old(counts)@.len(),
        iteration < ITER_LIMIT,
    ensures
        final(counts)@ == if old(counts)@[lane as int] == ITER_LIMIT && beyond {
            old(counts)@.update(lane as int, iteration)
        } else {
            old(counts)@
        },
{
    if lane_active(counts, lane) && beyond {
        counts.set(lane, iteration);
    }
}

/// Batched-scalar kernel over one batch: `obs[l][k]` tells whether lane `l`
/// lies beyond the threshold at iteration `k`. All `ITER_LIMIT` sweeps run.
pub fn batch_counts(obs: &Vec<Vec<bool>>) -> (r: Vec<u32>)
    requires
        full_records(obs@),
    ensures
        r@.len() == obs@.len(),
        forall|l: int| 0 <= l < obs@.len() ==> #[trigger] r@[l] as nat == escape_time(obs@[l]@),
        forall|l: int| 0 <= l < obs@.len() ==> #[trigger] r@[l] <= ITER_LIMIT,
{
    let lanes = obs.len();
    let mut counts = new_batch(lanes);
    proof {
        assert forall|l: int| 0 <= l < lanes implies escape_time(#[trigger] obs@[l]@) <= ITER_LIMIT by {
            assert(crate::escape::full_record(obs@[l]@));
            lemma_escape_time_facts(obs@[l]@);
        }
    }
    let mut iteration: u32 = 0;
    while iteration < ITER_LIMIT
        invariant
            lanes == obs@.len(),
            full_records(obs@),
            iteration <= ITER_LIMIT,
            counts@.len() == lanes,
            forall|l: int| 0 <= l < lanes ==> escape_time(#[trigger] obs@[l]@) <= ITER_LIMIT,
            forall|l: int|
                0 <= l < lanes ==> #[trigger] counts@[l] == if escape_time(obs@[l]@) < iteration {
                    escape_time(obs@[l]@) as u32
                } else {
                    ITER_LIMIT
                },
        decreases ITER_LIMIT - iteration,
    {
        let mut lane: usize = 0;
        while lane < lanes
            invariant
                lanes == obs@.len(),
                full_records(obs@),
                iteration < ITER_LIMIT,
                lane <= lanes,
                counts@.len() == lanes,
                forall|l: int| 0 <= l < lanes ==> escape_time(#[trigger] obs@[l]@) <= ITER_LIMIT,
                forall|l: int|
                    0 <= l < lane ==> #[trigger] counts@[l] == if escape_time(obs@[l]@)
                        < iteration + 1 {
                        escape_time(obs@[l]@) as u32
                    } else {
                        ITER_LIMIT
                    },
                forall|l: int|
                    lane <= l < lanes ==> #[trigger] counts@[l] == if escape_time(obs@[l]@)
                        < iteration {
                        escape_time(obs@[l]@) as u32
                    } else {
                        ITER_LIMIT
                    },
            decreases lanes - lane,
        {
            proof {
                assert(crate::escape::full_record(obs@[lane as int]@));
                lemma_escape_time_facts(obs@[lane as int]@);
            }
            let beyond = obs[lane][iteration as usize];
            observe_lane(&mut counts, lane, iteration, beyond);
            lane = lane + 1;
        }
        iteration = iteration + 1;
    }
    counts
}

} // verus!
