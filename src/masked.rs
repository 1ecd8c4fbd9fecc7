//! The masked kernel shared by the fixed-width and the runtime-dispatched
//! vector variants: a wide per-lane accumulator, a masked increment that
//! freezes a lane from its first escape on, an early exit once no lane is
//! active, and a final narrowing to 32 bits.

use vstd::prelude::*;

use crate::escape::{escape_time, full_record, lemma_escape_time_facts};
use crate::ITER_LIMIT;

verus! {

/// The observation records of a batch, as sequences.
pub open spec fn records(obs: Seq<Vec<bool>>) -> Seq<Seq<bool>> {
    obs.map_values(|v: Vec<bool>| v@)
}

/// Every lane holds a full observation record.
pub open spec fn full_records(obs: Seq<Vec<bool>>) -> bool {
    forall|l: int| 0 <= l < obs.len() ==> full_record(#[trigger] obs[l]@)
}

/// A lane whose count has kept pace with the iterations is still active:
/// it has been within the threshold at every earlier iteration.
pub open spec fn counts_lane(count: u64, within: bool, iteration: u32) -> bool {
    within && count == iteration as u64
}

/// The "all false" reduction: whether any lane of the mask is set.
pub fn any_lane(mask: &Vec<bool>) -> (r: bool)
    ensures
        r == exists|l: int| 0 <= l < mask@.len() && mask@[l],
{
    let mut i: usize = 0;
    while i < mask.len()
        invariant
            i <= mask@.len(),
            forall|l: int| 0 <= l < i ==> !mask@[l],
        decreases mask@.len() - i,
    {
        if mask[i] {
            return true;
        }
        i = i + 1;
    }
    false
}

/// One masked step of iteration `iteration`: each lane that is still active
/// (its count equals `iteration`) and within the threshold gets one more
/// count; every other lane keeps its count, so a lane is frozen from its
/// first escape on. Returns whether any lane was counted; `false` ends the
/// batch.
pub fn masked_step(counts: &mut Vec<u64>, undiverged: &Vec<bool>, iteration: u32) -> (go_on:
    bool)
    requires
        old(counts)@.len() == undiverged@.len(),
    ensures
        go_on == exists|l: int|
            0 <= l < undiverged@.len() && counts_lane(old(counts)@[l], undiverged@[l], iteration),
        final(counts)@.len() == old(counts)@.len(),
        forall|l: int|
            0 <= l < old(counts)@.len() ==> #[trigger] final(counts)@[l] == if counts_lane(
                old(counts)@[l],
                undiverged@[l],
                iteration,
            ) {
                (old(counts)@[l] + 1) as u64
            } else {
                old(counts)@[l]
            },
{
    let n = counts.len();
    let mut live: Vec<bool> = Vec::new();
    let mut i: usize = 0;
    while i < n
        invariant
            n == old(counts)@.len(),
            n == undiverged@.len(),
            counts@ == old(counts)@,
            i <= n,
            live@.len() == i,
            forall|l: int|
                0 <= l < i ==> #[trigger] live@[l] == counts_lane(
                    old(counts)@[l],
                    undiverged@[l],
                    iteration,
                ),
        decreases n - i,
    {
        live.push(undiverged[i] && counts[i] == iteration as u64);
        i = i + 1;
    }
    let go_on = any_lane(&live);
    proof {
        if go_on {
            let l = choose|l: int| 0 <= l < live@.len() && live@[l];
            assert(counts_lane(old(counts)@[l], undiverged@[l], iteration));
        } else {
            assert forall|l: int| 0 <= l < n implies !counts_lane(
                old(counts)@[l],
                undiverged@[l],
                iteration,
            ) by {
                assert(!live@[l]);
            }
        }
    }
    let mut i: usize = 0;
    while i < n
        invariant
            n == old(counts)@.len(),
            n == undiverged@.len(),
            live@.len() == n,
            counts@.len() == n,
            i <= n,
            forall|l: int|
                0 <= l < n ==> #[trigger] live@[l] == counts_lane(
                    old(counts)@[l],
                    undiverged@[l],
                    iteration,
                ),
            forall|l: int|
                0 <= l < i ==> #[trigger] counts@[l] == if live@[l] {
                    (old(counts)@[l] + 1) as u64
                } else {
                    old(counts)@[l]
                },
            forall|l: int| i <= l < n ==> #[trigger] counts@[l] == old(counts)@[l],
        decreases n - i,
    {
        if live[i] {
            let c = counts[i] + 1;
            counts.set(i, c);
        }
        i = i + 1;
    }
    go_on
}

/// Narrows each lane of the wide accumulator to 32 bits by truncating its
/// value, lane by lane.
pub fn narrow_counts(wide: &Vec<u64>) -> (r: Vec<u32>)
    ensures
        r@.len() == wide@.len(),
        forall|l: int| 0 <= l < wide@.len() ==> #[trigger] r@[l] == wide@[l] as u32,
{
    let mut r: Vec<u32> = Vec::new();
    let mut i: usize = 0;
    while i < wide.len()
        invariant
            i <= wide@.len(),
            r@.len() == i,
            forall|l: int| 0 <= l < i ==> #[trigger] r@[l] == wide@[l] as u32,
        decreases wide@.len() - i,
    {
        r.push(wide[i] as u32);
        i = i + 1;
    }
    r
}

/// Masked kernel over one batch: `obs[l][k]` tells whether lane `l` lies
/// beyond the threshold at iteration `k`. Each lane's count is its escape
/// time; the batch stops as soon as no lane is active.
pub fn masked_counts(obs: &Vec<Vec<bool>>) -> (r: Vec<u32>)
    requires
        full_records(obs@),
    ensures
        r@.len() == obs@.len(),
        forall|l: int| 0 <= l < obs@.len() ==> #[trigger] r@[l] as nat == escape_time(obs@[l]@),
        forall|l: int| 0 <= l < obs@.len() ==> #[trigger] r@[l] <= ITER_LIMIT,
{
    let lanes = obs.len();
    let mut counts: Vec<u64> = Vec::new();
    let mut i: usize = 0;
    while i < lanes
        invariant
            lanes == obs@.len(),
            i <= lanes,
            counts@.len() == i,
            forall|l: int| 0 <= l < i ==> #[trigger] counts@[l] == 0,
        decreases lanes - i,
    {
        counts.push(0);
        i = i + 1;
    }
    proof {
        assert forall|l: int| 0 <= l < lanes implies escape_time(#[trigger] obs@[l]@)
            <= ITER_LIMIT by {
            assert(full_record(obs@[l]@));
            lemma_escape_time_facts(obs@[l]@);
        }
    }
    let mut k: u32 = 0;
    let mut running = true;
    while running && k < ITER_LIMIT
        invariant
            lanes == obs@.len(),
            full_records(obs@),
            k <= ITER_LIMIT,
            counts@.len() == lanes,
            forall|l: int| 0 <= l < lanes ==> escape_time(#[trigger] obs@[l]@) <= ITER_LIMIT,
            forall|l: int|
                0 <= l < lanes ==> #[trigger] counts@[l] == if escape_time(obs@[l]@) < k {
                    escape_time(obs@[l]@) as u64
                } else {
                    k as u64
                },
            !running ==> k < ITER_LIMIT && forall|l: int|
                0 <= l < lanes && escape_time(#[trigger] obs@[l]@) >= k ==> obs@[l]@[k as int],
        decreases ITER_LIMIT - k + if running { 1int } else { 0int },
    {
        let mut mask: Vec<bool> = Vec::new();
        let mut i: usize = 0;
        while i < lanes
            invariant
                lanes == obs@.len(),
                full_records(obs@),
                k < ITER_LIMIT,
                i <= lanes,
                mask@.len() == i,
                forall|l: int| 0 <= l < i ==> #[trigger] mask@[l] == !obs@[l]@[k as int],
            decreases lanes - i,
        {
            assert(full_record(obs@[i as int]@));
            mask.push(!obs[i][k as usize]);
            i = i + 1;
        }
        let ghost before = counts@;
        let go_on = masked_step(&mut counts, &mask, k);
        proof {
            assert forall|l: int| 0 <= l < lanes implies #[trigger] counts@[l] == if escape_time(
                obs@[l]@,
            ) < k + 1 {
                escape_time(obs@[l]@) as u64
            } else {
                (k + 1) as u64
            } by {
                let s = obs@[l]@;
                assert(full_record(s));
                lemma_escape_time_facts(s);
                assert(before[l] == if escape_time(s) < k {
                    escape_time(s) as u64
                } else {
                    k as u64
                });
            }
        }
        if go_on {
            k = k + 1;
        } else {
            proof {
                assert forall|l: int|
                    0 <= l < lanes && escape_time(#[trigger] obs@[l]@) >= k implies obs@[l]@[k as int] by {
                    assert(!counts_lane(before[l], mask@[l], k));
                }
                assert forall|l: int| 0 <= l < lanes implies #[trigger] counts@[l] == if escape_time(
                    obs@[l]@,
                ) < k {
                    escape_time(obs@[l]@) as u64
                } else {
                    k as u64
                } by {
                    assert(counts@[l] == before[l]);
                }
            }
            running = false;
        }
    }
    proof {
        assert forall|l: int| 0 <= l < lanes implies #[trigger] counts@[l] as nat == escape_time(
            obs@[l]@,
        ) by {
            let s = obs@[l]@;
            assert(full_record(s));
            lemma_escape_time_facts(s);
        }
    }
    narrow_counts(&counts)
}

} // verus!
