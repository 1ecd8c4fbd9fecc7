//! The escape-time model and the scalar kernel's state machine.

use vstd::prelude::*;

use crate::ITER_LIMIT;

verus! {

/// Index of the first observation that lies beyond the threshold, or the
/// number of observations when none does.
pub open spec fn escape_time(s: Seq<bool>) -> nat
    decreases s.len(),
{
    if s.len() == 0 || s[0] {
        0
    } else {
        1 + escape_time(s.drop_first())
    }
}

/// A full observation record of one point: one entry per iteration.
pub open spec fn full_record(s: Seq<bool>) -> bool {
    s.len() == ITER_LIMIT as nat
}

/// `k` is the first index beyond the threshold, or the length if none is.
pub proof fn lemma_escape_time_is(s: Seq<bool>, k: nat)
    requires
        k <= s.len(),
        forall|j: int| 0 <= j < k ==> !s[j],
        k < s.len() ==> s[k as int],
    ensures
        escape_time(s) == k,
    decreases k,
{
    if k > 0 {
        assert forall|j: int| 0 <= j < k - 1 implies !s.drop_first()[j] by {
            assert(!s[j + 1]);
        }
        lemma_escape_time_is(s.drop_first(), (k - 1) as nat);
    }
}

/// The escape time is bounded by the length, all earlier observations lie
/// within the threshold, and the one at the escape time lies beyond it.
pub proof fn lemma_escape_time_facts(s: Seq<bool>)
    ensures
        escape_time(s) <= s.len(),
        forall|j: int| 0 <= j < escape_time(s) ==> !s[j],
        escape_time(s) < s.len() ==> s[escape_time(s) as int],
    decreases s.len(),
{
    if s.len() > 0 && !s[0] {
        let t = s.drop_first();
        lemma_escape_time_facts(t);
        assert forall|j: int| 0 <= j < escape_time(s) implies !s[j] by {
            if j > 0 {
                assert(s[j] == t[j - 1]);
            }
        }
    }
}

/// State of one point's escape-time iteration. The only transition is from
/// `Active` to `Escaped`, and it is never undone.
#[derive(Clone, Copy, Debug, PartialEq, Eq, Structural)]
pub enum Escape {
    Active,
    Escaped(u32),
}

impl Escape {
    pub open spec fn next(self, iteration: u32, beyond: bool) -> Escape {
        match self {
            Escape::Active => if beyond {
                Escape::Escaped(iteration)
            } else {
                Escape::Active
            },
            Escape::Escaped(n) => Escape::Escaped(n),
        }
    }

    pub open spec fn count_spec(self) -> u32 {
        match self {
            Escape::Active => ITER_LIMIT,
            Escape::Escaped(n) => n,
        }
    }

    /// Takes the observation of iteration `iteration` into account.
    pub fn advance(self, iteration: u32, beyond: bool) -> (r: Escape)
        ensures
            r == self.next(iteration, beyond),
    {
        match self {
            Escape::Active => if beyond {
                Escape::Escaped(iteration)
            } else {
                Escape::Active
            },
            Escape::Escaped(n) => Escape::Escaped(n),
        }
    }

    /// The iteration count this state stands for: the escape iteration, or
    /// `ITER_LIMIT` for a point that has not escaped.
    pub fn count(&self) -> (r: u32)
        ensures
            r == self.count_spec(),
    {
        match self {
            Escape::Active => ITER_LIMIT,
            Escape::Escaped(n) => *n,
        }
    }
}

/// Scalar kernel: runs the state machine over one point's observations and
/// stops at the first escape.
pub fn scalar_count(beyond: &Vec<bool>) -> (r: u32)
    requires
        full_record(beyond@),
    ensures
        r as nat == escape_time(beyond@),
        r <= ITER_LIMIT,
{
    let mut state = Escape::Active;
    let mut iteration: u32 = 0;
    while iteration < ITER_LIMIT
        invariant
            full_record(beyond@),
            iteration <= ITER_LIMIT,
            state == Escape::Active,
            forall|j: int| 0 <= j < iteration ==> !beyond@[j],
        decreases ITER_LIMIT - iteration,
    {
        state = state.advance(iteration, beyond[iteration as usize]);
        if let Escape::Escaped(n) = state {
            proof {
                lemma_escape_time_is(beyond@, iteration as nat);
            }
            return n;
        }
        iteration = iteration + 1;
    }
    proof {
        lemma_escape_time_is(beyond@, ITER_LIMIT as nat);
    }
    state.count()
}

} // verus!
