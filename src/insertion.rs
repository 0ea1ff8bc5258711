use vstd::prelude::*;

use crate::order::{lemma_swap_keeps_multiset, sorted};

verus! {

/// Where insertion sort stands between ticks: the elements before `boundary`
/// are settled, and `cursor` is the element being walked to the left.
#[derive(Clone, Copy, Debug, PartialEq, Eq, Structural)]
pub struct InsertionStep {
    pub boundary: usize,
    pub cursor: usize,
}

impl InsertionStep {
    /// The marker of a run that has not begun.
    pub open spec fn initial() -> InsertionStep {
        InsertionStep { boundary: 0, cursor: 0 }
    }

    /// The cursor never stands right of the boundary.
    pub open spec fn wf(self) -> bool {
        self.cursor <= self.boundary
    }

    /// A marker for a run that has not begun.
    pub fn new() -> (r: InsertionStep)
        ensures
            r == InsertionStep::initial(),
    {
        InsertionStep { boundary: 0, cursor: 0 }
    }
}

/// One elementary action of insertion sort on an unfinished run: swap the
/// cursor's element with its larger left neighbour, or move on to the next element.
pub open spec fn insertion_action(v: Seq<i32>, m: InsertionStep) -> (Seq<i32>, InsertionStep) {
    let c = m.cursor as int;
    if c > 0 && c < v.len() && v[c - 1] > v[c] {
        (v.update(c - 1, v[c]).update(c, v[c - 1]), InsertionStep { boundary: m.boundary, cursor: (c - 1) as usize })
    } else {
        let b = (m.boundary + 1) as usize;
        (v, InsertionStep { boundary: b, cursor: b })
    }
}

/// The list, the marker and whether completion was signalled after a tick
/// with `budget` actions.
pub open spec fn insertion_run(v: Seq<i32>, m: InsertionStep, budget: nat) -> (Seq<i32>, InsertionStep, bool)
    decreases budget,
{
    if budget == 0 {
        (v, m, false)
    } else if m.boundary >= v.len() {
        (v, InsertionStep::initial(), true)
    } else {
        let (w, n) = insertion_action(v, m);
        insertion_run(w, n, (budget - 1) as nat)
    }
}

/// Performs up to `budget` actions of insertion sort; returns whether the
/// run completed, in which case the marker is back to its initial shape.
pub fn insertion_tick(v: &mut Vec<i32>, step: &mut InsertionStep, budget: u32) -> (done: bool)
    requires
        old(step).wf(),
    ensures
        final(v)@ == insertion_run(old(v)@, *old(step), budget as nat).0,
        *final(step) == insertion_run(old(v)@, *old(step), budget as nat).1,
        done == insertion_run(old(v)@, *old(step), budget as nat).2,
        final(step).wf(),
        done ==> *final(step) == InsertionStep::initial(),
        final(v)@.len() == old(v)@.len(),
        final(v)@.to_multiset() == old(v)@.to_multiset(),
{
    let ghost v0 = v@;
    let ghost m0 = *step;
    let mut k: u32 = 0;
    let mut done = false;
    while k < budget && !done
        invariant
            k <= budget,
            step.wf(),
            v@.len() == v0.len(),
            v@.to_multiset() == v0.to_multiset(),
            done ==> *step == InsertionStep::initial(),
            done ==> insertion_run(v0, m0, budget as nat) == (v@, *step, true),
            !done ==> insertion_run(v0, m0, budget as nat) == insertion_run(v@, *step, (budget - k) as nat),
        decreases budget - k,
    {
        if step.boundary >= v.len() {
            *step = InsertionStep::new();
            done = true;
        } else {
            let c = step.cursor;
            if c > 0 && v[c - 1] > v[c] {
                proof {
                    lemma_swap_keeps_multiset(v@, c - 1, c as int);
                }
                let t = v[c - 1];
                v.set(c - 1, v[c]);
                v.set(c, t);
                step.cursor = c - 1;
            } else {
                step.boundary = step.boundary + 1;
                step.cursor = step.boundary;
            }
        }
        k += 1;
    }
    done
}

/// Up to the boundary the list is ordered but for the element at the cursor,
/// which is no larger than anything between it and the boundary.
pub open spec fn insertion_inv(v: Seq<i32>, m: InsertionStep) -> bool {
    let b = m.boundary as int;
    let c = m.cursor as int;
    &&& c <= b <= v.len() <= usize::MAX
    &&& b == v.len() ==> c == b
    &&& forall|i: int, j: int| 0 <= i <= j <= b && j < v.len() && i != c && j != c ==> v[i] <= v[j]
    &&& forall|j: int| c < j <= b && j < v.len() ==> v[c] <= v[j]
}

/// An upper bound on the actions still needed to complete a run.
pub open spec fn insertion_potential(n: nat, m: InsertionStep) -> nat {
    (m.cursor + (n - m.boundary) * (n + 1)) as nat
}

/// A budget that lets one tick sort a list of length `n` from the initial marker.
pub open spec fn insertion_budget(n: nat) -> nat {
    n * (n + 1) + 1
}

proof fn lemma_insertion_action(v: Seq<i32>, m: InsertionStep)
    requires
        insertion_inv(v, m),
        m.boundary < v.len(),
    ensures
        insertion_inv(insertion_action(v, m).0, insertion_action(v, m).1),
        insertion_action(v, m).0.to_multiset() == v.to_multiset(),
        insertion_action(v, m).0.len() == v.len(),
        insertion_potential(v.len(), insertion_action(v, m).1) < insertion_potential(v.len(), m),
{
    let n = v.len();
    let b = m.boundary as int;
    let c = m.cursor as int;
    let (w, m2) = insertion_action(v, m);
    if c > 0 && c < v.len() && v[c - 1] > v[c] {
        lemma_swap_keeps_multiset(v, c - 1, c);
        assert(w == v.update(c - 1, v[c]).update(c, v[c - 1]));
        assert forall|i: int, j: int| 0 <= i <= j <= b && j < n && i != c - 1 && j != c - 1 implies w[i] <= w[j] by {
            if i == c {
                assert(v[i - 1] <= v[j] || j == c);
            } else if j == c {
            }
        }
    } else {
        assert forall|i: int, j: int| 0 <= i <= j <= b + 1 && j < n && i != b + 1 && j != b + 1 implies w[i] <= w[j] by {
            if i == c && j != c {
            } else if j == c && i != c {
                assert(v[i] <= v[c - 1]);
            }
        }
        assert((n - b) * (n + 1) == (n - (b + 1)) * (n + 1) + (n + 1)) by (nonlinear_arith);
    }
}

proof fn lemma_insertion_completes(v: Seq<i32>, m: InsertionStep, budget: nat)
    requires
        insertion_inv(v, m),
        budget > insertion_potential(v.len(), m),
    ensures
        insertion_run(v, m, budget).2,
        insertion_run(v, m, budget).1 == InsertionStep::initial(),
        sorted(insertion_run(v, m, budget).0),
        insertion_run(v, m, budget).0.to_multiset() == v.to_multiset(),
    decreases budget,
{
    if m.boundary >= v.len() {
        assert(m.boundary == v.len() && m.cursor == m.boundary);
    } else {
        lemma_insertion_action(v, m);
        let (w, m2) = insertion_action(v, m);
        lemma_insertion_completes(w, m2, (budget - 1) as nat);
    }
}

/// From the initial marker, one tick with a budget of at least
/// `insertion_budget(n)` completes: the list comes out in non-decreasing order
/// and holds the same values, and the marker is back to its initial shape.
pub proof fn lemma_insertion_sorts(v: Seq<i32>, budget: nat)
    requires
        v.len() <= usize::MAX,
        budget >= insertion_budget(v.len()),
    ensures
        insertion_run(v, InsertionStep::initial(), budget).2,
        insertion_run(v, InsertionStep::initial(), budget).1 == InsertionStep::initial(),
        sorted(insertion_run(v, InsertionStep::initial(), budget).0),
        insertion_run(v, InsertionStep::initial(), budget).0.to_multiset() == v.to_multiset(),
{
    lemma_insertion_completes(v, InsertionStep::initial(), budget);
}

/// `k` ticks of one action each, stopping at the first that signals completion.
pub open spec fn insertion_single_ticks(v: Seq<i32>, m: InsertionStep, k: nat) -> (Seq<i32>, InsertionStep, bool)
    decreases k,
{
    if k == 0 {
        (v, m, false)
    } else {
        let r = insertion_run(v, m, 1);
        if r.2 {
            r
        } else {
            insertion_single_ticks(r.0, r.1, (k - 1) as nat)
        }
    }
}

/// Ticks of one action each, applied until completion, end where a single
/// tick with the whole budget ends: same list, same marker, same signal.
pub proof fn lemma_insertion_stepwise(v: Seq<i32>, m: InsertionStep, k: nat)
    ensures
        insertion_single_ticks(v, m, k) == insertion_run(v, m, k),
    decreases k,
{
    if k > 0 {
        let r = insertion_run(v, m, 1);
        if m.boundary < v.len() {
            let a = insertion_action(v, m);
            assert(insertion_run(a.0, a.1, 0) == (a.0, a.1, false));
            assert(r == (a.0, a.1, false));
            assert(insertion_run(v, m, k) == insertion_run(a.0, a.1, (k - 1) as nat));
        }
        if !r.2 {
            lemma_insertion_stepwise(r.0, r.1, (k - 1) as nat);
        }
    }
}

} // verus!
