use vstd::prelude::*;

use crate::order::{lemma_swap_keeps_multiset, sorted};

verus! {

/// Where selection sort stands between ticks: `boundary` is the length of the
/// settled prefix, `scan` the next element to compare, and `best` the index of
/// the smallest element seen so far in the unsorted suffix.
#[derive(Clone, Copy, Debug, PartialEq, Eq, Structural)]
pub struct SelectionStep {
    pub boundary: usize,
    pub scan: usize,
    pub best: usize,
}

impl SelectionStep {
    /// The marker of a run that has not begun.
    pub open spec fn initial() -> SelectionStep {
        SelectionStep { boundary: 0, scan: 0, best: 0 }
    }

    /// The candidate used by the next action: a scan that has just begun
    /// starts from the boundary.
    pub open spec fn candidate(self) -> int {
        if self.scan == self.boundary + 1 {
            self.boundary as int
        } else {
            self.best as int
        }
    }

    /// The marker's indices stay within a list of length `n`.
    pub open spec fn wf(self, n: nat) -> bool {
        &&& self.boundary <= self.scan
        &&& self.scan <= n + 1
        &&& (self.boundary < n ==> self.scan <= n && 0 <= self.candidate() < n)
    }

    /// A marker for a run that has not begun.
    pub fn new() -> (r: SelectionStep)
        ensures
            r == SelectionStep::initial(),
    {
        SelectionStep { boundary: 0, scan: 0, best: 0 }
    }
}

/// One elementary action of selection sort on an unfinished run: compare the
/// scanned element with the candidate, or, at the end of a scan, swap the
/// candidate into place and start the next scan.
pub open spec fn selection_action(v: Seq<i32>, m: SelectionStep) -> (Seq<i32>, SelectionStep) {
    let k = m.candidate();
    let s = m.scan as int;
    let b = m.boundary as int;
    if s < v.len() {
        let k2 = if v[s] < v[k] { s } else { k };
        (v, SelectionStep { boundary: m.boundary, scan: (s + 1) as usize, best: k2 as usize })
    } else {
        let w = if b != k { v.update(b, v[k]).update(k, v[b]) } else { v };
        (w, SelectionStep { boundary: (b + 1) as usize, scan: (b + 2) as usize, best: k as usize })
    }
}

/// The list, the marker and whether completion was signalled after a tick
/// with `budget` actions.
pub open spec fn selection_run(v: Seq<i32>, m: SelectionStep, budget: nat) -> (Seq<i32>, SelectionStep, bool)
    decreases budget,
{
    if budget == 0 {
        (v, m, false)
    } else if m.boundary >= v.len() {
        (v, SelectionStep::initial(), true)
    } else {
        let (w, n) = selection_action(v, m);
        selection_run(w, n, (budget - 1) as nat)
    }
}

/// Performs up to `budget` actions of selection sort; returns whether the
/// run completed, in which case the marker is back to its initial shape.
pub fn selection_tick(v: &mut Vec<i32>, step: &mut SelectionStep, budget: u32) -> (done: bool)
    requires
        old(step).wf(old(v)@.len()),
        old(v)@.len() < usize::MAX,
    ensures
        final(v)@ == selection_run(old(v)@, *old(step), budget as nat).0,
        *final(step) == selection_run(old(v)@, *old(step), budget as nat).1,
        done == selection_run(old(v)@, *old(step), budget as nat).2,
        final(step).wf(final(v)@.len()),
        done ==> *final(step) == SelectionStep::initial(),
        final(v)@.len() == old(v)@.len(),
        final(v)@.to_multiset() == old(v)@.to_multiset(),
{
    let ghost v0 = v@;
    let ghost m0 = *step;
    let mut k: u32 = 0;
    let mut done = false;
    while k < budget && !done
        invariant
            k <= budget,
            v@.len() == v0.len(),
            v@.to_multiset() == v0.to_multiset(),
            v0.len() < usize::MAX,
            step.wf(v@.len()),
            done ==> *step == SelectionStep::initial(),
            done ==> selection_run(v0, m0, budget as nat) == (v@, *step, true),
            !done ==> selection_run(v0, m0, budget as nat) == selection_run(v@, *step, (budget - k) as nat),
        decreases budget - k,
    {
        if step.boundary >= v.len() {
            *step = SelectionStep::new();
            done = true;
        } else {
            if step.scan == step.boundary + 1 {
                step.best = step.boundary;
            }
            let s = step.scan;
            if s < v.len() {
                if v[s] < v[step.best] {
                    step.best = s;
                }
                step.scan = s + 1;
            } else {
                let b = step.boundary;
                let c = step.best;
                if b != c {
                    proof {
                        lemma_swap_keeps_multiset(v@, b as int, c as int);
                    }
                    let t = v[b];
                    v.set(b, v[c]);
                    v.set(c, t);
                }
                step.boundary = b + 1;
                step.scan = b + 2;
            }
        }
        k += 1;
    }
    done
}

/// `k` ticks of one action each, stopping at the first that signals completion.
pub open spec fn selection_single_ticks(v: Seq<i32>, m: SelectionStep, k: nat) -> (Seq<i32>, SelectionStep, bool)
    decreases k,
{
    if k == 0 {
        (v, m, false)
    } else {
        let r = selection_run(v, m, 1);
        if r.2 {
            r
        } else {
            selection_single_ticks(r.0, r.1, (k - 1) as nat)
        }
    }
}

/// Ticks of one action each, applied until completion, end where a single
/// tick with the whole budget ends: same list, same marker, same signal.
pub proof fn lemma_selection_stepwise(v: Seq<i32>, m: SelectionStep, k: nat)
    ensures
        selection_single_ticks(v, m, k) == selection_run(v, m, k),
    decreases k,
{
    if k > 0 {
        let r = selection_run(v, m, 1);
        if m.boundary < v.len() {
            let a = selection_action(v, m);
            assert(selection_run(a.0, a.1, 0) == (a.0, a.1, false));
            assert(r == (a.0, a.1, false));
            assert(selection_run(v, m, k) == selection_run(a.0, a.1, (k - 1) as nat));
        }
        if !r.2 {
            lemma_selection_stepwise(r.0, r.1, (k - 1) as nat);
        }
    }
}

/// The prefix before the boundary is ordered and no larger than the rest; the
/// candidate is the smallest of the scanned part of the suffix.
pub open spec fn selection_inv(v: Seq<i32>, m: SelectionStep) -> bool {
    let n = v.len() as int;
    let b = m.boundary as int;
    let s = m.scan as int;
    let k = m.candidate();
    &&& n < usize::MAX
    &&& b <= n
    &&& s <= n + 1
    &&& forall|i: int, j: int| 0 <= i <= j < b ==> v[i] <= v[j]
    &&& forall|i: int, j: int| 0 <= i < b <= j < n ==> v[i] <= v[j]
    &&& b < n ==> {
        &&& b <= s <= n
        &&& b <= k < n
        &&& s == b ==> k == b
        &&& forall|j: int| b <= j < s ==> v[k] <= v[j]
    }
}

/// An upper bound on the actions still needed to complete a run.
pub open spec fn selection_potential(n: nat, m: SelectionStep) -> int {
    (n - m.boundary) * (n + 2) + (n + 1 - m.scan)
}

/// A budget that lets one tick sort a list of length `n` from the initial marker.
pub open spec fn selection_budget(n: nat) -> nat {
    n * (n + 2) + n + 2
}

proof fn lemma_selection_action(v: Seq<i32>, m: SelectionStep)
    requires
        selection_inv(v, m),
        m.boundary < v.len(),
    ensures
        selection_inv(selection_action(v, m).0, selection_action(v, m).1),
        selection_action(v, m).0.to_multiset() == v.to_multiset(),
        selection_action(v, m).0.len() == v.len(),
        0 <= selection_potential(v.len(), selection_action(v, m).1) < selection_potential(v.len(), m),
{
    let n = v.len() as int;
    let b = m.boundary as int;
    let s = m.scan as int;
    let k = m.candidate();
    let (w, m2) = selection_action(v, m);
    if s < n {
        assert(m2.candidate() == if v[s] < v[k] { s } else { k });
    } else {
        if b != k {
            lemma_swap_keeps_multiset(v, b, k);
        }
        assert(forall|j: int| b <= j < n ==> v[k] <= v[j]);
        assert forall|i: int, j: int| 0 <= i <= j < b + 1 implies w[i] <= w[j] by {
            if j == b && i < b {
                assert(v[i] <= v[k]);
            }
        }
        assert forall|i: int, j: int| 0 <= i < b + 1 <= j < n implies w[i] <= w[j] by {
            if i < b {
                assert(v[i] <= v[j] && v[i] <= v[b]);
            } else {
                assert(v[k] <= v[j] && v[k] <= v[b]);
            }
        }
        assert((n - b) * (n + 2) == (n - (b + 1)) * (n + 2) + (n + 2)) by (nonlinear_arith);
    }
    assert(0 <= (n - m2.boundary) * (n + 2)) by (nonlinear_arith)
        requires
            m2.boundary <= n;
}

proof fn lemma_selection_completes(v: Seq<i32>, m: SelectionStep, budget: nat)
    requires
        selection_inv(v, m),
        budget > selection_potential(v.len(), m),
    ensures
        selection_run(v, m, budget).2,
        selection_run(v, m, budget).1 == SelectionStep::initial(),
        sorted(selection_run(v, m, budget).0),
        selection_run(v, m, budget).0.to_multiset() == v.to_multiset(),
    decreases budget,
{
    if m.boundary < v.len() {
        lemma_selection_action(v, m);
        let (w, m2) = selection_action(v, m);
        lemma_selection_completes(w, m2, (budget - 1) as nat);
    }
}

/// From the initial marker, one tick with a budget of at least
/// `selection_budget(n)` completes: the list comes out in non-decreasing order
/// and holds the same values, and the marker is back to its initial shape.
pub proof fn lemma_selection_sorts(v: Seq<i32>, budget: nat)
    requires
        v.len() < usize::MAX,
        budget >= selection_budget(v.len()),
    ensures
        selection_run(v, SelectionStep::initial(), budget).2,
        selection_run(v, SelectionStep::initial(), budget).1 == SelectionStep::initial(),
        sorted(selection_run(v, SelectionStep::initial(), budget).0),
        selection_run(v, SelectionStep::initial(), budget).0.to_multiset() == v.to_multiset(),
{
    lemma_selection_completes(v, SelectionStep::initial(), budget);
}

} // verus!
