use vstd::prelude::*;

verus! {

/// Where bottom-up merge sort stands between ticks: the size of the runs of
/// the current pass, which pair of runs is being merged, the read positions in
/// the two runs, and copies of the two runs taken before the merge began.
pub struct MergeStep {
    pub run_size: usize,
    pub run_index: usize,
    pub left_pos: usize,
    pub right_pos: usize,
    pub left: Vec<i32>,
    pub right: Vec<i32>,
}

/// The mathematical value of a merge marker.
pub struct MergeState {
    pub run_size: nat,
    pub run_index: nat,
    pub left_pos: nat,
    pub right_pos: nat,
    pub left: Seq<i32>,
    pub right: Seq<i32>,
}

impl View for MergeStep {
    type V = MergeState;

    open spec fn view(&self) -> MergeState {
        MergeState {
            run_size: self.run_size as nat,
            run_index: self.run_index as nat,
            left_pos: self.left_pos as nat,
            right_pos: self.right_pos as nat,
            left: self.left@,
            right: self.right@,
        }
    }
}

/// `x`, but no further than `n`.
pub open spec fn clip(x: int, n: int) -> int {
    if x < n {
        x
    } else {
        n
    }
}

impl MergeState {
    /// The marker of a run that has not begun.
    pub open spec fn initial() -> MergeState {
        MergeState { run_size: 1, run_index: 0, left_pos: 0, right_pos: 0, left: seq![], right: seq![] }
    }

    /// The index of the first element of the pair of runs being merged.
    pub open spec fn start(self) -> int {
        (2 * self.run_size * self.run_index) as int
    }

    /// The index that the next merged element is written to.
    pub open spec fn write_pos(self) -> int {
        self.start() + self.left_pos + self.right_pos
    }

    /// A marker in the shape that a run begins with; the first action takes
    /// the copies of the first two runs.
    pub open spec fn fresh(self) -> bool {
        self.run_size == 1 && self.run_index == 0 && self.left_pos == 0 && self.right_pos == 0
    }

    /// Both copies are used up: the current pair of runs is merged.
    pub open spec fn pair_done(self) -> bool {
        self.left_pos >= self.left.len() && self.right_pos >= self.right.len()
    }

    /// Unless the run is over or has not begun, the marker is consistent.
    pub open spec fn wf(self, n: nat) -> bool {
        &&& self.run_size >= 1
        &&& (self.run_size < n && !self.fresh()) ==> self.consistent(n)
    }

    /// The copies are those of the current pair of runs, clipped to a list of
    /// length `n`, and the read positions stay within them.
    pub open spec fn consistent(self, n: nat) -> bool {
        &&& self.run_size >= 1
        &&& {
            &&& self.start() <= n
            &&& self.left.len() == clip(self.start() + self.run_size, n as int) - self.start()
            &&& self.right.len() == clip(self.start() + 2 * self.run_size, n as int) - clip(self.start() + self.run_size, n as int)
            &&& self.left_pos <= self.left.len()
            &&& self.right_pos <= self.right.len()
        }
    }
}

/// The marker at the beginning of pair `m` of the pass with runs of size `r`,
/// holding copies of the two runs of that pair.
pub open spec fn load_pair(v: Seq<i32>, r: nat, m: nat) -> MergeState {
    let st = (2 * r * m) as int;
    let n = v.len() as int;
    MergeState {
        run_size: r,
        run_index: m,
        left_pos: 0,
        right_pos: 0,
        left: v.subrange(clip(st, n), clip(st + r, n)),
        right: v.subrange(clip(st + r, n), clip(st + 2 * r, n)),
    }
}

/// Writes the smaller of the two next elements of the copies; a used-up copy
/// counts as larger than anything.
pub open spec fn merge_write(v: Seq<i32>, m: MergeState) -> (Seq<i32>, MergeState) {
    let pos = m.write_pos();
    if m.left_pos < m.left.len() && (m.right_pos >= m.right.len() || m.left[m.left_pos as int]
        < m.right[m.right_pos as int]) {
        (v.update(pos, m.left[m.left_pos as int]), MergeState { left_pos: m.left_pos + 1, ..m })
    } else {
        (v.update(pos, m.right[m.right_pos as int]), MergeState { right_pos: m.right_pos + 1, ..m })
    }
}

/// One elementary action of merge sort on an unfinished run. Reaching the end
/// of the list doubles the run size; finishing a pair of runs moves on to the
/// next pair at no cost, so the action then writes in the next pair.
pub open spec fn merge_action(v: Seq<i32>, m: MergeState) -> (Seq<i32>, MergeState) {
    let m0 = if m.fresh() {
        load_pair(v, 1, 0)
    } else {
        m
    };
    if m0.write_pos() >= v.len() {
        let r2 = 2 * m0.run_size;
        if r2 >= v.len() {
            (v, MergeState { run_size: r2, ..m0 })
        } else {
            (v, load_pair(v, r2, 0))
        }
    } else if !m0.pair_done() {
        merge_write(v, m0)
    } else {
        merge_write(v, load_pair(v, m0.run_size, m0.run_index + 1))
    }
}

/// The list, the marker and whether completion was signalled after a tick
/// with `budget` actions.
pub open spec fn merge_run(v: Seq<i32>, m: MergeState, budget: nat) -> (Seq<i32>, MergeState, bool)
    decreases budget,
{
    if budget == 0 {
        (v, m, false)
    } else if m.run_size >= v.len() {
        (v, MergeState::initial(), true)
    } else {
        let (w, n) = merge_action(v, m);
        merge_run(w, n, (budget - 1) as nat)
    }
}

impl MergeStep {
    /// A marker for a run that has not begun.
    pub fn new() -> (r: MergeStep)
        ensures
            r@ == MergeState::initial(),
    {
        MergeStep { run_size: 1, run_index: 0, left_pos: 0, right_pos: 0, left: Vec::new(), right: Vec::new() }
    }
}

fn copy_range(v: &Vec<i32>, lo: usize, hi: usize) -> (r: Vec<i32>)
    requires
        lo <= hi <= v.len(),
    ensures
        r@ == v@.subrange(lo as int, hi as int),
{
    let mut r: Vec<i32> = Vec::new();
    let mut i: usize = lo;
    while i < hi
        invariant
            lo <= i <= hi <= v.len(),
            r@ == v@.subrange(lo as int, i as int),
        decreases hi - i,
    {
        r.push(v[i]);
        i += 1;
    }
    r
}

/// Positions the marker at pair `m` of the pass with runs of size `r`.
fn load_pair_into(v: &Vec<i32>, step: &mut MergeStep, r: usize, m: usize)
    requires
        r >= 1,
        2 * r * m < v.len(),
        v.len() <= usize::MAX / 2,
    ensures
        final(step)@ == load_pair(v@, r as nat, m as nat),
        final(step)@.consistent(v@.len()),
{
    let n = v.len();
    assert(r * m <= 2 * r * m && r * m * 2 == 2 * r * m) by (nonlinear_arith)
        requires r >= 1;
    let st = r * m * 2;
    let mid = if n - st > r { st + r } else { n };
    let end = if n - mid > r { mid + r } else { n };
    step.run_size = r;
    step.run_index = m;
    step.left_pos = 0;
    step.right_pos = 0;
    step.left = copy_range(v, st, mid);
    step.right = copy_range(v, mid, end);
}

/// Writes the smaller of the two next elements of the copies.
fn write_next(v: &mut Vec<i32>, step: &mut MergeStep)
    requires
        old(step)@.write_pos() < old(v)@.len(),
        !old(step)@.pair_done(),
        old(step)@.consistent(old(v)@.len()),
    ensures
        final(v)@ == merge_write(old(v)@, old(step)@).0,
        final(step)@ == merge_write(old(v)@, old(step)@).1,
{
    let r = step.run_size;
    let k = step.run_index;
    assert(r * k <= 2 * r * k && r * k * 2 == 2 * r * k) by (nonlinear_arith)
        requires r >= 1;
    assert(2 * r * k <= v.len());
    let pos = r * k * 2 + step.left_pos + step.right_pos;
    let i1 = step.left_pos;
    let i2 = step.right_pos;
    if i1 < step.left.len() && (i2 >= step.right.len() || step.left[i1] < step.right[i2]) {
        v.set(pos, step.left[i1]);
        step.left_pos = i1 + 1;
    } else {
        v.set(pos, step.right[i2]);
        step.right_pos = i2 + 1;
    }
}

/// Performs up to `budget` actions of bottom-up merge sort; returns whether
/// the run completed, in which case the marker is back to its initial shape.
pub fn merge_tick(v: &mut Vec<i32>, step: &mut MergeStep, budget: u32) -> (done: bool)
    requires
        old(step)@.wf(old(v)@.len()),
        old(v)@.len() <= usize::MAX / 2,
    ensures
        final(v)@ == merge_run(old(v)@, old(step)@, budget as nat).0,
        final(step)@ == merge_run(old(v)@, old(step)@, budget as nat).1,
        done == merge_run(old(v)@, old(step)@, budget as nat).2,
        final(step)@.wf(final(v)@.len()),
        done ==> final(step)@ == MergeState::initial(),
        final(v)@.len() == old(v)@.len(),
{
    let ghost v0 = v@;
    let ghost m0 = step@;
    let n = v.len();
    let mut k: u32 = 0;
    let mut done = false;
    while k < budget && !done
        invariant
            k <= budget,
            n == v@.len() == v0.len(),
            n <= usize::MAX / 2,
            step@.wf(n as nat),
            done ==> step@ == MergeState::initial(),
            done ==> merge_run(v0, m0, budget as nat) == (v@, step@, true),
            !done ==> merge_run(v0, m0, budget as nat) == merge_run(v@, step@, (budget - k) as nat),
        decreases budget - k,
    {
        if step.run_size >= n {
            *step = MergeStep::new();
            done = true;
        } else {
            if step.run_size == 1 && step.run_index == 0 && step.left_pos == 0 && step.right_pos == 0 {
                load_pair_into(v, step, 1, 0);
            }
            let r = step.run_size;
            let m = step.run_index;
            assert(r * m <= 2 * r * m && r * m * 2 == 2 * r * m) by (nonlinear_arith)
                requires r >= 1;
            assert(step@.consistent(n as nat));
            assert(2 * r * m <= n);
            let pos = r * m * 2 + step.left_pos + step.right_pos;
            if pos >= n {
                let r2 = r * 2;
                if r2 < n {
                    assert(2 * r2 * 0 == 0) by (nonlinear_arith);
                    load_pair_into(v, step, r2, 0);
                } else {
                    step.run_size = r2;
                }
            } else {
                if step.left_pos >= step.left.len() && step.right_pos >= step.right.len() {
                    assert(2 * r * (m + 1) == 2 * r * m + 2 * r) by (nonlinear_arith);
                    assert(2 * r * m + 2 * r < n);
                    assert(m + 1 <= 2 * r * (m + 1)) by (nonlinear_arith)
                        requires r >= 1;
                    load_pair_into(v, step, r, m + 1);
                }
                write_next(v, step);
            }
        }
        k += 1;
    }
    done
}

} // verus!
