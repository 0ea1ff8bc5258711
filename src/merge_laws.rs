use vstd::prelude::*;

use crate::merge::{clip, load_pair, merge_action, merge_run, merge_write, MergeState};
use crate::order::sorted;

verus! {

broadcast use vstd::seq_lib::lemma_multiset_commutative;

/// The elements at `lo..hi` are in non-decreasing order.
pub open spec fn sorted_range(v: Seq<i32>, lo: int, hi: int) -> bool {
    forall|i: int, j: int| lo <= i <= j < hi ==> v[i] <= v[j]
}

/// Each of the first `k` blocks of width `w` is ordered.
pub open spec fn blocks_upto(v: Seq<i32>, w: nat, k: nat) -> bool
    decreases k,
{
    if k == 0 {
        true
    } else {
        blocks_upto(v, w, (k - 1) as nat) && sorted_range(v, (k - 1) * w, clip((k * w) as int, v.len() as int))
    }
}

/// Each block of width `w` from `lo` on is ordered.
pub open spec fn blocks_from(v: Seq<i32>, lo: int, w: nat) -> bool
    decreases v.len() - lo,
{
    if lo >= v.len() || w == 0 {
        true
    } else {
        sorted_range(v, lo, clip(lo + w, v.len() as int)) && (lo + w >= v.len() || blocks_from(v, lo + w, w))
    }
}

/// The marker that the next action works from: the first action of a run
/// takes the copies of the first two runs.
pub open spec fn merge_normal(v: Seq<i32>, m: MergeState) -> MergeState {
    if m.fresh() {
        load_pair(v, 1, 0)
    } else {
        m
    }
}

/// What is left to merge, in order: the merged prefix, the unread parts of
/// the two copies, and the list after the current pair.
pub open spec fn merge_pending(v: Seq<i32>, m: MergeState) -> Seq<i32> {
    let end = m.start() + m.left.len() + m.right.len();
    v.subrange(0, m.write_pos()) + m.left.skip(m.left_pos as int) + m.right.skip(m.right_pos as int)
        + v.subrange(end, v.len() as int)
}

/// During a pass: the merged pairs before the current one are ordered blocks,
/// the runs after it are ordered, the copies are ordered, the merged part of
/// the current pair is ordered and no larger than what is left to read, and
/// nothing was lost or added with respect to `v0`.
pub open spec fn merge_core(v: Seq<i32>, m: MergeState, v0: Seq<i32>) -> bool {
    let n = v.len() as int;
    let st = m.start();
    let pos = m.write_pos();
    let end = st + m.left.len() + m.right.len();
    &&& v.len() == v0.len()
    &&& m.consistent(v.len())
    &&& 1 <= m.run_size < n
    &&& blocks_upto(v, 2 * m.run_size, m.run_index)
    &&& blocks_from(v, end, m.run_size)
    &&& sorted_range(m.left, 0, m.left.len() as int)
    &&& sorted_range(m.right, 0, m.right.len() as int)
    &&& sorted_range(v, st, pos)
    &&& forall|i: int|
        st <= i < pos ==> (m.left_pos < m.left.len() ==> v[i] <= m.left[m.left_pos as int]) && (m.right_pos
            < m.right.len() ==> v[i] <= m.right[m.right_pos as int])
    &&& merge_pending(v, m).to_multiset() == v0.to_multiset()
}

/// The invariant of a merge run that began on `v0`.
pub open spec fn merge_inv(v: Seq<i32>, m: MergeState, v0: Seq<i32>) -> bool {
    if m.run_size >= v.len() {
        &&& m.run_size >= 1
        &&& v.len() == v0.len()
        &&& sorted(v)
        &&& v.to_multiset() == v0.to_multiset()
    } else {
        merge_core(v, merge_normal(v, m), v0)
    }
}

/// The number of passes left when runs have size `r` in a list of length `n`.
pub open spec fn merge_passes(r: nat, n: nat) -> nat
    decreases n - r,
{
    if r == 0 || r >= n {
        0
    } else if 2 * r >= n {
        1
    } else {
        1 + merge_passes(2 * r, n)
    }
}

/// An upper bound on the actions still needed to complete a run.
pub open spec fn merge_potential(v: Seq<i32>, m: MergeState) -> int {
    let n = v.len();
    if m.run_size >= n {
        0
    } else {
        merge_passes(m.run_size, n) * (n + 1) + (n - merge_normal(v, m).write_pos())
    }
}

/// A budget that lets one tick sort a list of length `n` from the initial marker.
pub open spec fn merge_budget(n: nat) -> nat {
    merge_passes(1, n) * (n + 1) + n + 1
}

proof fn lemma_blocks_from_unit(v: Seq<i32>, lo: int)
    ensures
        blocks_from(v, lo, 1),
    decreases v.len() - lo,
{
    if lo + 1 < v.len() {
        lemma_blocks_from_unit(v, lo + 1);
    }
}

proof fn lemma_blocks_upto_prefix(v: Seq<i32>, w: nat, k: nat, j: nat)
    requires
        blocks_upto(v, w, k),
        j <= k,
    ensures
        blocks_upto(v, w, j),
    decreases k,
{
    if j < k {
        lemma_blocks_upto_prefix(v, w, (k - 1) as nat, j);
    }
}

proof fn lemma_blocks_upto_from(v: Seq<i32>, w: nat, k: nat, j: nat)
    requires
        blocks_upto(v, w, k),
        w >= 1,
        k * w >= v.len(),
        j <= k,
    ensures
        blocks_from(v, (j * w) as int, w),
    decreases k - j,
{
    if j * w < v.len() {
        if j >= k {
            assert(j * w >= k * w) by (nonlinear_arith)
                requires
                    j >= k,
            ;
        }
        assert((j + 1) * w == j * w + w) by (nonlinear_arith);
        lemma_blocks_upto_from(v, w, k, j + 1);
        lemma_blocks_upto_prefix(v, w, k, j + 1);
    }
}

proof fn lemma_blocks_upto_frame(v: Seq<i32>, v2: Seq<i32>, w: nat, k: nat)
    requires
        blocks_upto(v, w, k),
        v.len() == v2.len(),
        forall|i: int| 0 <= i < k * w && i < v.len() ==> v[i] == v2[i],
    ensures
        blocks_upto(v2, w, k),
    decreases k,
{
    if k > 0 {
        assert((k - 1) * w <= k * w) by (nonlinear_arith);
        lemma_blocks_upto_frame(v, v2, w, (k - 1) as nat);
    }
}

proof fn lemma_blocks_from_frame(v: Seq<i32>, v2: Seq<i32>, lo: int, w: nat)
    requires
        blocks_from(v, lo, w),
        v.len() == v2.len(),
        forall|i: int| lo <= i < v.len() ==> v[i] == v2[i],
    ensures
        blocks_from(v2, lo, w),
    decreases v.len() - lo,
{
    if lo + w < v.len() && w > 0 {
        lemma_blocks_from_frame(v, v2, lo + w, w);
    }
}

/// A consistent marker of a loaded pair satisfies the invariant.
proof fn lemma_load_pair(v: Seq<i32>, r: nat, k: nat, v0: Seq<i32>)
    requires
        1 <= r < v.len(),
        v.len() == v0.len(),
        v.to_multiset() == v0.to_multiset(),
        2 * r * k < v.len(),
        blocks_upto(v, 2 * r, k),
        blocks_from(v, (2 * r * k) as int, r),
    ensures
        merge_core(v, load_pair(v, r, k), v0),
{
    let n = v.len() as int;
    let m = load_pair(v, r, k);
    let st = (2 * r * k) as int;
    assert(m.start() == st);
    let mid = clip(st + r, n);
    let end = clip(st + 2 * r, n);
    assert(blocks_from(v, st + r, r));
    assert(sorted_range(v, st, mid));
    if st + r < n {
        assert(sorted_range(v, st + r, end));
        assert(blocks_from(v, st + 2 * r, r));
        if end == n {
            assert(blocks_from(v, end, r));
        }
    }
    assert(m.left.skip(0) == m.left);
    assert(m.right.skip(0) == m.right);
    assert(merge_pending(v, m) =~= v);
}

/// Writing one element keeps the invariant and moves the write position on.
#[verifier::spinoff_prover]
proof fn lemma_merge_write(v: Seq<i32>, m: MergeState, v0: Seq<i32>)
    requires
        merge_core(v, m, v0),
        m.write_pos() < v.len(),
        !m.pair_done(),
    ensures
        merge_core(merge_write(v, m).0, merge_write(v, m).1, v0),
        merge_write(v, m).1.write_pos() == m.write_pos() + 1,
        merge_write(v, m).1.run_size == m.run_size,
{
    let n = v.len() as int;
    let st = m.start();
    let pos = m.write_pos();
    let end = st + m.left.len() + m.right.len();
    let (w, m2) = merge_write(v, m);
    let i1 = m.left_pos as int;
    let i2 = m.right_pos as int;
    assert(m2.start() == st);
    assert(forall|i: int| 0 <= i < n && i != pos ==> w[i] == v[i]);
    assert(2 * m.run_size * m.run_index == m.run_index * (2 * m.run_size)) by (nonlinear_arith);
    lemma_blocks_upto_frame(v, w, 2 * m.run_size, m.run_index);
    lemma_blocks_from_frame(v, w, end, m.run_size);
    let a = v.subrange(0, pos);
    let b = v.subrange(end, n);
    assert(w.subrange(end, n) =~= b);
    if i1 < m.left.len() && (i2 >= m.right.len() || m.left[i1] < m.right[i2]) {
        let x = m.left[i1];
        assert(w.subrange(0, pos + 1) =~= a.push(x));
        assert(m.left.skip(i1) =~= seq![x] + m.left.skip(i1 + 1));
        assert(merge_pending(w, m2) =~= merge_pending(v, m));
    } else {
        let x = m.right[i2];
        assert(w.subrange(0, pos + 1) =~= a.push(x));
        assert(m.right.skip(i2) =~= seq![x] + m.right.skip(i2 + 1));
        let l = m.left.skip(i1);
        let r2 = m.right.skip(i2 + 1);
        assert(merge_pending(v, m) =~= a + (l + (seq![x] + r2)) + b);
        assert(merge_pending(w, m2) =~= a + (seq![x] + (l + r2)) + b);
        assert((l + (seq![x] + r2)).to_multiset() =~= (seq![x] + (l + r2)).to_multiset());
    }
}

/// One action keeps the invariant and lowers the potential.
#[verifier::spinoff_prover]
proof fn lemma_merge_action(v: Seq<i32>, m: MergeState, v0: Seq<i32>)
    requires
        merge_inv(v, m, v0),
        m.run_size < v.len(),
    ensures
        merge_inv(merge_action(v, m).0, merge_action(v, m).1, v0),
        0 <= merge_potential(merge_action(v, m).0, merge_action(v, m).1) < merge_potential(v, m),
{
    let n = v.len() as int;
    let m0 = merge_normal(v, m);
    let r = m0.run_size;
    let k = m0.run_index;
    let st = m0.start();
    let pos = m0.write_pos();
    let end = st + m0.left.len() + m0.right.len();
    let (w, m2) = merge_action(v, m);
    let old_pot = merge_potential(v, m);
    assert(old_pot == merge_passes(r, n as nat) * (n + 1) + (n - pos));
    assert(2 * r * k == k * (2 * r)) by (nonlinear_arith);
    assert((k + 1) * (2 * r) == 2 * r * k + 2 * r) by (nonlinear_arith);
    assert(2 * r * (k + 1) == 2 * r * k + 2 * r) by (nonlinear_arith);
    if pos >= n {
        assert(blocks_upto(v, 2 * r, k + 1));
        lemma_blocks_upto_from(v, 2 * r, k + 1, 0);
        assert(0 * (2 * r) == 0);
        assert(merge_pending(v, m0) =~= v);
        if 2 * r >= n {
            assert(sorted_range(v, 0, n));
            assert(merge_passes(r, n as nat) == 1);
            assert(pos == n);
            let q = merge_passes(r, n as nat);
            assert(old_pot == n + 1) by (nonlinear_arith)
                requires
                    q == 1,
                    old_pot == q * (n + 1) + (n - pos),
                    pos == n,
            ;
            assert(merge_potential(w, m2) == 0);
            assert(merge_potential(w, m2) < old_pot);
        } else {
            assert(2 * (2 * r) * 0 == 0);
            lemma_blocks_from_frame(v, v, 0, 2 * r);
            lemma_load_pair(v, 2 * r, 0, v0);
            let p = merge_passes(2 * r, n as nat);
            assert(merge_passes(r, n as nat) == 1 + p);
            assert((1 + p) * (n + 1) == p * (n + 1) + n + 1) by (nonlinear_arith);
            assert(m2 == load_pair(v, 2 * r, 0));
            assert(merge_potential(w, m2) == p * (n + 1) + n);
            assert(0 <= p * (n + 1)) by (nonlinear_arith)
                requires
                    n >= 0,
            ;
            assert(merge_potential(w, m2) < old_pot);
            assert(merge_normal(v, load_pair(v, 2 * r, 0)) == load_pair(v, 2 * r, 0));
        }
    } else if !m0.pair_done() {
        lemma_merge_write(v, m0, v0);
        assert(m2.run_size == r && m2.write_pos() == pos + 1);
        assert(merge_potential(w, m2) == merge_passes(r, n as nat) * (n + 1) + (n - pos - 1));
        assert(0 <= merge_passes(r, n as nat) * (n + 1)) by (nonlinear_arith)
            requires
                n >= 0,
        ;
    } else {
        assert(end == st + 2 * r);
        assert(merge_pending(v, m0) =~= v);
        assert(blocks_upto(v, 2 * r, k + 1));
        lemma_load_pair(v, r, k + 1, v0);
        let m1 = load_pair(v, r, k + 1);
        assert(m1.write_pos() == end);
        lemma_merge_write(v, m1, v0);
        assert(m2.run_size == r && m2.write_pos() == pos + 1);
        assert(merge_potential(w, m2) == merge_passes(r, n as nat) * (n + 1) + (n - pos - 1));
        assert(0 <= merge_passes(r, n as nat) * (n + 1)) by (nonlinear_arith)
            requires
                n >= 0,
        ;
    }
    assert(merge_potential(w, m2) < old_pot);
    if m2.run_size < n {
        assert(!m2.fresh());
        assert(merge_normal(w, m2) == m2);
    }
    assert(0 <= merge_passes(m2.run_size, n as nat) * (n + 1)) by (nonlinear_arith)
        requires
            n >= 0,
    ;
}

proof fn lemma_merge_completes(v: Seq<i32>, m: MergeState, v0: Seq<i32>, budget: nat)
    requires
        merge_inv(v, m, v0),
        budget > merge_potential(v, m),
    ensures
        merge_run(v, m, budget).2,
        merge_run(v, m, budget).1 == MergeState::initial(),
        sorted(merge_run(v, m, budget).0),
        merge_run(v, m, budget).0.to_multiset() == v0.to_multiset(),
    decreases budget,
{
    if m.run_size < v.len() {
        lemma_merge_action(v, m, v0);
        let (w, m2) = merge_action(v, m);
        lemma_merge_completes(w, m2, v0, (budget - 1) as nat);
    }
}

/// From the initial marker, one tick with a budget of at least
/// `merge_budget(n)` completes for every length, a power of two or not: the
/// list comes out in non-decreasing order and holds the same values, and the
/// marker is back to its initial shape.
pub proof fn lemma_merge_sorts(v: Seq<i32>, budget: nat)
    requires
        budget >= merge_budget(v.len()),
    ensures
        merge_run(v, MergeState::initial(), budget).2,
        merge_run(v, MergeState::initial(), budget).1 == MergeState::initial(),
        sorted(merge_run(v, MergeState::initial(), budget).0),
        merge_run(v, MergeState::initial(), budget).0.to_multiset() == v.to_multiset(),
{
    let m = MergeState::initial();
    if v.len() > 1 {
        assert(2 * 1nat * 0nat == 0);
        lemma_blocks_from_unit(v, 0);
        lemma_load_pair(v, 1, 0, v);
    }
    lemma_merge_completes(v, m, v, budget);
}

} // verus!
