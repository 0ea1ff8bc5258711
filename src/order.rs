use vstd::prelude::*;

verus! {

/// The sequence is in non-decreasing order.
pub open spec fn sorted(s: Seq<i32>) -> bool {
    forall|i: int, j: int| 0 <= i <= j < s.len() ==> s[i] <= s[j]
}

/// Tells whether the list is in non-decreasing order.
pub fn is_sorted(v: &Vec<i32>) -> (r: bool)
    ensures
        r == sorted(v@),
{
    let mut i: usize = 1;
    if v.len() == 0 {
        return true;
    }
    while i < v.len()
        invariant
            1 <= i <= v.len(),
            forall|a: int, b: int| 0 <= a <= b < i ==> v@[a] <= v@[b],
        decreases v.len() - i,
    {
        if v[i - 1] > v[i] {
            return false;
        }
        i += 1;
    }
    true
}

/// Exchanging two elements keeps the multiset of values.
pub proof fn lemma_swap_keeps_multiset(s: Seq<i32>, i: int, j: int)
    requires
        0 <= i < s.len(),
        0 <= j < s.len(),
    ensures
        s.update(i, s[j]).update(j, s[i]).to_multiset() == s.to_multiset(),
{
    broadcast use vstd::seq_lib::to_multiset_update, vstd::multiset::group_multiset_axioms;

    let t = s.update(i, s[j]);
    assert(t[j] == s[j]);
    vstd::seq_lib::to_multiset_update(s, i, s[j]);
    vstd::seq_lib::to_multiset_update(t, j, s[i]);
    vstd::seq_lib::to_multiset_contains(s, s[i]);
    assert(s.contains(s[i]));
    let a = s.to_multiset();
    assert(t.update(j, s[i]).to_multiset() == a.insert(s[j]).remove(s[i]).insert(s[i]).remove(s[j]));
    assert(a.insert(s[j]).remove(s[i]).insert(s[i]).remove(s[j]) =~= a);
}

} // verus!
