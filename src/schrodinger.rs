use rand::seq::SliceRandom;
use vstd::prelude::*;

use crate::order::{is_sorted, sorted};

verus! {

/// Relies on rand's `SliceRandom::shuffle` with `thread_rng`: it only swaps
/// elements of the slice, so the result is a permutation of the input.
#[verifier::external_body]
pub(crate) fn shuffle(v: &mut Vec<i32>)
    ensures
        final(v)@.len() == old(v)@.len(),
        final(v)@.to_multiset() == old(v)@.to_multiset(),
{
    v.shuffle(&mut rand::thread_rng());
}

/// Performs up to `budget` actions of the probabilistic sort: an unordered
/// list is reshuffled, an ordered one is left alone, and completion is
/// signalled only once the list is ordered and `observed` holds.
pub fn schrodinger_tick(v: &mut Vec<i32>, observed: bool, budget: u32) -> (done: bool)
    ensures
        final(v)@.to_multiset() == old(v)@.to_multiset(),
        final(v)@.len() == old(v)@.len(),
        done ==> observed && sorted(final(v)@) && budget > 0,
        !observed ==> !done,
        sorted(old(v)@) ==> final(v)@ == old(v)@,
        (observed && budget > 0 && sorted(old(v)@)) ==> done,
        budget == 0 ==> final(v)@ == old(v)@,
{
    let ghost v0 = v@;
    let mut k: u32 = 0;
    let mut done = false;
    while k < budget && !done
        invariant
            k <= budget,
            v@.to_multiset() == v0.to_multiset(),
            v@.len() == v0.len(),
            done ==> observed && sorted(v@) && budget > 0,
            !observed ==> !done,
            sorted(v0) ==> v@ == v0,
            (observed && k > 0 && sorted(v0)) ==> done,
            k == 0 ==> v@ == v0,
        decreases budget - k,
    {
        if is_sorted(v) {
            if observed {
                done = true;
            }
        } else {
            shuffle(v);
        }
        k += 1;
    }
    done
}

} // verus!
