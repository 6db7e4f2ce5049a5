//! The selection: the positions at which a list of check marks is set.

use crate::item::positions;
use vstd::prelude::*;

verus! {

/// The positions at which `flags` is set, in ascending order.
pub open spec fn checked_indices(flags: Seq<bool>) -> Seq<int>
    decreases flags.len(),
{
    if flags.len() == 0 {
        Seq::empty()
    } else {
        let before = checked_indices(flags.drop_last());
        if flags.last() {
            before.push(flags.len() - 1)
        } else {
            before
        }
    }
}

/// Whether `picked` is the selection that `flags` stands for: positions of
/// `flags`, strictly ascending, so that none comes twice, and exactly those
/// at which the flag is set.
pub open spec fn is_selection_of(picked: Seq<int>, flags: Seq<bool>) -> bool {
    &&& forall|k: int| 0 <= k < picked.len() ==> 0 <= #[trigger] picked[k] < flags.len()
    &&& forall|j: int, k: int| 0 <= j < k < picked.len() ==> picked[j] < picked[k]
    &&& forall|i: int| 0 <= i < flags.len() ==> (picked.contains(i) <==> #[trigger] flags[i])
}

/// What [`checked_indices`] gives is the selection that the flags stand
/// for.
pub proof fn lemma_checked_indices(flags: Seq<bool>)
    ensures
        is_selection_of(checked_indices(flags), flags),
        checked_indices(flags).len() <= flags.len(),
    decreases flags.len(),
{
    let found = checked_indices(flags);
    if flags.len() > 0 {
        let front = flags.drop_last();
        let before = checked_indices(front);
        let last = flags.len() - 1;
        lemma_checked_indices(front);
        assert forall|i: int| 0 <= i < flags.len() implies (found.contains(i)
            <==> #[trigger] flags[i]) by {
            if i < last {
                assert(front[i] == flags[i]);
                if before.contains(i) {
                    let k = choose|k: int| 0 <= k < before.len() && before[k] == i;
                    assert(found[k] == i);
                }
                if found.contains(i) {
                    let k = choose|k: int| 0 <= k < found.len() && found[k] == i;
                    assert(before[k] == i);
                }
            } else {
                if flags[last] {
                    assert(found[found.len() - 1] == last);
                }
                if found.contains(i) {
                    let k = choose|k: int| 0 <= k < found.len() && found[k] == i;
                    if k < before.len() {
                        assert(before[k] < front.len());
                    }
                }
            }
        }
    }
}

/// The positions at which `flags` is set, ascending, see
/// [`checked_indices`].
pub fn checked_positions(flags: &Vec<bool>) -> (found: Vec<usize>)
    ensures
        positions(found@) == checked_indices(flags@),
        is_selection_of(positions(found@), flags@),
{
    proof {
        lemma_checked_indices(flags@);
    }
    let mut found: Vec<usize> = Vec::new();
    let mut i: usize = 0;
    while i < flags.len()
        invariant
            i <= flags.len(),
            positions(found@) == checked_indices(flags@.take(i as int)),
        decreases flags.len() - i,
    {
        proof {
            assert(flags@.take(i + 1).drop_last() =~= flags@.take(i as int));
        }
        let ghost old_found = found@;
        if flags[i] {
            found.push(i);
            assert(positions(found@) =~= positions(old_found).push(i as int));
        }
        i += 1;
    }
    assert(flags@.take(flags.len() as int) =~= flags@);
    found
}

} // verus!
