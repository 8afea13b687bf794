//! Identifiers handed out in turn: nonzero, unused, wrapping round at the end.

use vstd::prelude::*;

verus! {

/// How many steps of `+ 1`, wrapping round, lead from one number to another.
pub open spec fn ring_distance(from: u32, to: u32) -> int {
    if from <= to {
        to - from
    } else {
        to - from + 0x1_0000_0000
    }
}

/// `id` is the first number from `start` on, wrapping round, that is neither
/// zero nor taken.
pub open spec fn first_free(taken: Set<u32>, start: u32, id: u32) -> bool {
    &&& id != 0
    &&& !taken.contains(id)
    &&& forall|other: u32|
        other != 0 && #[trigger] ring_distance(start, other) < ring_distance(start, id)
            ==> taken.contains(other)
}

/// Some nonzero number is left: fewer of them are taken than there are.
pub open spec fn has_free(taken: Set<u32>) -> bool {
    taken.remove(0).len() < u32::MAX
}

/// There is only one first free number.
pub proof fn law_first_free_is_unique(taken: Set<u32>, start: u32, a: u32, b: u32)
    requires
        first_free(taken, start, a),
        first_free(taken, start, b),
    ensures
        a == b,
{
    if ring_distance(start, a) < ring_distance(start, b) {
    } else if ring_distance(start, b) < ring_distance(start, a) {
    }
}

/// Where fewer nonzero numbers are taken than there are, one is free.
pub proof fn lemma_free_exists(taken: Set<u32>) -> (free: u32)
    requires
        taken.finite(),
        has_free(taken),
    ensures
        free != 0,
        !taken.contains(free),
{
    let all = Set::range_inclusive(1u32, u32::MAX);
    vstd::set_lib::range_set_properties(1u32, u32::MAX);
    if all.subset_of(taken.remove(0)) {
        vstd::set_lib::lemma_len_subset(all, taken.remove(0));
        assert(false);
    }
    choose|id: u32| all.contains(id) && !taken.remove(0).contains(id)
}

} // verus!
