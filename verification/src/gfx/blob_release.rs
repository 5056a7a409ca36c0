//! Which data blobs init frees once graphics has read its payloads.

use vstd::prelude::*;
use std::collections::BTreeSet;

verus! {

/// The consumed blobs to release: each blob that is not retained, once, in
/// the order it was first consumed.
pub open spec fn release_order(consumed: Seq<u32>, retained: Set<u32>) -> Seq<u32>
    decreases consumed.len(),
{
    if consumed.len() == 0 {
        Seq::empty()
    } else {
        let earlier = release_order(consumed.drop_last(), retained);
        let blob = consumed.last();
        if retained.contains(blob) || earlier.contains(blob) {
            earlier
        } else {
            earlier.push(blob)
        }
    }
}

// Blob indices are totally ordered, as the set of seen blobs needs.
proof fn lemma_blob_ids_ordered()
    ensures
        vstd::laws_cmp::obeys_cmp::<u32>(),
{
    broadcast use vstd::laws_cmp::group_laws_cmp;

}

/// The consumed blobs to release, each once in first-seen order, sparing the
/// retained ones.
pub fn blobs_to_release(consumed: Vec<u32>, retained: &BTreeSet<u32>) -> (released: Vec<u32>)
    ensures
        released@ == release_order(consumed@, retained@),
{
    broadcast use vstd::std_specs::btree::group_btree_axioms;

    proof {
        lemma_blob_ids_ordered();
    }

    let mut seen: BTreeSet<u32> = BTreeSet::new();
    let mut released: Vec<u32> = Vec::new();
    let mut i: usize = 0;
    while i < consumed.len()
        invariant
            i <= consumed@.len(),
            released@ == release_order(consumed@.take(i as int), retained@),
            seen@ == released@.to_set(),
        decreases consumed@.len() - i,
    {
        let blob = consumed[i];
        proof {
            lemma_blob_ids_ordered();
            assert(consumed@.take(i + 1).drop_last() =~= consumed@.take(i as int));
            assert(consumed@.take(i + 1).last() == blob);
            assert(released@.contains(blob) == released@.to_set().contains(blob));
        }
        if !retained.contains(&blob) && seen.insert(blob) {
            let ghost before = released@;
            released.push(blob);
            proof {
                assert forall|b: u32| #[trigger] released@.to_set().contains(b) == seen@.contains(b) by {
                    if released@.contains(b) {
                        let k = choose|k: int| 0 <= k < released@.len() && released@[k] == b;
                        if k < before.len() {
                            assert(before[k] == b);
                        }
                    }
                    if before.contains(b) {
                        let k = choose|k: int| 0 <= k < before.len() && before[k] == b;
                        assert(released@[k] == b);
                    }
                    assert(released@[before.len() as int] == blob);
                }
                assert(released@.to_set() =~= seen@);
            }
        }
        i += 1;
    }
    proof {
        assert(consumed@.take(consumed@.len() as int) =~= consumed@);
    }
    released
}

/// No blob is released twice, no retained blob is released, and every blob
/// released was consumed.
pub proof fn lemma_release_order_sound(consumed: Seq<u32>, retained: Set<u32>)
    ensures
        release_order(consumed, retained).no_duplicates(),
        forall|b: u32| #[trigger] release_order(consumed, retained).contains(b) ==> !retained.contains(b)
            && consumed.contains(b),
    decreases consumed.len(),
{
    if consumed.len() > 0 {
        lemma_release_order_sound(consumed.drop_last(), retained);
        let earlier = release_order(consumed.drop_last(), retained);
        assert forall|b: u32| #[trigger] release_order(consumed, retained).contains(b) implies !retained.contains(b)
            && consumed.contains(b) by {
            if earlier.contains(b) {
                let k = choose|k: int| 0 <= k < earlier.len() && earlier[k] == b;
                assert(consumed.drop_last().contains(b));
                let j = choose|j: int| 0 <= j < consumed.drop_last().len() && consumed.drop_last()[j] == b;
                assert(consumed[j] == b);
            } else {
                assert(b == consumed.last());
                assert(consumed[consumed.len() - 1] == b);
            }
        }
    }
}

/// Every consumed blob that is not retained is released.
pub proof fn lemma_release_order_complete(consumed: Seq<u32>, retained: Set<u32>, b: u32)
    requires
        consumed.contains(b),
        !retained.contains(b),
    ensures
        release_order(consumed, retained).contains(b),
    decreases consumed.len(),
{
    let earlier = release_order(consumed.drop_last(), retained);
    if consumed.last() == b {
        if !earlier.contains(b) {
            assert(release_order(consumed, retained).last() == b);
        }
    } else {
        let j = choose|j: int| 0 <= j < consumed.len() && consumed[j] == b;
        assert(consumed.drop_last()[j] == b);
        lemma_release_order_complete(consumed.drop_last(), retained, b);
        let k = choose|k: int| 0 <= k < earlier.len() && earlier[k] == b;
        if !retained.contains(consumed.last()) && !earlier.contains(consumed.last()) {
            assert(release_order(consumed, retained)[k] == b);
        }
    }
}

} // verus!
