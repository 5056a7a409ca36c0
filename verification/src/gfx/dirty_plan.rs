//! The incremental transform pass's dirty set: the slots whose Transform was
//! written since the last resolve, shallowest first, or the decision to fall
//! back to a full resolve. A moved entity re-walks its own subtree, so past a
//! fraction of the slot count the walks would overlap enough that one ordered
//! full resolve is cheaper; an entity the slot table does not hold also
//! forces the full resolve.

use vstd::prelude::*;

verus! {

/// Past `1 / DIRTY_BUDGET_DIVISOR` of the slots dirty, the pass falls back.
pub const DIRTY_BUDGET_DIVISOR: usize = 8;

/// How many dirty slots the incremental pass takes: a fraction of the slots,
/// and at least one.
pub open spec fn dirty_budget(slots: int) -> int {
    if slots / 8 > 1 {
        slots / 8
    } else {
        1
    }
}

/// The slots of the changed rows (each row's slot, when it has one).
pub open spec fn changed_slots(changed: Seq<Option<u32>>) -> Seq<u32> {
    changed.map_values(|o: Option<u32>| o->0)
}

/// `s` lists slots shallowest first.
pub open spec fn by_depth(depth: Seq<u32>, s: Seq<u32>) -> bool {
    forall|i: int, j: int| 0 <= i < j < s.len() ==> depth[s[i] as int] <= depth[s[j] as int]
}

/// The dirty slots of the rows written since the last resolve, shallowest
/// first so an ancestor's walk subsumes its dirty descendants; `None` (fall
/// back to a full resolve) when more rows changed than the budget allows or
/// a changed row has no slot. `changed` gives each written row's slot.
pub fn plan_dirty(depth: &[u32], changed: &[Option<u32>], slots: usize) -> (r: Option<Vec<u32>>)
    requires
        forall|i: int| 0 <= i < changed@.len() && #[trigger] changed@[i] is Some ==> changed@[i]->0 < depth@.len(),
    ensures
        r is None <==> (changed@.len() > dirty_budget(slots as int) || exists|i: int|
            0 <= i < changed@.len() && #[trigger] changed@[i] is None),
        r matches Some(v) ==> v@.to_multiset() == changed_slots(changed@).to_multiset() && by_depth(depth@, v@),
{
    broadcast use vstd::seq_lib::to_multiset_insert;

    let budget = if slots / DIRTY_BUDGET_DIVISOR > 1 { slots / DIRTY_BUDGET_DIVISOR } else { 1 };
    let mut out: Vec<u32> = Vec::new();
    let mut i: usize = 0;
    proof {
        assert(changed_slots(changed@.take(0)) =~= Seq::<u32>::empty());
        assert(out@ =~= Seq::<u32>::empty());
        broadcast use vstd::seq_lib::to_multiset_len;
        assert(out@.to_multiset().len() == 0);
        assert(changed_slots(changed@.take(0)).to_multiset().len() == 0);
        assert(out@.to_multiset() =~= changed_slots(changed@.take(0)).to_multiset());
    }
    while i < changed.len()
        invariant
            i <= changed@.len(),
            budget == dirty_budget(slots as int),
            i <= budget,
            forall|j: int| 0 <= j < i ==> #[trigger] changed@[j] is Some,
            forall|j: int| 0 <= j < changed@.len() && #[trigger] changed@[j] is Some ==> changed@[j]->0 < depth@.len(),
            out@.to_multiset() == changed_slots(changed@.take(i as int)).to_multiset(),
            by_depth(depth@, out@),
            out@.len() == i,
            forall|k: int| 0 <= k < out@.len() ==> #[trigger] out@[k] < depth@.len(),
        decreases changed@.len() - i,
    {
        if out.len() >= budget {
            return None;
        }
        let x = match changed[i] {
            Some(x) => x,
            None => {
                return None;
            },
        };
        let dx = depth[x as usize];
        let mut p: usize = 0;
        while p < out.len() && depth[out[p] as usize] <= dx
            invariant
                p <= out@.len(),
                x < depth@.len(),
                dx == depth@[x as int],
                forall|k: int| 0 <= k < out@.len() ==> #[trigger] out@[k] < depth@.len(),
                forall|k: int| 0 <= k < p ==> depth@[#[trigger] out@[k] as int] <= dx,
            decreases out@.len() - p,
        {
            p += 1;
        }
        let ghost before = out@;
        out.insert(p, x);
        proof {
            assert(changed@.take(i + 1) =~= changed@.take(i as int).push(changed@[i as int]));
            assert(changed_slots(changed@.take(i + 1)) =~= changed_slots(changed@.take(i as int)).push(x));
            vstd::seq_lib::to_multiset_build(changed_slots(changed@.take(i as int)), x);
            vstd::seq_lib::to_multiset_insert(before, p as int, x);
            assert forall|a: int, b: int| 0 <= a < b < out@.len() implies depth@[out@[a] as int] <= depth@[out@[b] as int] by {
                if a < p && b < p {
                    assert(out@[a] == before[a] && out@[b] == before[b]);
                } else if a < p && b == p {
                    assert(out@[a] == before[a]);
                } else if a < p {
                    assert(out@[a] == before[a] && out@[b] == before[b - 1]);
                } else if a == p {
                    assert(out@[b] == before[b - 1]);
                    if p < before.len() {
                        assert(depth@[before[p as int] as int] > dx);
                        assert(depth@[before[p as int] as int] <= depth@[before[b - 1] as int] || b - 1 == p);
                    }
                } else {
                    assert(out@[a] == before[a - 1] && out@[b] == before[b - 1]);
                }
            }
            assert forall|k: int| 0 <= k < out@.len() implies #[trigger] out@[k] < depth@.len() by {
                if k < p {
                    assert(out@[k] == before[k]);
                } else if k > p {
                    assert(out@[k] == before[k - 1]);
                }
            }
        }
        i += 1;
    }
    proof {
        assert(changed@.take(i as int) =~= changed@);
    }
    Some(out)
}

} // verus!
