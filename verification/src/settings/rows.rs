//! Which settings-menu labels dim when a row is disabled at run time.

use vstd::prelude::*;
use std::collections::HashSet;

verus! {

/// Some label of `row` is gated.
pub open spec fn row_gated(gated: Set<u32>, row: Seq<u32>) -> bool {
    exists|k: int| 0 <= k < row.len() && gated.contains(#[trigger] row[k])
}

/// Label `id` dims: it is gated itself, or it sits in a row holding a gated
/// label.
pub open spec fn dims(gated: Set<u32>, rows: Seq<Vec<u32>>, n: int, id: u32) -> bool {
    gated.contains(id) || exists|r: int|
        0 <= r < n && row_gated(gated, rows[r]@) && #[trigger] rows[r]@.contains(id)
}

/// `id` is among the first `n` labels a set iteration visited.
pub open spec fn visited(labels: Seq<&u32>, n: int, id: u32) -> bool {
    exists|k: int| 0 <= k < n && *#[trigger] labels[k] == id
}

proof fn lemma_visited_step()
    ensures
        forall|labels: Seq<&u32>, n: int, id: u32|
            0 <= n < labels.len() ==> (#[trigger] visited(labels, n + 1, id) <==> (visited(labels, n, id)
                || *labels[n] == id)),
{
    assert forall|labels: Seq<&u32>, n: int, id: u32|
        0 <= n < labels.len() implies (#[trigger] visited(labels, n + 1, id) <==> (visited(
        labels,
        n,
        id,
    ) || *labels[n] == id)) by {
        if visited(labels, n + 1, id) {
            let k = choose|k: int| 0 <= k < n + 1 && *#[trigger] labels[k] == id;
            if k < n {
                assert(visited(labels, n, id));
            }
        }
        if visited(labels, n, id) {
            let k = choose|k: int| 0 <= k < n && *#[trigger] labels[k] == id;
            assert(*labels[k] == id);
        }
    }
}

proof fn lemma_visited_all()
    ensures
        forall|labels: Seq<&u32>, s: Set<u32>, id: u32|
            #![trigger visited(labels, labels.len() as int, id), s.contains(id)]
            labels.unref().to_set() == s ==> (visited(labels, labels.len() as int, id) <==> s.contains(
                id,
            )),
{
    assert forall|labels: Seq<&u32>, s: Set<u32>, id: u32|
        #![trigger visited(labels, labels.len() as int, id), s.contains(id)]
        labels.unref().to_set() == s implies (visited(labels, labels.len() as int, id)
            <==> s.contains(id)) by {
        if visited(labels, labels.len() as int, id) {
            let k = choose|k: int| 0 <= k < labels.len() && *#[trigger] labels[k] == id;
            assert(labels.unref()[k] == id);
            assert(labels.unref().to_set().contains(id));
        }
        if s.contains(id) {
            assert(labels.unref().contains(id));
            let k = choose|k: int| 0 <= k < labels.unref().len() && labels.unref()[k] == id;
            assert(*labels[k] == id);
        }
    }
}

/// The labels to dim: the gated labels, plus every label of a row that holds
/// a gated one, so a disabled value label grays its whole row.
pub fn expand_dim_set(gated: &HashSet<u32>, rows: &[Vec<u32>]) -> (dim: HashSet<u32>)
    ensures
        forall|id: u32| #[trigger] dim@.contains(id) <==> dims(gated@, rows@, rows@.len() as int, id),
{
    broadcast use vstd::std_specs::hash::group_hash_axioms;

    let mut dim: HashSet<u32> = HashSet::new();
    for x in it: gated.iter()
        invariant
            it.seq().unref().to_set() == gated@,
            forall|id: u32| #[trigger] dim@.contains(id) <==> visited(it.seq(), it.index() as int, id),
    {
        dim.insert(*x);
        proof {
            lemma_visited_step();
        }
    }
    proof {
        lemma_visited_all();
        assert forall|id: u32| #[trigger] dim@.contains(id) <==> dims(gated@, rows@, 0, id) by {}
    }
    let mut r: usize = 0;
    while r < rows.len()
        invariant
            r <= rows@.len(),
            forall|id: u32| #[trigger] dim@.contains(id) <==> dims(gated@, rows@, r as int, id),
        decreases rows@.len() - r,
    {
        let row = &rows[r];
        let mut hit = false;
        let mut k: usize = 0;
        while k < row.len()
            invariant_except_break
                !hit,
                forall|j: int| 0 <= j < k ==> !gated@.contains(#[trigger] row@[j]),
            invariant
                k <= row@.len(),
            ensures
                hit <==> row_gated(gated@, row@),
            decreases row@.len() - k,
        {
            if gated.contains(&row[k]) {
                hit = true;
                break;
            }
            k += 1;
        }
        if hit {
            let mut j: usize = 0;
            while j < row.len()
                invariant
                    j <= row@.len(),
                    row_gated(gated@, row@),
                    row == rows@[r as int],
                    r < rows@.len(),
                    forall|id: u32|
                        #[trigger] dim@.contains(id) <==> (dims(gated@, rows@, r as int, id)
                            || row@.take(j as int).contains(id)),
                decreases row@.len() - j,
            {
                let ghost before = row@.take(j as int);
                dim.insert(row[j]);
                proof {
                    assert forall|id: u32| #[trigger]
                        row@.take(j + 1).contains(id) <==> (before.contains(id) || id == row@[j as int]) by {
                        if row@.take(j + 1).contains(id) && id != row@[j as int] {
                            let m = choose|m: int| 0 <= m < j + 1 && #[trigger] row@.take(j + 1)[m] == id;
                            assert(before[m] == id);
                        }
                        if before.contains(id) {
                            let m = choose|m: int| 0 <= m < j && #[trigger] before[m] == id;
                            assert(row@.take(j + 1)[m] == id);
                        }
                        if id == row@[j as int] {
                            assert(row@.take(j + 1)[j as int] == id);
                        }
                    }
                }
                j += 1;
            }
            proof {
                assert(row@.take(row@.len() as int) =~= row@);
                assert forall|id: u32| #[trigger] dim@.contains(id) <==> dims(gated@, rows@, r + 1, id) by {
                    if dims(gated@, rows@, r + 1, id) && !dims(gated@, rows@, r as int, id) {
                        let q = choose|q: int|
                            0 <= q < r + 1 && row_gated(gated@, rows@[q]@) && #[trigger] rows@[q]@.contains(id);
                        assert(q == r);
                    }
                    if row@.contains(id) {
                        assert(rows@[r as int]@.contains(id));
                    }
                }
            }
        } else {
            proof {
                assert forall|id: u32| #[trigger] dim@.contains(id) <==> dims(gated@, rows@, r + 1, id) by {
                    if dims(gated@, rows@, r + 1, id) && !dims(gated@, rows@, r as int, id) {
                        let q = choose|q: int|
                            0 <= q < r + 1 && row_gated(gated@, rows@[q]@) && #[trigger] rows@[q]@.contains(id);
                        assert(q == r);
                    }
                }
            }
        }
        r += 1;
    }
    dim
}

} // verus!
