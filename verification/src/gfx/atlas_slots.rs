//! The text-atlas pool's sprite slots: sprite textures ride the pool after
//! the font atlases, each distinct texture once, in ascending handle order,
//! each taking the next slot when its image decodes.

use vstd::prelude::*;

verus! {

/// `s` ascends strictly.
pub open spec fn strictly_ascending(s: Seq<u32>) -> bool {
    forall|i: int, j: int| 0 <= i < j < s.len() ==> s[i] < s[j]
}

/// Each distinct texture a sprite or story stage names, once, in ascending
/// handle order.
pub fn sprite_texture_ids(ids: &[u32]) -> (r: Vec<u32>)
    ensures
        strictly_ascending(r@),
        forall|x: u32| r@.contains(x) <==> ids@.contains(x),
{
    let mut out: Vec<u32> = Vec::new();
    let mut i: usize = 0;
    while i < ids.len()
        invariant
            i <= ids@.len(),
            strictly_ascending(out@),
            forall|x: u32| out@.contains(x) <==> ids@.take(i as int).contains(x),
        decreases ids@.len() - i,
    {
        let x = ids[i];
        let mut p: usize = 0;
        while p < out.len() && out[p] < x
            invariant
                p <= out@.len(),
                forall|k: int| 0 <= k < p ==> out@[k] < x,
            decreases out@.len() - p,
        {
            p += 1;
        }
        let ghost before = out@;
        proof {
            assert(ids@.take(i + 1) =~= ids@.take(i as int).push(x));
        }
        if p < out.len() && out[p] == x {
            proof {
                assert forall|y: u32| out@.contains(y) <==> ids@.take(i + 1).contains(y) by {
                    if y == x {
                        assert(out@[p as int] == x);
                        assert(ids@.take(i + 1)[i as int] == x);
                    }
                    if ids@.take(i + 1).contains(y) && y != x {
                        let k = choose|k: int| 0 <= k < i + 1 && #[trigger] ids@.take(i + 1)[k] == y;
                        assert(ids@.take(i as int)[k] == y);
                    }
                    if ids@.take(i as int).contains(y) {
                        let k = choose|k: int| 0 <= k < i && #[trigger] ids@.take(i as int)[k] == y;
                        assert(ids@.take(i + 1)[k] == y);
                    }
                }
            }
        } else {
            out.insert(p, x);
            proof {
                assert forall|a: int, b: int| 0 <= a < b < out@.len() implies out@[a] < out@[b] by {
                    if b < p {
                        assert(out@[a] == before[a] && out@[b] == before[b]);
                    } else if b == p {
                        assert(out@[a] == before[a]);
                    } else if a < p {
                        assert(out@[a] == before[a] && out@[b] == before[b - 1]);
                    } else if a == p {
                        assert(out@[b] == before[b - 1]);
                        assert(before[p as int] >= x);
                        if b - 1 > p {
                            assert(before[p as int] < before[b - 1]);
                        }
                    } else {
                        assert(out@[a] == before[a - 1] && out@[b] == before[b - 1]);
                    }
                }
                assert forall|y: u32| out@.contains(y) <==> ids@.take(i + 1).contains(y) by {
                    if y == x {
                        assert(out@[p as int] == x);
                        assert(ids@.take(i + 1)[i as int] == x);
                    } else {
                        if out@.contains(y) {
                            let k = choose|k: int| 0 <= k < out@.len() && #[trigger] out@[k] == y;
                            if k < p {
                                assert(before[k] == y);
                            } else {
                                assert(before[k - 1] == y);
                            }
                        }
                        if before.contains(y) {
                            let k = choose|k: int| 0 <= k < before.len() && #[trigger] before[k] == y;
                            if k < p {
                                assert(out@[k] == y);
                            } else {
                                assert(out@[k + 1] == y);
                            }
                        }
                        if ids@.take(i + 1).contains(y) {
                            let k = choose|k: int| 0 <= k < i + 1 && #[trigger] ids@.take(i + 1)[k] == y;
                            assert(ids@.take(i as int)[k] == y);
                        }
                        if ids@.take(i as int).contains(y) {
                            let k = choose|k: int| 0 <= k < i && #[trigger] ids@.take(i as int)[k] == y;
                            assert(ids@.take(i + 1)[k] == y);
                        }
                    }
                }
            }
        }
        i += 1;
    }
    proof {
        assert(ids@.take(i as int) =~= ids@);
    }
    out
}

/// The slot each decoded sprite texture takes among the first `k` textures:
/// the next free slot after `first`, in order; a texture whose image did not
/// decode takes none.
pub open spec fn slot_plan(first: int, ids: Seq<u32>, decoded: Seq<bool>, k: int) -> Seq<(u32, usize)>
    decreases k,
{
    if k <= 0 {
        Seq::empty()
    } else {
        let before = slot_plan(first, ids, decoded, k - 1);
        if decoded[k - 1] {
            before.push((ids[k - 1], (first + before.len()) as usize))
        } else {
            before
        }
    }
}

proof fn lemma_slot_plan_len(first: int, ids: Seq<u32>, decoded: Seq<bool>, k: int)
    requires
        0 <= k,
    ensures
        slot_plan(first, ids, decoded, k).len() <= k,
    decreases k,
{
    if k > 0 {
        lemma_slot_plan_len(first, ids, decoded, k - 1);
    }
}

/// The atlas slot of each sprite texture whose image decoded, numbered after
/// the `first` slots the font atlases hold. `decoded[i]` says whether texture
/// `ids[i]` decoded; a texture that did not keeps its sprite on the tint fill.
pub fn sprite_slots(first: usize, ids: &[u32], decoded: &[bool]) -> (r: Vec<(u32, usize)>)
    requires
        first + ids@.len() <= usize::MAX,
    ensures
        r@ == slot_plan(
            first as int,
            ids@,
            decoded@,
            if ids@.len() < decoded@.len() { ids@.len() as int } else { decoded@.len() as int },
        ),
{
    let n = if ids.len() < decoded.len() { ids.len() } else { decoded.len() };
    let mut out: Vec<(u32, usize)> = Vec::new();
    let mut i: usize = 0;
    while i < n
        invariant
            i <= n,
            n <= ids@.len(),
            n <= decoded@.len(),
            first + ids@.len() <= usize::MAX,
            out@ == slot_plan(first as int, ids@, decoded@, i as int),
        decreases n - i,
    {
        proof {
            lemma_slot_plan_len(first as int, ids@, decoded@, i as int);
        }
        if decoded[i] {
            let slot = first + out.len();
            out.push((ids[i], slot));
        }
        i += 1;
    }
    out
}

} // verus!
