//! Shrinkable seed memory for streamed meshes: the byte size each streamed
//! mesh needs, which draws are streamed, and the seed headroom to reserve
//! when the residency cap alone would not shrink the buffers.

use vstd::prelude::*;
use std::collections::HashMap;

verus! {

/// The (vertex, index) bytes one streamed mesh needs. A mesh whose decode was
/// deferred has an empty payload; its size comes from the baked counts of the
/// mesh-source handle its draw was built from, and is zero when there are none.
pub open spec fn seed_size(
    payload: (usize, usize),
    draw: usize,
    draw_to_handle: Map<usize, usize>,
    counts: Map<u32, (u32, u32)>,
    vertex_bytes: u64,
    index_bytes: u64,
) -> (int, int) {
    if payload.0 > 0 {
        (payload.0 * vertex_bytes, payload.1 * index_bytes)
    } else if draw_to_handle.contains_key(draw) && counts.contains_key(draw_to_handle[draw] as u32) {
        (
            counts[draw_to_handle[draw] as u32].0 * vertex_bytes,
            counts[draw_to_handle[draw] as u32].1 * index_bytes,
        )
    } else {
        (0, 0)
    }
}

/// Every streamed mesh's size fits in `u64`.
pub open spec fn sizes_fit(
    payloads: Seq<(usize, usize)>,
    draws: Seq<usize>,
    draw_to_handle: Map<usize, usize>,
    counts: Map<u32, (u32, u32)>,
    vertex_bytes: u64,
    index_bytes: u64,
) -> bool {
    forall|i: int|
        0 <= i < payloads.len() && i < draws.len() ==> {
            let s = #[trigger] seed_size(payloads[i], draws[i], draw_to_handle, counts, vertex_bytes, index_bytes);
            s.0 <= u64::MAX && s.1 <= u64::MAX
        }
}

/// The bytes each streamed mesh needs, paired with the streamed draws in order
/// (as many as both lists hold). `payloads` gives each decoded mesh's vertex
/// and index counts.
pub fn mesh_seed_sizes(
    payloads: &[(usize, usize)],
    draws: &[usize],
    draw_to_handle: &HashMap<usize, usize>,
    counts: &HashMap<u32, (u32, u32)>,
    vertex_bytes: u64,
    index_bytes: u64,
) -> (r: Vec<(u64, u64)>)
    requires
        sizes_fit(payloads@, draws@, draw_to_handle@, counts@, vertex_bytes, index_bytes),
    ensures
        r@.len() == if payloads@.len() < draws@.len() { payloads@.len() } else { draws@.len() },
        forall|i: int|
            0 <= i < r@.len() ==> (r@[i].0 as int, r@[i].1 as int) == #[trigger] seed_size(
                payloads@[i],
                draws@[i],
                draw_to_handle@,
                counts@,
                vertex_bytes,
                index_bytes,
            ),
{
    let n = if payloads.len() < draws.len() { payloads.len() } else { draws.len() };
    let mut out: Vec<(u64, u64)> = Vec::new();
    let mut i: usize = 0;
    while i < n
        invariant
            i <= n,
            n <= payloads@.len(),
            n <= draws@.len(),
            n == if payloads@.len() < draws@.len() { payloads@.len() } else { draws@.len() },
            sizes_fit(payloads@, draws@, draw_to_handle@, counts@, vertex_bytes, index_bytes),
            out@.len() == i,
            forall|j: int|
                0 <= j < i ==> (out@[j].0 as int, out@[j].1 as int) == #[trigger] seed_size(
                    payloads@[j],
                    draws@[j],
                    draw_to_handle@,
                    counts@,
                    vertex_bytes,
                    index_bytes,
                ),
        decreases n - i,
    {
        let (vc, ic) = payloads[i];
        let ghost s = seed_size(payloads@[i as int], draws@[i as int], draw_to_handle@, counts@, vertex_bytes, index_bytes);
        proof {
            assert(s.0 <= u64::MAX && s.1 <= u64::MAX);
        }
        let size = if vc > 0 {
            proof {
                assert(vc * vertex_bytes <= u64::MAX);
                assert(ic * index_bytes <= u64::MAX);
            }
            (vc as u64 * vertex_bytes, ic as u64 * index_bytes)
        } else {
            match draw_to_handle.get(&draws[i]) {
                Some(h) => match counts.get(&(*h as u32)) {
                    Some(c) => (c.0 as u64 * vertex_bytes, c.1 as u64 * index_bytes),
                    None => (0, 0),
                },
                None => (0, 0),
            }
        };
        out.push(size);
        i += 1;
    }
    out
}

/// The sum of the vertex (`vertex` true) or index bytes of a list of sizes.
pub open spec fn total_bytes(sizes: Seq<(u64, u64)>, vertex: bool) -> int
    decreases sizes.len(),
{
    if sizes.len() == 0 {
        0
    } else {
        total_bytes(sizes.drop_last(), vertex) + if vertex { sizes.last().0 as int } else { sizes.last().1 as int }
    }
}

/// The seed headroom to reserve: the plan the cap gives (`planned`, `None`
/// when the cap already holds the whole streamed set), or, when some meshes
/// were deferred and so have no baked region to free, the whole set's bytes.
pub open spec fn seed_headroom(planned: Option<(u64, u64)>, sizes: Seq<(u64, u64)>, has_deferred: bool) -> Option<(int, int)> {
    match planned {
        Some(p) => Some((p.0 as int, p.1 as int)),
        None => if has_deferred {
            Some((total_bytes(sizes, true), total_bytes(sizes, false)))
        } else {
            None
        },
    }
}

proof fn lemma_total_step(sizes: Seq<(u64, u64)>, i: int)
    requires
        0 <= i < sizes.len(),
    ensures
        total_bytes(sizes.take(i + 1), true) == total_bytes(sizes.take(i), true) + sizes[i].0,
        total_bytes(sizes.take(i + 1), false) == total_bytes(sizes.take(i), false) + sizes[i].1,
{
    assert(sizes.take(i + 1).drop_last() =~= sizes.take(i));
}

proof fn lemma_total_monotone(sizes: Seq<(u64, u64)>, i: int)
    requires
        0 <= i <= sizes.len(),
    ensures
        total_bytes(sizes.take(i), true) <= total_bytes(sizes, true),
        total_bytes(sizes.take(i), false) <= total_bytes(sizes, false),
    decreases sizes.len() - i,
{
    if i < sizes.len() {
        lemma_total_monotone(sizes, i + 1);
        lemma_total_step(sizes, i);
    } else {
        assert(sizes.take(i) =~= sizes);
    }
}

/// Decide the seed headroom from the cap's plan (see `seed_headroom`).
pub fn plan_seed_headroom(planned: Option<(u64, u64)>, sizes: &[(u64, u64)], has_deferred: bool) -> (r: Option<(u64, u64)>)
    requires
        planned is None && has_deferred ==> total_bytes(sizes@, true) <= u64::MAX && total_bytes(sizes@, false) <= u64::MAX,
    ensures
        match r {
            Some(p) => seed_headroom(planned, sizes@, has_deferred) == Some((p.0 as int, p.1 as int)),
            None => seed_headroom(planned, sizes@, has_deferred) is None,
        },
{
    match planned {
        Some(p) => Some(p),
        None => {
            if !has_deferred {
                return None;
            }
            let mut v: u64 = 0;
            let mut x: u64 = 0;
            let mut i: usize = 0;
            while i < sizes.len()
                invariant
                    i <= sizes@.len(),
                    total_bytes(sizes@, true) <= u64::MAX,
                    total_bytes(sizes@, false) <= u64::MAX,
                    v == total_bytes(sizes@.take(i as int), true),
                    x == total_bytes(sizes@.take(i as int), false),
                decreases sizes@.len() - i,
            {
                proof {
                    lemma_total_step(sizes@, i as int);
                    lemma_total_monotone(sizes@, i + 1);
                }
                v = v + sizes[i].0;
                x = x + sizes[i].1;
                i += 1;
            }
            proof {
                assert(sizes@.take(i as int) =~= sizes@);
            }
            Some((v, x))
        },
    }
}

/// Which of `n` draws are streamed: each listed index within range; an index
/// past the draw list is ignored.
pub fn streamed_flags(n: usize, draws: &[usize]) -> (r: Vec<bool>)
    ensures
        r@.len() == n,
        forall|d: int| 0 <= d < n ==> #[trigger] r@[d] == draws@.contains(d as usize),
{
    let mut flags: Vec<bool> = Vec::new();
    let mut k: usize = 0;
    while k < n
        invariant
            k <= n,
            flags@.len() == k,
            forall|d: int| 0 <= d < k ==> !#[trigger] flags@[d],
        decreases n - k,
    {
        flags.push(false);
        k += 1;
    }
    let mut i: usize = 0;
    while i < draws.len()
        invariant
            i <= draws@.len(),
            flags@.len() == n,
            forall|d: int| 0 <= d < n ==> #[trigger] flags@[d] == draws@.take(i as int).contains(d as usize),
        decreases draws@.len() - i,
    {
        let idx = draws[i];
        proof {
            assert(draws@.take(i + 1) =~= draws@.take(i as int).push(idx));
        }
        if idx < n {
            flags.set(idx, true);
        }
        proof {
            assert forall|d: int| 0 <= d < n implies #[trigger] flags@[d] == draws@.take(i + 1).contains(d as usize) by {
                if draws@.take(i as int).contains(d as usize) {
                    let j = choose|j: int| 0 <= j < i && #[trigger] draws@.take(i as int)[j] == d as usize;
                    assert(draws@.take(i + 1)[j] == d as usize);
                }
                if d as usize == idx {
                    assert(draws@.take(i + 1)[i as int] == idx);
                }
                if draws@.take(i + 1).contains(d as usize) && d as usize != idx {
                    let j = choose|j: int| 0 <= j < i + 1 && #[trigger] draws@.take(i + 1)[j] == d as usize;
                    assert(j < i);
                    assert(draws@.take(i as int)[j] == d as usize);
                }
            }
        }
        i += 1;
    }
    proof {
        assert(draws@.take(i as int) =~= draws@);
    }
    flags
}

} // verus!
