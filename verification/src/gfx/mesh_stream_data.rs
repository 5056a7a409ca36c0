//! Which draws the mesh streamer takes over, and the geometry each one keeps
//! for re-upload: the draw's vertex range in the shared vertex buffer and its
//! indices made mesh-relative and narrowed to `u16`. Only cullable draws
//! stream (a skybox or a dynamic draw stays resident); a draw whose decode
//! was deferred streams with an empty payload; a draw whose ranges overrun
//! the shared buffers is left out.

use vstd::prelude::*;
use std::collections::HashSet;

verus! {

/// What the streamer reads of one draw. `vertex_offset` is in bytes.
#[derive(Clone, Copy, Debug, PartialEq, Eq, Structural)]
pub struct StreamDraw {
    /// The draw has finite bounds, so the streamer can cull it.
    pub cullable: bool,
    pub vertex_offset: usize,
    pub vertex_count: usize,
    pub index_offset: usize,
    pub index_count: usize,
}

/// One streamed draw's geometry: `vertices` is its range in the shared
/// vertex buffer (empty for a deferred draw), `indices` its mesh-relative
/// indices.
#[derive(Debug)]
pub struct StreamMesh {
    pub draw: usize,
    pub deferred: bool,
    pub vertex_start: usize,
    pub vertex_end: usize,
    pub indices: Vec<u16>,
}

/// The first vertex of a draw's region.
pub open spec fn vertex_start(d: StreamDraw, vertex_size: usize) -> int {
    d.vertex_offset as int / vertex_size as int
}

/// Draw `i` streams: it is cullable, and either deferred or its ranges lie
/// within the shared buffers.
pub open spec fn streams(
    d: StreamDraw,
    i: int,
    deferred: Set<usize>,
    vertex_total: int,
    index_total: int,
    vertex_size: usize,
) -> bool {
    d.cullable && (deferred.contains(i as usize) || (vertex_start(d, vertex_size) + d.vertex_count
        <= vertex_total && d.index_offset + d.index_count <= index_total))
}

/// The streamed draws among the first `k`, in draw order.
pub open spec fn streamed_draws(
    draws: Seq<StreamDraw>,
    k: int,
    deferred: Set<usize>,
    vertex_total: int,
    index_total: int,
    vertex_size: usize,
) -> Seq<usize>
    decreases k,
{
    if k <= 0 {
        Seq::empty()
    } else {
        let before = streamed_draws(draws, k - 1, deferred, vertex_total, index_total, vertex_size);
        if streams(draws[k - 1], k - 1, deferred, vertex_total, index_total, vertex_size) {
            before.push((k - 1) as usize)
        } else {
            before
        }
    }
}

/// A draw's indices made relative to its first vertex, narrowed to `u16`.
pub open spec fn relative_indices(indices: Seq<u32>, d: StreamDraw, vertex_size: usize) -> Seq<u16> {
    indices.subrange(d.index_offset as int, d.index_offset + d.index_count).map_values(
        |x: u32| (x - vertex_start(d, vertex_size)) as u16,
    )
}

/// A streamed draw's geometry is as the shared buffers give it.
pub open spec fn mesh_is(
    m: StreamMesh,
    draws: Seq<StreamDraw>,
    deferred: Set<usize>,
    indices: Seq<u32>,
    vertex_size: usize,
) -> bool {
    let d = draws[m.draw as int];
    if deferred.contains(m.draw) {
        m.deferred && m.vertex_start == 0 && m.vertex_end == 0 && m.indices@.len() == 0
    } else {
        &&& !m.deferred
        &&& m.vertex_start == vertex_start(d, vertex_size)
        &&& m.vertex_end == vertex_start(d, vertex_size) + d.vertex_count
        &&& m.indices@ == relative_indices(indices, d, vertex_size)
    }
}

/// Every index a streamed, resident draw rebases lies at or past its first
/// vertex (so the subtraction stays in range).
pub open spec fn indices_rebase(
    draws: Seq<StreamDraw>,
    deferred: Set<usize>,
    vertex_total: int,
    indices: Seq<u32>,
    vertex_size: usize,
) -> bool {
    forall|i: int, t: int|
        #![trigger draws[i], indices[t]]
        0 <= i < draws.len() && streams(draws[i], i, deferred, vertex_total, indices.len() as int, vertex_size)
            && !deferred.contains(i as usize) && draws[i].index_offset <= t < draws[i].index_offset
            + draws[i].index_count ==> vertex_start(draws[i], vertex_size) <= indices[t]
}

/// The draws the streamer takes over and the geometry each keeps.
pub fn mesh_stream_data(
    draws: &[StreamDraw],
    vertex_total: usize,
    indices: &[u32],
    deferred: &HashSet<usize>,
    vertex_size: usize,
) -> (r: Vec<StreamMesh>)
    requires
        vertex_size > 0,
        forall|i: int|
            0 <= i < draws@.len() ==> vertex_start(#[trigger] draws@[i], vertex_size) + draws@[i].vertex_count
                <= usize::MAX && draws@[i].index_offset + draws@[i].index_count <= usize::MAX,
        indices_rebase(draws@, deferred@, vertex_total as int, indices@, vertex_size),
    ensures
        r@.map_values(|m: StreamMesh| m.draw) == streamed_draws(
            draws@,
            draws@.len() as int,
            deferred@,
            vertex_total as int,
            indices@.len() as int,
            vertex_size,
        ),
        forall|m: int| 0 <= m < r@.len() ==> #[trigger] mesh_is(r@[m], draws@, deferred@, indices@, vertex_size),
{
    let ghost vt = vertex_total as int;
    let ghost it = indices@.len() as int;
    let mut out: Vec<StreamMesh> = Vec::new();
    let mut i: usize = 0;
    while i < draws.len()
        invariant
            i <= draws@.len(),
            vertex_size > 0,
            vt == vertex_total,
            it == indices@.len(),
            forall|j: int|
                0 <= j < draws@.len() ==> vertex_start(#[trigger] draws@[j], vertex_size) + draws@[j].vertex_count
                    <= usize::MAX && draws@[j].index_offset + draws@[j].index_count <= usize::MAX,
            indices_rebase(draws@, deferred@, vt, indices@, vertex_size),
            out@.map_values(|m: StreamMesh| m.draw) == streamed_draws(draws@, i as int, deferred@, vt, it, vertex_size),
            forall|m: int| 0 <= m < out@.len() ==> #[trigger] mesh_is(out@[m], draws@, deferred@, indices@, vertex_size),
            forall|m: int| 0 <= m < out@.len() ==> #[trigger] out@[m].draw < i,
        decreases draws@.len() - i,
    {
        let d = draws[i];
        let ghost before = out@;
        if d.cullable {
            if deferred.contains(&i) {
                out.push(StreamMesh { draw: i, deferred: true, vertex_start: 0, vertex_end: 0, indices: Vec::new() });
            } else {
                let vstart = d.vertex_offset / vertex_size;
                let vend = vstart + d.vertex_count;
                let iend = d.index_offset + d.index_count;
                if vend <= vertex_total && iend <= indices.len() {
                    let vbase = vstart as u32;
                    proof {
                        assert(vstart as int == vertex_start(d, vertex_size));
                    }
                    let mut rel: Vec<u16> = Vec::new();
                    let mut t = d.index_offset;
                    while t < iend
                        invariant
                            d == draws@[i as int],
                            i < draws@.len(),
                            vstart as int == vertex_start(d, vertex_size),
                            vstart + d.vertex_count <= vertex_total,
                            iend == d.index_offset + d.index_count,
                            iend <= indices@.len(),
                            d.index_offset <= t <= iend,
                            vbase == vstart as u32,
                            d.cullable,
                            !deferred@.contains(i),
                            vt == vertex_total,
                            it == indices@.len(),
                            indices_rebase(draws@, deferred@, vt, indices@, vertex_size),
                            rel@ == indices@.subrange(d.index_offset as int, t as int).map_values(
                                |x: u32| (x - vertex_start(d, vertex_size)) as u16,
                            ),
                        decreases iend - t,
                    {
                        proof {
                            assert(streams(draws@[i as int], i as int, deferred@, vt, it, vertex_size));
                            assert(vertex_start(draws@[i as int], vertex_size) <= indices@[t as int]);
                            assert(vstart <= u32::MAX) by {
                                assert(vstart <= vertex_total);
                                assert(vertex_start(d, vertex_size) <= indices@[t as int]);
                            }
                        }
                        let x = indices[t];
                        rel.push((x - vbase) as u16);
                        proof {
                            assert(indices@.subrange(d.index_offset as int, t + 1) =~= indices@.subrange(
                                d.index_offset as int,
                                t as int,
                            ).push(x));
                        }
                        t += 1;
                    }
                    out.push(StreamMesh { draw: i, deferred: false, vertex_start: vstart, vertex_end: vend, indices: rel });
                }
            }
        }
        proof {
            assert forall|m: int| 0 <= m < out@.len() implies #[trigger] mesh_is(out@[m], draws@, deferred@, indices@, vertex_size) by {
                if m < before.len() {
                    assert(out@[m] == before[m]);
                }
            }
            assert(out@.map_values(|m: StreamMesh| m.draw) =~= streamed_draws(draws@, i + 1, deferred@, vt, it, vertex_size));
        }
        i += 1;
    }
    out
}

} // verus!
