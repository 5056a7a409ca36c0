//! The shared skinned buffers' layout: every skinned mesh gets a visible
//! template draw slot followed by `max_instances` hidden bind-pose copies for
//! runtime spawns, each with a vertex region of its own (the GPU skin fold
//! writes the deformed buffer by global vertex index, so two live instances
//! must never share one). A slot's indices, its level-of-detail alternates
//! included, are the mesh's indices rebased onto the slot's first vertex.
//! The vertex data itself is copied by the caller, slot by slot, in the
//! order the layout lists them.

use vstd::prelude::*;

verus! {

/// What the layout needs of one skinned mesh.
#[derive(Debug)]
pub struct SkinnedShape {
    /// Vertices in the mesh.
    pub vertex_count: usize,
    /// The mesh's index lists: the full-detail list first, then each
    /// level-of-detail alternate. Indices are relative to the mesh.
    pub lists: Vec<Vec<u16>>,
    /// Hidden copies reserved for runtime spawns.
    pub max_instances: u32,
    /// The mesh was read from a file a hot reload can re-import.
    pub has_source: bool,
}

/// A run of the shared index buffer.
#[derive(Clone, Copy, Debug, PartialEq, Eq, Structural)]
pub struct IndexRange {
    pub offset: usize,
    pub count: usize,
}

/// One draw slot of the shared skinned buffers.
#[derive(Debug)]
pub struct SkinnedSlot {
    /// The mesh the slot draws.
    pub shape: usize,
    /// The visible template (true), or a hidden copy for a runtime spawn.
    pub template: bool,
    /// The slot's first vertex in the shared vertex buffer.
    pub vertex_base: u32,
    /// Vertices in the slot.
    pub vertex_count: usize,
    /// Where each of the mesh's index lists landed, in list order.
    pub ranges: Vec<IndexRange>,
}

/// A reserved spawn copy: its template's slot and its own slot.
#[derive(Clone, Copy, Debug, PartialEq, Eq, Structural)]
pub struct Reservation {
    pub template: usize,
    pub copy: usize,
}

/// The layout of the shared skinned buffers.
#[derive(Debug)]
pub struct SkinnedLayout {
    /// Every draw slot, each mesh's template followed by its copies.
    pub slots: Vec<SkinnedSlot>,
    /// The shared index buffer.
    pub indices: Vec<u32>,
    /// Vertices in the shared vertex buffer.
    pub vertex_total: usize,
    /// The spawn pool: each copy paired with its template.
    pub reservations: Vec<Reservation>,
    /// When capturing reload sources: the template slot of each mesh read from
    /// a file, in mesh order.
    pub sources: Vec<usize>,
}

/// A mesh's index lists as values.
pub open spec fn lists_of(shape: SkinnedShape) -> Seq<Seq<u16>> {
    shape.lists@.map_values(|l: Vec<u16>| l@)
}

/// A mesh's slots: its template, then one copy per reserved instance.
pub open spec fn shape_blocks(i: int, copies: u32) -> Seq<(int, bool)> {
    seq![(i, true)] + Seq::new(copies as nat, |j: int| (i, false))
}

/// Every slot of the layout, as (mesh, template?) in layout order.
pub open spec fn blocks(shapes: Seq<SkinnedShape>) -> Seq<(int, bool)>
    decreases shapes.len(),
{
    if shapes.len() == 0 {
        Seq::empty()
    } else {
        blocks(shapes.drop_last()) + shape_blocks(shapes.len() - 1, shapes.last().max_instances)
    }
}

/// Vertices taken by a run of slots: the running vertex total.
pub open spec fn vertices_before(shapes: Seq<SkinnedShape>, bs: Seq<(int, bool)>) -> int
    decreases bs.len(),
{
    if bs.len() == 0 {
        0
    } else {
        vertices_before(shapes, bs.drop_last()) + shapes[bs.last().0].vertex_count
    }
}

/// A list of mesh indices rebased onto a slot's first vertex.
pub open spec fn rebased(list: Seq<u16>, base: int) -> Seq<u32> {
    list.map_values(|x: u16| (x + base) as u32)
}

/// A slot's indices: each of the mesh's lists rebased, in list order.
pub open spec fn block_indices(lists: Seq<Seq<u16>>, base: int) -> Seq<u32>
    decreases lists.len(),
{
    if lists.len() == 0 {
        Seq::empty()
    } else {
        block_indices(lists.drop_last(), base) + rebased(lists.last(), base)
    }
}

/// How many indices a mesh's lists hold together.
pub open spec fn index_total(lists: Seq<Seq<u16>>) -> int
    decreases lists.len(),
{
    if lists.len() == 0 {
        0
    } else {
        index_total(lists.drop_last()) + lists.last().len()
    }
}

/// Where each of a slot's lists lands when the slot's indices start at
/// `offset`.
pub open spec fn ranges_of(lists: Seq<Seq<u16>>, offset: int) -> Seq<IndexRange>
    decreases lists.len(),
{
    if lists.len() == 0 {
        Seq::empty()
    } else {
        ranges_of(lists.drop_last(), offset).push(
            IndexRange {
                offset: (offset + index_total(lists.drop_last())) as usize,
                count: lists.last().len() as usize,
            },
        )
    }
}

/// The shared index buffer after a run of slots.
pub open spec fn indices_of(shapes: Seq<SkinnedShape>, bs: Seq<(int, bool)>) -> Seq<u32>
    decreases bs.len(),
{
    if bs.len() == 0 {
        Seq::empty()
    } else {
        indices_of(shapes, bs.drop_last()) + block_indices(
            lists_of(shapes[bs.last().0]),
            vertices_before(shapes, bs.drop_last()),
        )
    }
}

/// The slot of the most recent template in a run of slots.
pub open spec fn last_template(bs: Seq<(int, bool)>) -> int
    decreases bs.len(),
{
    if bs.len() == 0 {
        0
    } else if bs.last().1 {
        bs.len() - 1
    } else {
        last_template(bs.drop_last())
    }
}

/// The spawn pool of a run of slots: each copy with its template.
pub open spec fn reservations_of(bs: Seq<(int, bool)>) -> Seq<Reservation>
    decreases bs.len(),
{
    if bs.len() == 0 {
        Seq::empty()
    } else if bs.last().1 {
        reservations_of(bs.drop_last())
    } else {
        reservations_of(bs.drop_last()).push(
            Reservation { template: last_template(bs.drop_last()) as usize, copy: (bs.len() - 1) as usize },
        )
    }
}

/// The reload-source entries of a run of slots: each template of a mesh read
/// from a file, when capturing.
pub open spec fn sources_of(shapes: Seq<SkinnedShape>, bs: Seq<(int, bool)>, capture: bool) -> Seq<usize>
    decreases bs.len(),
{
    if bs.len() == 0 {
        Seq::empty()
    } else if capture && bs.last().1 && shapes[bs.last().0].has_source {
        sources_of(shapes, bs.drop_last(), capture).push((bs.len() - 1) as usize)
    } else {
        sources_of(shapes, bs.drop_last(), capture)
    }
}

/// Slot `k` of a layout holds the mesh, kind, vertex region and index ranges
/// the running totals give it.
pub open spec fn slot_is(slot: SkinnedSlot, shapes: Seq<SkinnedShape>, bs: Seq<(int, bool)>, k: int) -> bool {
    &&& slot.shape == bs[k].0
    &&& slot.template == bs[k].1
    &&& slot.vertex_base == vertices_before(shapes, bs.take(k))
    &&& slot.vertex_count == shapes[bs[k].0].vertex_count
    &&& slot.ranges@ == ranges_of(lists_of(shapes[bs[k].0]), indices_of(shapes, bs.take(k)).len() as int)
}

/// A layout holds exactly the slots `bs` describes.
pub open spec fn layout_is(layout: SkinnedLayout, shapes: Seq<SkinnedShape>, bs: Seq<(int, bool)>, capture: bool) -> bool {
    &&& layout.slots@.len() == bs.len()
    &&& forall|k: int| 0 <= k < bs.len() ==> slot_is(#[trigger] layout.slots@[k], shapes, bs, k)
    &&& layout.indices@ == indices_of(shapes, bs)
    &&& layout.vertex_total == vertices_before(shapes, bs)
    &&& layout.reservations@ == reservations_of(bs)
    &&& layout.sources@ == sources_of(shapes, bs, capture)
}

/// Slot `k`'s vertex base and every index it rebases fit in `u32`.
pub open spec fn block_fits(shapes: Seq<SkinnedShape>, bs: Seq<(int, bool)>, k: int) -> bool {
    let base = vertices_before(shapes, bs.take(k));
    let lists = lists_of(shapes[bs[k].0]);
    &&& base <= u32::MAX
    &&& forall|l: int, t: int| 0 <= l < lists.len() && 0 <= t < lists[l].len() ==> base + #[trigger] lists[l][t] <= u32::MAX
}

/// The layout fits: no slot's vertex base or rebased index leaves `u32`, and
/// the vertex total fits in `usize`.
pub open spec fn layout_fits(shapes: Seq<SkinnedShape>) -> bool {
    &&& forall|k: int| 0 <= k < blocks(shapes).len() ==> #[trigger] block_fits(shapes, blocks(shapes), k)
    &&& vertices_before(shapes, blocks(shapes)) <= usize::MAX
}

proof fn lemma_shape_blocks_valid(shapes: Seq<SkinnedShape>)
    ensures
        forall|k: int| 0 <= k < blocks(shapes).len() ==> 0 <= #[trigger] blocks(shapes)[k].0 < shapes.len(),
    decreases shapes.len(),
{
    if shapes.len() > 0 {
        lemma_shape_blocks_valid(shapes.drop_last());
        let a = blocks(shapes.drop_last());
        let b = shape_blocks(shapes.len() - 1, shapes.last().max_instances);
        assert forall|k: int| 0 <= k < blocks(shapes).len() implies 0 <= #[trigger] blocks(shapes)[k].0 < shapes.len() by {
            if k < a.len() {
                assert(blocks(shapes)[k] == a[k]);
            } else {
                assert(blocks(shapes)[k] == b[k - a.len()]);
            }
        }
    }
}

/// The slots of the first `i` meshes open the layout's slots.
proof fn lemma_blocks_prefix(shapes: Seq<SkinnedShape>, i: int)
    requires
        0 <= i <= shapes.len(),
    ensures
        blocks(shapes.take(i)).len() <= blocks(shapes).len(),
        blocks(shapes).take(blocks(shapes.take(i)).len() as int) == blocks(shapes.take(i)),
    decreases shapes.len() - i,
{
    if i == shapes.len() {
        assert(shapes.take(i) =~= shapes);
        assert(blocks(shapes).take(blocks(shapes).len() as int) =~= blocks(shapes));
    } else {
        lemma_blocks_prefix(shapes, i + 1);
        assert(shapes.take(i + 1).drop_last() =~= shapes.take(i));
        let a = blocks(shapes.take(i));
        let b = blocks(shapes.take(i + 1));
        assert(b.take(a.len() as int) =~= a);
        assert(blocks(shapes).take(a.len() as int) =~= blocks(shapes).take(b.len() as int).take(a.len() as int));
    }
}

proof fn lemma_vertices_monotone(shapes: Seq<SkinnedShape>, bs: Seq<(int, bool)>, k: int)
    requires
        0 <= k <= bs.len(),
        forall|j: int| 0 <= j < bs.len() ==> 0 <= #[trigger] bs[j].0 < shapes.len(),
    ensures
        vertices_before(shapes, bs.take(k)) <= vertices_before(shapes, bs),
    decreases bs.len() - k,
{
    if k < bs.len() {
        lemma_vertices_monotone(shapes, bs, k + 1);
        assert(bs.take(k + 1).drop_last() =~= bs.take(k));
    } else {
        assert(bs.take(k) =~= bs);
    }
}

proof fn lemma_block_indices_len(lists: Seq<Seq<u16>>, base: int)
    ensures
        block_indices(lists, base).len() == index_total(lists),
        ranges_of(lists, 0).len() == lists.len(),
    decreases lists.len(),
{
    if lists.len() > 0 {
        lemma_block_indices_len(lists.drop_last(), base);
    }
}

proof fn lemma_ranges_len(lists: Seq<Seq<u16>>, offset: int)
    ensures
        ranges_of(lists, offset).len() == lists.len(),
    decreases lists.len(),
{
    if lists.len() > 0 {
        lemma_ranges_len(lists.drop_last(), offset);
    }
}

/// Append one slot of mesh `i` to the layout.
fn append_block(
    layout: &mut SkinnedLayout,
    shapes: &[SkinnedShape],
    i: usize,
    template: bool,
    template_slot: usize,
    capture: bool,
    Ghost(bs): Ghost<Seq<(int, bool)>>,
)
    requires
        i < shapes@.len(),
        layout_is(*old(layout), shapes@, bs, capture),
        forall|j: int| 0 <= j < bs.len() ==> 0 <= #[trigger] bs[j].0 < shapes@.len(),
        !template ==> template_slot == last_template(bs) && bs.len() > 0,
        block_fits(shapes@, bs.push((i as int, template)), bs.len() as int),
        vertices_before(shapes@, bs) + shapes@[i as int].vertex_count <= usize::MAX,
        bs.len() < usize::MAX,
    ensures
        layout_is(*final(layout), shapes@, bs.push((i as int, template)), capture),
{
    let ghost nbs = bs.push((i as int, template));
    let ghost lists = lists_of(shapes@[i as int]);
    proof {
        assert(nbs.take(bs.len() as int) =~= bs);
        assert(nbs.drop_last() =~= bs);
    }
    let base = layout.vertex_total as u32;
    let start = layout.indices.len();
    let shape = &shapes[i];
    let mut ranges: Vec<IndexRange> = Vec::new();
    let mut l: usize = 0;
    while l < shape.lists.len()
        invariant
            l <= shape.lists@.len(),
            lists == lists_of(*shape),
            base == vertices_before(shapes@, bs),
            block_fits(shapes@, nbs, bs.len() as int),
            nbs.take(bs.len() as int) == bs,
            nbs[bs.len() as int].0 == i,
            shape == shapes@[i as int],
            start == indices_of(shapes@, bs).len(),
            layout.indices@ == indices_of(shapes@, bs) + block_indices(lists.take(l as int), base as int),
            ranges@ == ranges_of(lists.take(l as int), start as int),
            layout.slots@ == old(layout).slots@,
            layout.vertex_total == old(layout).vertex_total,
            layout.reservations@ == old(layout).reservations@,
            layout.sources@ == old(layout).sources@,
        decreases shape.lists@.len() - l,
    {
        proof {
            assert(lists.take(l + 1).drop_last() =~= lists.take(l as int));
            assert(lists.take(l + 1).last() == lists[l as int]);
            lemma_block_indices_len(lists.take(l as int), base as int);
        }
        let list = &shape.lists[l];
        let ghost head = layout.indices@;
        ranges.push(IndexRange { offset: layout.indices.len(), count: list.len() });
        let mut t: usize = 0;
        while t < list.len()
            invariant
                t <= list@.len(),
                list@ == lists[l as int],
                l < lists.len(),
                base == vertices_before(shapes@, bs),
                block_fits(shapes@, nbs, bs.len() as int),
                nbs.take(bs.len() as int) == bs,
                nbs[bs.len() as int].0 == i,
                lists == lists_of(shapes@[i as int]),
                layout.indices@ == head + rebased(list@.take(t as int), base as int),
                layout.slots@ == old(layout).slots@,
                layout.vertex_total == old(layout).vertex_total,
                layout.reservations@ == old(layout).reservations@,
                layout.sources@ == old(layout).sources@,
            decreases list@.len() - t,
        {
            proof {
                assert(lists[l as int][t as int] == list@[t as int]);
                assert(base + lists[l as int][t as int] <= u32::MAX);
            }
            let x = list[t] as u32 + base;
            layout.indices.push(x);
            proof {
                assert(rebased(list@.take(t + 1), base as int) =~= rebased(list@.take(t as int), base as int).push(x));
            }
            t += 1;
        }
        proof {
            assert(list@.take(t as int) =~= list@);
            assert(layout.indices@ =~= indices_of(shapes@, bs) + block_indices(lists.take(l + 1), base as int));
        }
        l += 1;
    }
    proof {
        assert(lists.take(l as int) =~= lists);
        lemma_ranges_len(lists, start as int);
    }
    let vertex_count = shape.vertex_count;
    let k = layout.slots.len();
    let ghost old_slots = layout.slots@;
    layout.slots.push(SkinnedSlot { shape: i, template, vertex_base: base, vertex_count, ranges });
    layout.vertex_total = layout.vertex_total + vertex_count;
    if !template {
        layout.reservations.push(Reservation { template: template_slot, copy: k });
    }
    if capture && template && shape.has_source {
        layout.sources.push(k);
    }
    proof {
        assert forall|j: int| 0 <= j < nbs.len() implies slot_is(#[trigger] layout.slots@[j], shapes@, nbs, j) by {
            if j < bs.len() {
                assert(layout.slots@[j] == old_slots[j]);
                assert(slot_is(old_slots[j], shapes@, bs, j));
                assert(nbs.take(j) =~= bs.take(j));
                assert(nbs[j] == bs[j]);
            }
        }
    }
}

/// Lay out the shared skinned buffers: for each mesh in order, a visible
/// template slot and then `max_instances` hidden copies, every slot taking
/// the next vertex region and the next run of indices (its lists rebased onto
/// its first vertex); each copy is reserved for its template, and, when
/// capturing, each template of a mesh read from a file is recorded.
pub fn skinned_layout(shapes: &[SkinnedShape], capture_sources: bool) -> (r: SkinnedLayout)
    requires
        layout_fits(shapes@),
        blocks(shapes@).len() < usize::MAX,
    ensures
        layout_is(r, shapes@, blocks(shapes@), capture_sources),
{
    let mut layout = SkinnedLayout {
        slots: Vec::new(),
        indices: Vec::new(),
        vertex_total: 0,
        reservations: Vec::new(),
        sources: Vec::new(),
    };
    let ghost all = blocks(shapes@);
    proof {
        lemma_shape_blocks_valid(shapes@);
        assert(shapes@.take(0) =~= Seq::<SkinnedShape>::empty());
    }
    let mut i: usize = 0;
    while i < shapes.len()
        invariant
            i <= shapes@.len(),
            all == blocks(shapes@),
            layout_fits(shapes@),
            all.len() < usize::MAX,
            forall|k: int| 0 <= k < all.len() ==> 0 <= #[trigger] all[k].0 < shapes@.len(),
            layout_is(layout, shapes@, blocks(shapes@.take(i as int)), capture_sources),
        decreases shapes@.len() - i,
    {
        let ghost done = blocks(shapes@.take(i as int));
        let ghost mine = shape_blocks(i as int, shapes@[i as int].max_instances);
        proof {
            assert(shapes@.take(i + 1).drop_last() =~= shapes@.take(i as int));
            assert(blocks(shapes@.take(i + 1)) == done + mine);
            lemma_blocks_prefix(shapes@, i + 1);
            lemma_blocks_prefix(shapes@, i as int);
            assert(mine.take(0) =~= Seq::<(int, bool)>::empty());
            assert(done + mine.take(0) =~= done);
        }
        let template_slot = layout.slots.len();
        let copies = shapes[i].max_instances;
        let mut c: u32 = 0;
        let mut first = true;
        while first || c < copies
            invariant
                i < shapes@.len(),
                all == blocks(shapes@),
                layout_fits(shapes@),
                all.len() < usize::MAX,
                forall|k: int| 0 <= k < all.len() ==> 0 <= #[trigger] all[k].0 < shapes@.len(),
                done == blocks(shapes@.take(i as int)),
                mine == shape_blocks(i as int, shapes@[i as int].max_instances),
                copies == shapes@[i as int].max_instances,
                all.take((done.len() + mine.len()) as int) == done + mine,
                done.len() + mine.len() <= all.len(),
                mine.len() == copies + 1,
                c <= copies,
                template_slot == done.len(),
                first ==> c == 0,
                layout_is(
                    layout,
                    shapes@,
                    done + mine.take(if first { 0 } else { c + 1 }),
                    capture_sources,
                ),
            decreases (if first { 1int } else { 0int }) + copies - c,
        {
            let ghost m = if first { 0int } else { c + 1 };
            let ghost cur = done + mine.take(m);
            let ghost k = cur.len() as int;
            proof {
                let n = (done.len() + mine.len()) as int;
                assert(k < n);
                assert(mine.take(m + 1) =~= mine.take(m).push(mine[m]));
                assert(cur.push(mine[m]) =~= done + mine.take(m + 1));
                assert(all[k] == all.take(n)[k]);
                assert((done + mine)[k] == mine[m]);
                assert(all[k] == mine[m]);
                assert(all.take(k) =~= all.take(n).take(k));
                assert((done + mine).take(k) =~= cur);
                assert(all.take(k) =~= cur);
                assert forall|j: int| 0 <= j < cur.len() implies 0 <= #[trigger] cur[j].0 < shapes@.len() by {
                    assert(cur[j] == all.take(k)[j]);
                    assert(all.take(k)[j] == all[j]);
                }
                assert(block_fits(shapes@, all, k));
                assert(all.take(k + 1).take(k) =~= cur);
                assert(all.take(k + 1)[k] == all[k]);
                assert(cur.push(mine[m]) =~= all.take(k + 1));
                lemma_vertices_monotone(shapes@, all, k + 1);
                assert(all.take(k + 1).drop_last() =~= cur);
                if !first {
                    assert(last_template(done + mine.take(1)) == done.len());
                    lemma_last_template_copies(done, mine, m);
                }
            }
            append_block(&mut layout, shapes, i, first, template_slot, capture_sources, Ghost(cur));
            if first {
                first = false;
            } else {
                c = c + 1;
            }
        }
        proof {
            assert(mine.take(c + 1) =~= mine);
        }
        i += 1;
    }
    proof {
        assert(shapes@.take(i as int) =~= shapes@);
    }
    layout
}

proof fn lemma_last_template_copies(done: Seq<(int, bool)>, mine: Seq<(int, bool)>, m: int)
    requires
        1 <= m <= mine.len(),
        mine[0].1,
        forall|j: int| 1 <= j < mine.len() ==> !(#[trigger] mine[j].1),
    ensures
        last_template(done + mine.take(m)) == done.len(),
    decreases m,
{
    let s = done + mine.take(m);
    if m == 1 {
        assert(s.last() == mine[0]);
    } else {
        assert(s.last() == mine[m - 1]);
        assert(s.drop_last() =~= done + mine.take(m - 1));
        lemma_last_template_copies(done, mine, m - 1);
    }
}

/// Every slot owns its vertex region: a slot's vertices end at or before the
/// first vertex of every later slot, so no two slots share a vertex.
pub proof fn lemma_regions_disjoint(shapes: Seq<SkinnedShape>, k1: int, k2: int)
    requires
        0 <= k1 < k2 <= blocks(shapes).len(),
    ensures
        vertices_before(shapes, blocks(shapes).take(k1)) + shapes[blocks(shapes)[k1].0].vertex_count
            <= vertices_before(shapes, blocks(shapes).take(k2)),
{
    let bs = blocks(shapes);
    lemma_shape_blocks_valid(shapes);
    assert(bs.take(k1 + 1).drop_last() =~= bs.take(k1));
    assert(bs.take(k1 + 1).last() == bs[k1]);
    assert(bs.take(k2).take(k1 + 1) =~= bs.take(k1 + 1));
    assert forall|j: int| 0 <= j < bs.take(k2).len() implies 0 <= #[trigger] bs.take(k2)[j].0 < shapes.len() by {
        assert(bs.take(k2)[j] == bs[j]);
    }
    lemma_vertices_monotone(shapes, bs.take(k2), k1 + 1);
}

} // verus!
