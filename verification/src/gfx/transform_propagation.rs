//! The parent hierarchy behind transform propagation. Every entity that owns a
//! transform gets a dense slot; parents, depths, the shallowest-first order and
//! the children index are parallel tables indexed by slot. A full resolve
//! computes each slot's depth (detecting parent cycles), orders the slots
//! shallowest-first by a counting sort, and inverts the parent table into a
//! compressed-row children index, so one forward pass over the order composes
//! every chain and a subtree walk can descend from any slot.

use vstd::prelude::*;
use crate::count::{
    count, lemma_count_mono_strict, lemma_count_bound, lemma_count_ext, lemma_count_key_step, lemma_count_none,
    lemma_sorted_position_bound, lemma_sorted_position_lt, lemma_sorted_position_rank,
    sorted_position, count_eq, count_lt, lemma_count_key_bound, lemma_count_lt_zero, lemma_count_lt_mono, lemma_count_eq_prefix,
};

verus! {

/// Slot sentinel for "no parent".
pub const NO_SLOT: u32 = 0xffff_ffff;
/// Depth of a slot whose ancestor chain loops, or that descends from one.
pub const CYCLIC: u32 = 0xffff_ffff;
/// Depth mark of a slot the depth walk is currently descending through.
pub const VISITING: u32 = 0xffff_fffe;
/// Initial depth mark.
pub const UNVISITED: u32 = 0xffff_fffd;

/// A parent table every resolve accepts: each entry is a slot of the table or
/// `NO_SLOT`, and the table is small enough that every depth stays clear of the
/// sentinels.
pub open spec fn parents_wf(parent: Seq<u32>) -> bool {
    &&& parent.len() < UNVISITED
    &&& forall|s: int|
        0 <= s < parent.len() ==> #[trigger] parent[s] == NO_SLOT || parent[s] < parent.len()
}

/// The depth one below a parent of depth `d`: cyclic stays cyclic.
pub open spec fn below(d: u32) -> u32 {
    if d == CYCLIC {
        CYCLIC
    } else {
        (d + 1) as u32
    }
}

/// `depth` solves the depth equations of `parent`: a root has depth 0, any
/// other slot sits one below its parent, and cyclic propagates downwards.
/// Every finite depth is below the slot count.
pub open spec fn depths_resolve(parent: Seq<u32>, depth: Seq<u32>) -> bool {
    &&& depth.len() == parent.len()
    &&& forall|s: int|
        0 <= s < depth.len() ==> #[trigger] depth[s] == CYCLIC || depth[s] < depth.len()
    &&& forall|s: int|
        0 <= s < parent.len() && #[trigger] parent[s] == NO_SLOT ==> depth[s] == 0
    &&& forall|s: int|
        0 <= s < parent.len() && #[trigger] parent[s] != NO_SLOT ==> depth[s] == below(
            depth[parent[s] as int],
        )
}

/// The `k`-th ancestor of slot `s` (`s` itself for `k == 0`), or -1 once the
/// chain has left the table through a root.
pub open spec fn ancestor(parent: Seq<u32>, s: int, k: nat) -> int
    decreases k,
{
    if k == 0 {
        s
    } else {
        let a = ancestor(parent, s, (k - 1) as nat);
        if 0 <= a < parent.len() && parent[a] != NO_SLOT {
            parent[a] as int
        } else {
            -1
        }
    }
}

/// Slot `s` is a root: a slot of the table with no parent.
pub open spec fn is_root(parent: Seq<u32>, s: int) -> bool {
    0 <= s < parent.len() && parent[s] == NO_SLOT
}


proof fn lemma_finite_chain(parent: Seq<u32>, depth: Seq<u32>, s: int, k: nat)
    requires
        parents_wf(parent),
        depths_resolve(parent, depth),
        0 <= s < parent.len(),
        depth[s] != CYCLIC,
        k <= depth[s],
    ensures
        0 <= ancestor(parent, s, k) < parent.len(),
        depth[ancestor(parent, s, k)] == depth[s] - k,
    decreases k,
{
    if k > 0 {
        lemma_finite_chain(parent, depth, s, (k - 1) as nat);
        let a = ancestor(parent, s, (k - 1) as nat);
        assert(depth[a] > 0);
        assert(parent[a] != NO_SLOT);
        assert(depth[a] == below(depth[parent[a] as int]));
    }
}

proof fn lemma_cyclic_chain(parent: Seq<u32>, depth: Seq<u32>, s: int, k: nat)
    requires
        parents_wf(parent),
        depths_resolve(parent, depth),
        0 <= s < parent.len(),
        depth[s] == CYCLIC,
    ensures
        0 <= ancestor(parent, s, k) < parent.len(),
        depth[ancestor(parent, s, k)] == CYCLIC,
    decreases k,
{
    if k > 0 {
        lemma_cyclic_chain(parent, depth, s, (k - 1) as nat);
        let a = ancestor(parent, s, (k - 1) as nat);
        assert(parent[a] != NO_SLOT);
        let p = parent[a] as int;
        assert(depth[a] == below(depth[p]));
        if depth[p] != CYCLIC {
            assert(depth[p] < depth.len());
        }
    }
}

/// Law: a resolved slot's depth is the number of parent steps from it to a
/// root, and a slot is marked cyclic exactly when its ancestor chain never
/// reaches a root.
pub proof fn lemma_depth_is_root_distance(parent: Seq<u32>, depth: Seq<u32>, s: int)
    requires
        parents_wf(parent),
        depths_resolve(parent, depth),
        0 <= s < parent.len(),
    ensures
        depth[s] != CYCLIC ==> is_root(parent, ancestor(parent, s, depth[s] as nat)),
        depth[s] != CYCLIC ==> forall|k: nat|
            k < depth[s] ==> !is_root(parent, #[trigger] ancestor(parent, s, k)),
        depth[s] == CYCLIC <==> forall|k: nat| !is_root(parent, #[trigger] ancestor(parent, s, k)),
{
    if depth[s] != CYCLIC {
        let d = depth[s] as nat;
        lemma_finite_chain(parent, depth, s, d);
        let r = ancestor(parent, s, d);
        if parent[r] != NO_SLOT {
            assert(depth[r] == below(depth[parent[r] as int]));
        }
        assert forall|k: nat| k < depth[s] implies !is_root(parent, #[trigger] ancestor(parent, s, k)) by {
            lemma_finite_chain(parent, depth, s, k);
        }
        assert(!(forall|k: nat| !is_root(parent, #[trigger] ancestor(parent, s, k))));
    } else {
        assert forall|k: nat| !is_root(parent, #[trigger] ancestor(parent, s, k)) by {
            lemma_cyclic_chain(parent, depth, s, k);
        }
    }
}


/// `u` comes before `t` in the shallowest-first order: the shallower finite
/// depth first, every cyclic slot after every finite one, ties by slot.
pub open spec fn precedes(depth: Seq<u32>, u: int, t: int) -> bool {
    if depth[u] == depth[t] {
        u < t
    } else if depth[u] == CYCLIC {
        false
    } else if depth[t] == CYCLIC {
        true
    } else {
        depth[u] < depth[t]
    }
}

/// Where slot `t` belongs in the shallowest-first order: after every slot that
/// precedes it.
pub open spec fn order_rank(depth: Seq<u32>, t: int) -> nat {
    count(depth.len() as int, |u: int| precedes(depth, u, t))
}

// The counting sort's bucket of a slot: its depth, or the bucket past the
// deepest level for a cyclic slot.
spec fn depth_bucket(depth: Seq<u32>, cyclic_bucket: int) -> spec_fn(int) -> int {
    |s: int| if depth[s] == CYCLIC { cyclic_bucket } else { depth[s] as int }
}


/// Law: in the shallowest-first order every finite-depth slot comes after its
/// parent, so one forward pass over the order composes each chain from an
/// already composed parent.
pub proof fn lemma_parent_precedes_child(parent: Seq<u32>, depth: Seq<u32>, s: int)
    requires
        parents_wf(parent),
        depths_resolve(parent, depth),
        0 <= s < parent.len(),
        parent[s] != NO_SLOT,
        depth[s] != CYCLIC,
    ensures
        order_rank(depth, parent[s] as int) < order_rank(depth, s),
{
    let p = parent[s] as int;
    let n = depth.len() as int;
    assert(depth[s] == below(depth[p]));
    assert(depth[p] != CYCLIC);
    lemma_count_mono_strict(n, |u: int| precedes(depth, u, p), |u: int| precedes(depth, u, s), p);
}

/// Law: each slot with a parent sits inside its parent's row of the children
/// index.
pub proof fn lemma_child_in_parent_row(parent: Seq<u32>, s: int)
    requires
        parents_wf(parent),
        0 <= s < parent.len(),
        parent[s] != NO_SLOT,
    ensures
        count_lt(parent_key(parent), parent.len() as int, parent[s] as int) <= sorted_position(
            parent_key(parent),
            parent.len() as int,
            s,
        ) < count_lt(parent_key(parent), parent.len() as int, parent[s] as int + 1),
{
    let key = parent_key(parent);
    let n = parent.len() as int;
    lemma_count_eq_prefix(key, s, n, parent[s] as int);
    lemma_count_key_step(key, n, parent[s] as int);
}

// ----- depth walk bookkeeping -----

spec fn settled(v: u32) -> bool {
    v != UNVISITED && v != VISITING
}

spec fn count_settled(d: Seq<u32>) -> nat {
    count(d.len() as int, |i: int| settled(d[i]))
}

spec fn count_unvisited(d: Seq<u32>) -> nat {
    count(d.len() as int, |i: int| d[i] == UNVISITED)
}

proof fn lemma_count_update(d: Seq<u32>, i: int, v: u32, f: spec_fn(u32) -> bool)
    requires
        0 <= i < d.len(),
    ensures
        count(d.len() as int, |j: int| f(d.update(i, v)[j])) + (if f(d[i]) { 1int } else { 0int })
            == count(d.len() as int, |j: int| f(d[j])) + (if f(v) { 1int } else { 0int }),
    decreases d.len(),
{
    let e = d.update(i, v);
    let m = d.len() as int;
    if i == m - 1 {
        lemma_count_ext(m - 1, |j: int| f(e[j]), |j: int| f(d[j]));
    } else {
        let d2 = d.drop_last();
        lemma_count_update(d2, i, v, f);
        assert(d2.update(i, v) =~= e.drop_last());
        lemma_count_ext(m - 1, |j: int| f(e[j]), |j: int| f(e.drop_last()[j]));
        lemma_count_ext(m - 1, |j: int| f(d[j]), |j: int| f(d2[j]));
    }
}

proof fn lemma_settled_update(d: Seq<u32>, i: int, v: u32)
    requires
        0 <= i < d.len(),
    ensures
        count_settled(d.update(i, v)) + (if settled(d[i]) { 1int } else { 0int })
            == count_settled(d) + (if settled(v) { 1int } else { 0int }),
        count_unvisited(d.update(i, v)) + (if d[i] == UNVISITED { 1int } else { 0int })
            == count_unvisited(d) + (if v == UNVISITED { 1int } else { 0int }),
{
    let fs = |x: u32| settled(x);
    let fu = |x: u32| x == UNVISITED;
    lemma_count_update(d, i, v, fs);
    lemma_count_update(d, i, v, fu);
    let e = d.update(i, v);
    let m = d.len() as int;
    lemma_count_ext(m, |j: int| fs(e[j]), |j: int| settled(e[j]));
    lemma_count_ext(m, |j: int| fs(d[j]), |j: int| settled(d[j]));
    lemma_count_ext(m, |j: int| fu(e[j]), |j: int| e[j] == UNVISITED);
    lemma_count_ext(m, |j: int| fu(d[j]), |j: int| d[j] == UNVISITED);
}

// The depth the path's `j`-th slot receives when the walk resolved its top
// against `base`.
spec fn path_depth(base: u32, plen: int, j: int) -> u32 {
    if base == CYCLIC {
        CYCLIC
    } else {
        (base + (plen - 1 - j)) as u32
    }
}

/// The key the children index groups slots by: the parent slot (`NO_SLOT`
/// sorts past every slot, so roots fall in no row).
pub open spec fn parent_key(parent: Seq<u32>) -> spec_fn(int) -> int {
    |s: int| parent[s] as int
}

/// The walk's state between starts: no slot is mid-walk, and every settled slot
/// has a settled parent and solves its depth equation, with finite depths below
/// the number of settled slots.
spec fn partial_ok(parent: Seq<u32>, d: Seq<u32>) -> bool {
    &&& d.len() == parent.len()
    &&& forall|s: int| 0 <= s < d.len() ==> #[trigger] d[s] != VISITING
    &&& forall|s: int|
        0 <= s < d.len() && settled(#[trigger] d[s]) ==> d[s] == CYCLIC || d[s] < count_settled(d)
    &&& forall|s: int|
        0 <= s < d.len() && settled(#[trigger] d[s]) && parent[s] == NO_SLOT ==> d[s] == 0
    &&& forall|s: int|
        0 <= s < d.len() && settled(#[trigger] d[s]) && parent[s] != NO_SLOT ==> settled(
            d[parent[s] as int],
        ) && d[s] == below(d[parent[s] as int])
}

/// The reusable slot tables of a transform propagation pass.
pub struct TransformCache {
    /// Each slot's parent slot, `NO_SLOT` for a root.
    pub parent: Vec<u32>,
    /// Each slot's depth: 0 for a root, `CYCLIC` inside or below a parent loop.
    pub depth: Vec<u32>,
    /// Slots shallowest-first, cyclic slots last.
    pub order: Vec<u32>,
    /// Row starts of the children index: slot `s`'s children are
    /// `child_list[child_start[s]..child_start[s + 1]]`.
    pub child_start: Vec<u32>,
    /// The children of every slot, row by row.
    pub child_list: Vec<u32>,
    /// Scratch: the depth walk's ancestor path.
    pub path: Vec<u32>,
    /// Scratch: the counting sort's running offsets.
    pub offsets: Vec<u32>,
}

impl TransformCache {
    /// An empty cache.
    pub fn new() -> (r: Self)
        ensures
            r.parent@.len() == 0,
            r.depth@.len() == 0,
            r.order@.len() == 0,
            r.child_start@.len() == 0,
            r.child_list@.len() == 0,
            r.path@.len() == 0,
            r.offsets@.len() == 0,
    {
        TransformCache {
            parent: Vec::new(),
            depth: Vec::new(),
            order: Vec::new(),
            child_start: Vec::new(),
            child_list: Vec::new(),
            path: Vec::new(),
            offsets: Vec::new(),
        }
    }

    /// Rebuild every slot table from a parent table: each slot's depth, the
    /// shallowest-first order, and the children index.
    pub fn resolve(&mut self, parent: Vec<u32>)
        requires
            parents_wf(parent@),
        ensures
            final(self).parent@ == parent@,
            children_indexed(*final(self)),
            depths_resolve(parent@, final(self).depth@),
            final(self).order@.len() == parent@.len(),
            forall|t: int|
                0 <= t < parent@.len() ==> final(self).order@[order_rank(final(self).depth@, t) as int]
                    == t,
            ({
                let n = parent@.len() as int;
                let key = parent_key(parent@);
                &&& final(self).child_start@.len() == n + 1
                &&& forall|p: int| 0 <= p <= n ==> #[trigger] final(self).child_start@[p] == count_lt(key, n, p)
                &&& final(self).child_list@.len() == count_lt(key, n, n)
                &&& forall|s: int| 0 <= s < n && parent@[s] != NO_SLOT ==> final(self).child_list@[
                    #[trigger] sorted_position(key, n, s) as int] == s
            }),
    {
        self.parent = parent;
        self.compute_depths();
        self.order_by_depth();
        self.build_children();
    }

    /// Depth of every slot: 0 for a root, parent depth + 1 otherwise, `CYCLIC`
    /// for a slot whose ancestor chain loops. Iterative over an explicit
    /// ancestor path and memoized, so each slot is resolved once.
    pub fn compute_depths(&mut self)
        requires
            parents_wf(old(self).parent@),
        ensures
            final(self).parent@ == old(self).parent@,
            final(self).order@ == old(self).order@,
            final(self).child_start@ == old(self).child_start@,
            final(self).child_list@ == old(self).child_list@,
            depths_resolve(final(self).parent@, final(self).depth@),
    {
        let n = self.parent.len();
        self.depth.clear();
        self.depth.resize(n, UNVISITED);
        proof {
            assert(self.depth@ =~= Seq::new(n as nat, |i: int| UNVISITED));
            lemma_count_none(n as int, |i: int| settled(self.depth@[i]));
        }
        let mut start: usize = 0;
        while start < n
            invariant
                n == self.parent@.len(),
                parents_wf(self.parent@),
                self.parent@ == old(self).parent@,
                self.order@ == old(self).order@,
                self.child_start@ == old(self).child_start@,
                self.child_list@ == old(self).child_list@,
                start <= n,
                partial_ok(self.parent@, self.depth@),
                forall|s: int| 0 <= s < start ==> settled(#[trigger] self.depth@[s]),
            decreases n - start,
        {
            if self.depth[start] != UNVISITED {
                start += 1;
                continue;
            }
            let ghost before = self.depth@;
            self.walk_from(start);
            proof {
                assert forall|s: int| 0 <= s < start + 1 implies settled(
                    #[trigger] self.depth@[s],
                ) by {
                    if s < start {
                        assert(settled(before[s]));
                    }
                }
            }
            start += 1;
        }
        proof {
            let d = self.depth@;
            lemma_count_bound(n as int, |i: int| settled(d[i]));
            assert forall|s: int| 0 <= s < n implies #[trigger] d[s] == CYCLIC || d[s] < n by {
                assert(settled(d[s]));
            }
            assert forall|s: int|
                0 <= s < n && #[trigger] self.parent@[s] != NO_SLOT implies d[s] == below(
                d[self.parent@[s] as int],
            ) by {
                assert(settled(d[s]));
            }
            assert forall|s: int|
                0 <= s < n && #[trigger] self.parent@[s] == NO_SLOT implies d[s] == 0 by {
                assert(settled(d[s]));
            }
        }
    }

    /// Order the slots shallowest-first by counting sort, with the cyclic slots
    /// in a bucket of their own past the deepest real level. Equal depths keep
    /// slot order.
    pub fn order_by_depth(&mut self)
        requires
            parents_wf(old(self).parent@),
            depths_resolve(old(self).parent@, old(self).depth@),
        ensures
            final(self).parent@ == old(self).parent@,
            final(self).depth@ == old(self).depth@,
            final(self).child_start@ == old(self).child_start@,
            final(self).child_list@ == old(self).child_list@,
            final(self).order@.len() == final(self).depth@.len(),
            forall|t: int|
                0 <= t < final(self).depth@.len() ==> final(self).order@[order_rank(
                    final(self).depth@,
                    t,
                ) as int] == t,
    {
        let n = self.depth.len();
        let ghost dep = self.depth@;
        let mut deepest: u32 = 0;
        let mut i: usize = 0;
        while i < n
            invariant
                n == dep.len(),
                self.depth@ == dep,
                self.parent@ == old(self).parent@,
                self.child_start@ == old(self).child_start@,
                self.child_list@ == old(self).child_list@,
                dep == old(self).depth@,
                parents_wf(old(self).parent@),
                depths_resolve(old(self).parent@, dep),
                depths_resolve(self.parent@, dep),
                i <= n,
                deepest < n || deepest == 0,
                forall|s: int| 0 <= s < i && dep[s] != CYCLIC ==> dep[s] <= deepest,
            decreases n - i,
        {
            let d = self.depth[i];
            if d != CYCLIC && d > deepest {
                deepest = d;
            }
            i += 1;
        }
        let deepest = deepest as usize;
        let cyclic_bucket = deepest + 1;
        let ghost key = depth_bucket(dep, cyclic_bucket as int);
        self.offsets.clear();
        self.offsets.resize(cyclic_bucket + 1, 0);
        proof {
            assert forall|b: int| 0 <= b <= cyclic_bucket implies #[trigger] self.offsets@[b] == count_eq(
                key, 0, b) by {}
        }
        let mut i: usize = 0;
        while i < n
            invariant
                n == dep.len(),
                self.depth@ == dep,
                self.parent@ == old(self).parent@,
                self.child_start@ == old(self).child_start@,
                self.child_list@ == old(self).child_list@,
                dep == old(self).depth@,
                parents_wf(old(self).parent@),
                depths_resolve(old(self).parent@, dep),
                depths_resolve(self.parent@, dep),
                cyclic_bucket == deepest + 1,
                deepest < n || deepest == 0,
                n < UNVISITED,
                forall|s: int| 0 <= s < n && dep[s] != CYCLIC ==> dep[s] <= deepest,
                key == depth_bucket(dep, cyclic_bucket as int),
                i <= n,
                self.offsets@.len() == cyclic_bucket + 1,
                forall|b: int| 0 <= b <= cyclic_bucket ==> #[trigger] self.offsets@[b] == count_eq(
                    key, i as int, b),
            decreases n - i,
        {
            let d = self.depth[i];
            let bucket = if d == CYCLIC {
                cyclic_bucket
            } else {
                d as usize
            };
            let c = self.offsets[bucket];
            proof {
                assert(bucket <= cyclic_bucket);
                lemma_count_key_bound(key, i as int, bucket as int);
            }
            self.offsets.set(bucket, c + 1);
            i += 1;
        }
        proof {
            lemma_count_lt_zero(key, n as int);
        }
        let mut offset: u32 = 0;
        let mut b: usize = 0;
        let nb = self.offsets.len();
        while b < nb
            invariant
                n == dep.len(),
                self.depth@ == dep,
                self.parent@ == old(self).parent@,
                self.child_start@ == old(self).child_start@,
                self.child_list@ == old(self).child_list@,
                dep == old(self).depth@,
                parents_wf(old(self).parent@),
                depths_resolve(old(self).parent@, dep),
                n < UNVISITED,
                key == depth_bucket(dep, cyclic_bucket as int),
                nb == cyclic_bucket + 1,
                b <= nb,
                self.offsets@.len() == nb,
                offset == count_lt(key, n as int, b as int),
                forall|c: int| 0 <= c < b ==> #[trigger] self.offsets@[c] == count_lt(key, n as int, c),
                forall|c: int| b <= c < nb ==> #[trigger] self.offsets@[c] == count_eq(key, n as int, c),
            decreases nb - b,
        {
            let bucket = self.offsets[b];
            proof {
                lemma_count_key_step(key, n as int, b as int);
            }
            self.offsets.set(b, offset);
            offset += bucket;
            b += 1;
        }
        self.order.clear();
        self.order.resize(n, 0);
        let mut slot: usize = 0;
        while slot < n
            invariant
                n == dep.len(),
                self.depth@ == dep,
                self.parent@ == old(self).parent@,
                self.child_start@ == old(self).child_start@,
                self.child_list@ == old(self).child_list@,
                dep == old(self).depth@,
                parents_wf(old(self).parent@),
                depths_resolve(old(self).parent@, dep),
                depths_resolve(self.parent@, dep),
                n < UNVISITED,
                cyclic_bucket == deepest + 1,
                forall|s: int| 0 <= s < n && dep[s] != CYCLIC ==> dep[s] <= deepest,
                key == depth_bucket(dep, cyclic_bucket as int),
                self.offsets@.len() == cyclic_bucket + 1,
                slot <= n,
                self.order@.len() == n,
                forall|c: int| 0 <= c <= cyclic_bucket ==> #[trigger] self.offsets@[c] == count_lt(key, n as int, c) + count_eq(key, slot as int, c),
                forall|t: int| 0 <= t < slot ==> self.order@[#[trigger] sorted_position(key, n as int, t) as int] == t,
            decreases n - slot,
        {
            let d = self.depth[slot];
            let bucket = if d == CYCLIC {
                cyclic_bucket
            } else {
                d as usize
            };
            let at = self.offsets[bucket];
            proof {
                assert(key(slot as int) == bucket as int);
                lemma_sorted_position_bound(key, n as int, slot as int);
                assert(at as int == sorted_position(key, n as int, slot as int));

            }
            let ghost prev = self.order@;
            self.order.set(at as usize, slot as u32);
            self.offsets.set(bucket, at + 1);
            proof {
                assert forall|t: int| 0 <= t < slot + 1 implies self.order@[#[trigger] sorted_position(key, n as int, t) as int] == t by {
                    if t < slot {
                        if key(slot as int) < key(t) {
                            lemma_sorted_position_lt(key, n as int, slot as int, t);
                        } else {
                            lemma_sorted_position_lt(key, n as int, t, slot as int);
                        }
                        assert(sorted_position(key, n as int, t) != at as int);
                        lemma_sorted_position_bound(key, n as int, t);
                        assert(prev[sorted_position(key, n as int, t) as int] == t);
                    } else {
                        assert(t == slot as int);
                        assert(self.order@[at as int] == slot as u32);
                    }
                }
            }
            slot += 1;
        }
        proof {
            assert forall|t: int| 0 <= t < n implies self.order@[order_rank(dep, t) as int] == t by {
                lemma_sorted_position_rank(key, n as int, t);
                lemma_count_ext(
                    n as int,
                    |u: int| key(u) < key(t) || (key(u) == key(t) && u < t),
                    |u: int| precedes(dep, u, t),
                );
                assert(self.order@[sorted_position(key, n as int, t) as int] == t);
            }
        }
    }

    /// Invert the parent table into the compressed-row children index the
    /// subtree walk descends: slot `p`'s children are
    /// `child_list[child_start[p]..child_start[p + 1]]`, in slot order. Counts
    /// per parent, prefix-sums them into row starts, then places each slot
    /// under its parent.
    pub fn build_children(&mut self)
        requires
            parents_wf(old(self).parent@),
        ensures
            final(self).parent@ == old(self).parent@,
            final(self).depth@ == old(self).depth@,
            final(self).order@ == old(self).order@,
            ({
                let parent = final(self).parent@;
                let n = parent.len() as int;
                let key = parent_key(parent);
                &&& final(self).child_start@.len() == n + 1
                &&& forall|p: int| 0 <= p <= n ==> #[trigger] final(self).child_start@[p] == count_lt(key, n, p)
                &&& final(self).child_list@.len() == count_lt(key, n, n)
                &&& forall|s: int| 0 <= s < n && parent[s] != NO_SLOT ==> final(self).child_list@[
                    #[trigger] sorted_position(key, n, s) as int] == s
            }),
    {
        let slots = self.parent.len();
        let ghost par = self.parent@;
        let ghost key = parent_key(par);
        self.child_start.clear();
        self.child_start.resize(slots + 1, 0);
        let mut i: usize = 0;
        while i < slots
            invariant
                slots == par.len(),
                self.parent@ == par,
                par == old(self).parent@,
                self.depth@ == old(self).depth@,
                self.order@ == old(self).order@,
                parents_wf(par),
                key == parent_key(par),
                i <= slots,
                self.child_start@.len() == slots + 1,
                self.child_start@[0] == 0,
                forall|b: int| 0 <= b < slots ==> #[trigger] self.child_start@[b + 1] == count_eq(key, i as int, b),
            decreases slots - i,
        {
            let parent = self.parent[i];
            proof {
                assert forall|b: int| 0 <= b < slots implies count_eq(key, i + 1, b) == count_eq(key, i as int, b) + if key(i as int) == b { 1nat } else { 0nat } by {}
                lemma_count_key_bound(key, i as int, parent as int);
            }
            if parent != NO_SLOT {
                let c = self.child_start[parent as usize + 1];
                self.child_start.set(parent as usize + 1, c + 1);
                proof {
                    assert forall|b: int| 0 <= b < slots implies #[trigger] self.child_start@[b + 1] == count_eq(key, i + 1, b) by {
                        if b != parent as int {
                            assert(self.child_start@[b + 1] == count_eq(key, i as int, b));
                        }
                    }
                }
            }
            i += 1;
        }
        proof {
            assert forall|s: int| 0 <= s < slots implies #[trigger] key(s) >= 0 by {}
            lemma_count_lt_zero(key, slots as int);
            assert forall|c: int| 0 < c <= slots implies #[trigger] self.child_start@[c] == count_eq(key, slots as int, c - 1) by {
                assert(self.child_start@[(c - 1) + 1] == count_eq(key, slots as int, c - 1));
            }
        }
        let mut i: usize = 0;
        while i < slots
            invariant
                slots == par.len(),
                self.parent@ == par,
                par == old(self).parent@,
                self.depth@ == old(self).depth@,
                self.order@ == old(self).order@,
                parents_wf(par),
                key == parent_key(par),
                i <= slots,
                self.child_start@.len() == slots + 1,
                forall|c: int| 0 <= c <= i ==> #[trigger] self.child_start@[c] == count_lt(key, slots as int, c),
                forall|c: int| i < c <= slots ==> #[trigger] self.child_start@[c] == count_eq(key, slots as int, c - 1),
            decreases slots - i,
        {
            proof {
                lemma_count_key_step(key, slots as int, i as int);
            }
            let below = self.child_start[i];
            let here = self.child_start[i + 1];
            self.child_start.set(i + 1, here + below);
            i += 1;
        }
        let total = self.child_start[slots];
        self.child_list.clear();
        self.child_list.resize(total as usize, 0);
        self.offsets.clear();
        self.offsets.extend_from_slice(&self.child_start[0..slots]);
        let mut slot: usize = 0;
        while slot < slots
            invariant
                slots == par.len(),
                self.parent@ == par,
                par == old(self).parent@,
                self.depth@ == old(self).depth@,
                self.order@ == old(self).order@,
                parents_wf(par),
                key == parent_key(par),
                slot <= slots,
                self.child_start@.len() == slots + 1,
                forall|c: int| 0 <= c <= slots ==> #[trigger] self.child_start@[c] == count_lt(key, slots as int, c),
                self.child_list@.len() == count_lt(key, slots as int, slots as int),
                self.offsets@.len() == slots,
                forall|c: int| 0 <= c < slots ==> #[trigger] self.offsets@[c] == count_lt(key, slots as int, c) + count_eq(key, slot as int, c),
                forall|t: int| 0 <= t < slot && par[t] != NO_SLOT ==> self.child_list@[#[trigger] sorted_position(key, slots as int, t) as int] == t,
            decreases slots - slot,
        {
            let parent = self.parent[slot];
            if parent == NO_SLOT {
                proof {
                    assert forall|c: int| 0 <= c < slots implies #[trigger] self.offsets@[c] == count_lt(key, slots as int, c) + count_eq(key, slot + 1, c) by {}
                }
                slot += 1;
                continue;
            }
            let at = self.offsets[parent as usize];
            proof {
                lemma_sorted_position_bound(key, slots as int, slot as int);
                lemma_count_eq_prefix(key, slot as int, slots as int, parent as int);
                lemma_count_lt_mono(key, slots as int, parent as int + 1, slots as int);
                lemma_count_key_step(key, slots as int, parent as int);
                assert(at as int == sorted_position(key, slots as int, slot as int));
            }
            let ghost prev = self.child_list@;
            self.offsets.set(parent as usize, at + 1);
            self.child_list.set(at as usize, slot as u32);
            proof {
                assert forall|c: int| 0 <= c < slots implies #[trigger] self.offsets@[c] == count_lt(key, slots as int, c) + count_eq(key, slot + 1, c) by {}
                assert forall|t: int| 0 <= t < slot + 1 && par[t] != NO_SLOT implies self.child_list@[#[trigger] sorted_position(key, slots as int, t) as int] == t by {
                    if t < slot {
                        if key(slot as int) < key(t) {
                            lemma_sorted_position_lt(key, slots as int, slot as int, t);
                        } else {
                            lemma_sorted_position_lt(key, slots as int, t, slot as int);
                        }
                        lemma_sorted_position_bound(key, slots as int, t);
                        lemma_count_eq_prefix(key, t, slots as int, par[t] as int);
                        lemma_count_lt_mono(key, slots as int, par[t] as int + 1, slots as int);
                        assert(sorted_position(key, slots as int, t) != at as int);
                        lemma_count_key_step(key, slots as int, par[t] as int);
                        assert(prev[sorted_position(key, slots as int, t) as int] == t);
                    } else {
                        assert(self.child_list@[at as int] == slot as u32);
                    }
                }
            }
            slot += 1;
        }
    }

    // One memoized walk from an unvisited slot up its ancestor chain, then back
    // down the path assigning depths.
    fn walk_from(&mut self, start: usize)
        requires
            parents_wf(old(self).parent@),
            start < old(self).parent@.len(),
            partial_ok(old(self).parent@, old(self).depth@),
            old(self).depth@[start as int] == UNVISITED,
        ensures
            final(self).parent@ == old(self).parent@,
            final(self).order@ == old(self).order@,
            final(self).child_start@ == old(self).child_start@,
            final(self).child_list@ == old(self).child_list@,
            partial_ok(final(self).parent@, final(self).depth@),
            settled(final(self).depth@[start as int]),
            forall|s: int|
                0 <= s < old(self).depth@.len() && settled(#[trigger] old(self).depth@[s])
                    ==> final(self).depth@[s] == old(self).depth@[s],
    {
        let n = self.parent.len();
        let ghost d0 = self.depth@;
        self.path.clear();
        let mut current: usize = start;
        let mut base: u32 = 0;
        loop
            invariant_except_break
                current < n,
                self.path@.len() == 0 ==> current == start,
                self.path@.len() > 0 ==> current == self.parent@[self.path@.last() as int]
                    && self.parent@[self.path@.last() as int] != NO_SLOT,
            invariant
                n == self.parent@.len(),
                parents_wf(self.parent@),
                self.parent@ == old(self).parent@,
                self.order@ == old(self).order@,
                self.child_start@ == old(self).child_start@,
                self.child_list@ == old(self).child_list@,
                start < n,
                d0 == old(self).depth@,
                d0[start as int] == UNVISITED,
                partial_ok(self.parent@, d0),
                self.depth@.len() == n,
                self.path@.len() > 0 ==> self.path@[0] == start,
                self.path@.no_duplicates(),
                forall|i: int| 0 <= i < self.path@.len() ==> #[trigger] self.path@[i] < n,
                forall|i: int|
                    0 <= i < self.path@.len() - 1 ==> self.path@[i + 1] == self.parent@[
                        #[trigger] self.path@[i] as int
                    ],
                forall|x: int|
                    0 <= x < n ==> (#[trigger] self.depth@[x] == VISITING <==> self.path@.contains(
                        x as u32,
                    )),
                forall|x: int|
                    0 <= x < n && !self.path@.contains(x as u32) ==> #[trigger] self.depth@[x]
                        == d0[x],
                forall|i: int|
                    0 <= i < self.path@.len() ==> d0[#[trigger] self.path@[i] as int] == UNVISITED,
                count_settled(self.depth@) == count_settled(d0),
            ensures
                self.path@.len() > 0,
                self.path@[0] == start,
                ({
                    let last = self.path@.last() as int;
                    (self.parent@[last] == NO_SLOT && base == 0) || (self.parent@[last] != NO_SLOT
                        && current == self.parent@[last] && current < n && ((settled(
                        self.depth@[current as int],
                    ) && base == below(self.depth@[current as int])) || (self.depth@[current as int]
                        == VISITING && base == CYCLIC)))
                }),
            decreases count_unvisited(self.depth@),
        {
            let d = self.depth[current];
            proof {
                if self.path@.len() == 0 {
                    assert(!self.path@.contains(start as u32));
                    assert(self.depth@[current as int] == d0[current as int]);
                }
            }
            if d == VISITING || d == CYCLIC {
                base = CYCLIC;
                break;
            }
            if d != UNVISITED {
                proof {
                    assert(!self.path@.contains(current as u32));
                    assert(settled(d0[current as int]));
                }
                base = d + 1;
                break;
            }
            proof {
                lemma_settled_update(self.depth@, current as int, VISITING);
                assert(!self.path@.contains(current as u32));
            }
            let ghost old_path = self.path@;
            self.depth.set(current, VISITING);
            self.path.push(current as u32);
            proof {
                assert forall|x: int| 0 <= x < n implies (#[trigger] self.depth@[x] == VISITING
                    <==> self.path@.contains(x as u32)) by {
                    if x == current as int {
                        assert(self.path@.last() == current as u32);
                    } else {
                        if old_path.contains(x as u32) {
                            let i = choose|i: int| 0 <= i < old_path.len() && old_path[i] == x as u32;
                            assert(self.path@[i] == x as u32);
                        }
                        if self.path@.contains(x as u32) {
                            let i = choose|i: int| 0 <= i < self.path@.len() && self.path@[i] == x as u32;
                            assert(old_path[i] == x as u32);
                        }
                    }
                }
                assert forall|x: int|
                    0 <= x < n && !self.path@.contains(x as u32) implies #[trigger] self.depth@[x]
                    == d0[x] by {
                    if old_path.contains(x as u32) {
                        let i = choose|i: int| 0 <= i < old_path.len() && old_path[i] == x as u32;
                        assert(self.path@[i] == x as u32);
                    }
                    assert(self.path@.last() == current as u32);
                }
            }
            let p = self.parent[current];
            if p == NO_SLOT {
                base = 0;
                break;
            }
            current = p as usize;
        }
        proof {
            let d1 = self.depth@;
            let pth = self.path@;
            if base != CYCLIC {
                if self.parent@[pth.last() as int] != NO_SLOT {
                    let c = current as int;
                    assert(!pth.contains(current as u32));
                    assert(d1[c] == d0[c]);
                    assert(d0[c] < count_settled(d0));
                }
            }
        }
        self.assign_path(Ghost(d0), base, Ghost(current));
    }

    // Walk the recorded path back down from its top, assigning each slot the
    // depth one below the next.
    fn assign_path(&mut self, Ghost(d0): Ghost<Seq<u32>>, base: u32, Ghost(current): Ghost<usize>)
        requires
            parents_wf(old(self).parent@),
            ({
                let n = old(self).parent@.len();
                let pth = old(self).path@;
                let d1 = old(self).depth@;
                let last = pth.last() as int;
                &&& d0.len() == n
                &&& d1.len() == n
                &&& partial_ok(old(self).parent@, d0)
                &&& pth.len() > 0
                &&& pth.no_duplicates()
                &&& (forall|i: int| 0 <= i < pth.len() ==> #[trigger] pth[i] < n)
                &&& (forall|i: int|
                    0 <= i < pth.len() - 1 ==> pth[i + 1] == old(self).parent@[#[trigger] pth[i] as int])
                &&& (forall|x: int|
                    0 <= x < n ==> (#[trigger] d1[x] == VISITING <==> pth.contains(x as u32)))
                &&& (forall|x: int| 0 <= x < n && !pth.contains(x as u32) ==> #[trigger] d1[x] == d0[x])
                &&& (forall|i: int| 0 <= i < pth.len() ==> d0[#[trigger] pth[i] as int] == UNVISITED)
                &&& count_settled(d1) == count_settled(d0)
                &&& (base == CYCLIC || base <= count_settled(d0))
                &&& ((old(self).parent@[last] == NO_SLOT && base == 0) || (old(self).parent@[last]
                    != NO_SLOT && current == old(self).parent@[last] && current < n && ((settled(
                    d1[current as int],
                ) && base == below(d1[current as int])) || (d1[current as int] == VISITING && base
                    == CYCLIC))))
            }),
        ensures
            final(self).parent@ == old(self).parent@,
            final(self).order@ == old(self).order@,
            final(self).child_start@ == old(self).child_start@,
            final(self).child_list@ == old(self).child_list@,
            partial_ok(final(self).parent@, final(self).depth@),
            settled(final(self).depth@[old(self).path@[0] as int]),
            forall|s: int|
                0 <= s < d0.len() && settled(#[trigger] d0[s]) ==> final(self).depth@[s] == d0[s],
    {
        let n = self.parent.len();
        let ghost d1 = self.depth@;
        let ghost pth = self.path@;
        let ghost plen = pth.len() as int;
        let mut depth = base;
        let mut k = self.path.len();
        while k > 0
            invariant
                n == self.parent@.len(),
                parents_wf(self.parent@),
                self.parent@ == old(self).parent@,
                self.order@ == old(self).order@,
                self.child_start@ == old(self).child_start@,
                self.child_list@ == old(self).child_list@,
                self.path@ == pth,
                pth == old(self).path@,
                d1 == old(self).depth@,
                plen == pth.len(),
                0 <= k <= plen,
                self.depth@.len() == n,
                forall|i: int| 0 <= i < plen ==> #[trigger] pth[i] < n,
                pth.no_duplicates(),
                forall|j: int| k <= j < plen ==> self.depth@[#[trigger] pth[j] as int] == path_depth(base, plen, j),
                forall|j: int| 0 <= j < k ==> self.depth@[#[trigger] pth[j] as int] == VISITING,
                forall|x: int| 0 <= x < n && !pth.contains(x as u32) ==> #[trigger] self.depth@[x] == d1[x],
                depth == path_depth(base, plen, k - 1),
                count_settled(self.depth@) == count_settled(d1) + (plen - k),
                base == CYCLIC || base + (plen - k) <= count_settled(self.depth@),
                forall|j: int| k <= j < plen ==> (#[trigger] path_depth(base, plen, j) == CYCLIC || path_depth(base, plen, j) < count_settled(self.depth@)),
                forall|x: int| 0 <= x < n ==> (#[trigger] d1[x] == VISITING <==> pth.contains(x as u32)),
            decreases k,
        {
            k -= 1;
            let slot = self.path[k];
            proof {
                assert(self.depth@[slot as int] == VISITING);
                lemma_count_bound(n as int, |i: int| settled(self.depth@[i]));
                assert(depth == CYCLIC || depth <= count_settled(self.depth@));
                assert(settled(depth));
                lemma_settled_update(self.depth@, slot as int, depth);
            }
            let ghost prev = self.depth@;
            self.depth.set(slot as usize, depth);
            proof {
                assert forall|j: int| k <= j < plen implies self.depth@[#[trigger] pth[j] as int]
                    == path_depth(base, plen, j) by {
                    if j != k as int {
                        assert(pth[j] != pth[k as int]);
                    }
                }
                assert forall|j: int| 0 <= j < k implies self.depth@[#[trigger] pth[j] as int]
                    == VISITING by {
                    assert(pth[j] != pth[k as int]);
                }
                assert forall|x: int| 0 <= x < n && !pth.contains(x as u32) implies #[trigger] self.depth@[x] == d1[x] by {
                    assert(x != slot as int);
                }
            }
            proof {
                lemma_count_bound(n as int, |i: int| settled(self.depth@[i]));
            }
            if depth != CYCLIC {
                depth += 1;
            }
        }
        proof {
            let d = self.depth@;
            let par = self.parent@;
            let last = plen - 1;
            lemma_count_bound(n as int, |i: int| settled(d[i]));
            assert forall|x: int| 0 <= x < n && pth.contains(x as u32) implies
                settled(#[trigger] d[x]) && (d[x] == CYCLIC || d[x] < count_settled(d)) by {
                let j = choose|j: int| 0 <= j < plen && pth[j] == x as u32;
                assert(d[pth[j] as int] == path_depth(base, plen, j));
            }
            assert forall|s: int| 0 <= s < n implies #[trigger] d[s] != VISITING by {
                if !pth.contains(s as u32) {
                    assert(d1[s] != VISITING);
                }
            }
            assert forall|s: int|
                0 <= s < n && settled(#[trigger] d[s]) implies d[s] == CYCLIC || d[s] < count_settled(d) by {
                if !pth.contains(s as u32) {
                    assert(d[s] == d0[s]);
                    assert(settled(d0[s]));
                }
            }
            assert forall|s: int|
                0 <= s < n && settled(#[trigger] d[s]) && par[s] == NO_SLOT implies d[s] == 0 by {
                if pth.contains(s as u32) {
                    let j = choose|j: int| 0 <= j < plen && pth[j] == s as u32;
                    if j < last {
                        assert(pth[j + 1] == par[pth[j] as int]);
                    }
                } else {
                    assert(settled(d0[s]));
                }
            }
            assert forall|s: int|
                0 <= s < n && settled(#[trigger] d[s]) && par[s] != NO_SLOT implies settled(
                d[par[s] as int]) && d[s] == below(d[par[s] as int]) by {
                let p = par[s] as int;
                if pth.contains(s as u32) {
                    let j = choose|j: int| 0 <= j < plen && pth[j] == s as u32;
                    if j < last {
                        assert(pth[j + 1] == par[pth[j] as int]);
                        assert(d[pth[j + 1] as int] == path_depth(base, plen, j + 1));
                    } else {
                        let c = current as int;
                        assert(c == p);
                        if d1[c] == VISITING {
                            let i = choose|i: int| 0 <= i < plen && pth[i] == c as u32;
                            assert(d[pth[i] as int] == path_depth(base, plen, i));
                        } else {
                            assert(!pth.contains(c as u32));
                            assert(d[c] == d1[c]);
                        }
                    }
                } else {
                    assert(settled(d0[s]));
                    assert(d[s] == d0[s]);
                    assert(settled(d0[p]));
                    if pth.contains(p as u32) {
                        let i = choose|i: int| 0 <= i < plen && pth[i] == p as u32;
                        assert(d0[pth[i] as int] == UNVISITED);
                    }
                    assert(d[p] == d0[p]);
                }
            }
            assert(d[pth[0] as int] == path_depth(base, plen, 0));
            assert forall|s: int| 0 <= s < d0.len() && settled(#[trigger] d0[s]) implies d[s] == d0[s] by {
                if pth.contains(s as u32) {
                    let i = choose|i: int| 0 <= i < plen && pth[i] == s as u32;
                    assert(d0[pth[i] as int] == UNVISITED);
                }
            }
        }
    }
}

/// The children index matches the parent table: row `p` of `child_list` (from
/// `child_start[p]` to `child_start[p + 1]`) holds the slots whose parent is
/// `p`, ordered by slot.
pub open spec fn children_indexed(c: TransformCache) -> bool {
    let parent = c.parent@;
    let n = parent.len() as int;
    let key = parent_key(parent);
    &&& parents_wf(parent)
    &&& c.child_start@.len() == n + 1
    &&& forall|p: int| 0 <= p <= n ==> #[trigger] c.child_start@[p] == count_lt(key, n, p)
    &&& c.child_list@.len() == count_lt(key, n, n)
    &&& forall|s: int| 0 <= s < n && parent[s] != NO_SLOT ==> c.child_list@[
        #[trigger] sorted_position(key, n, s) as int] == s
}

/// A walk over `out` visits each slot once, visits only the seeds and slots
/// whose parent it visited earlier, and leaves no child of a visited slot
/// behind.
pub open spec fn subtree_walk(parent: Seq<u32>, seeds: Seq<u32>, out: Seq<u32>) -> bool {
    &&& forall|i: int, j: int| 0 <= i < j < out.len() ==> out[i] != out[j]
    &&& forall|k: int| 0 <= k < out.len() ==> #[trigger] out[k] < parent.len()
    &&& forall|k: int|
        0 <= k < out.len() ==> seeds.contains(#[trigger] out[k]) || (parent[out[k] as int] != NO_SLOT
            && out.take(k).contains(parent[out[k] as int]))
    &&& forall|j: int| 0 <= j < seeds.len() ==> out.contains(#[trigger] seeds[j])
    &&& forall|c: int|
        0 <= c < parent.len() && #[trigger] parent[c] != NO_SLOT && out.contains(parent[c]) ==> out.contains(
            c as u32,
        )
}

/// Row `p` of the children index holds exactly the slots whose parent is `p`.
proof fn lemma_child_row(parent: Seq<u32>, p: int, c: int)
    requires
        parents_wf(parent),
        0 <= p < parent.len(),
        0 <= c < parent.len(),
    ensures
        parent[c] == p ==> count_lt(parent_key(parent), parent.len() as int, p) <= sorted_position(
            parent_key(parent),
            parent.len() as int,
            c,
        ) < count_lt(parent_key(parent), parent.len() as int, p + 1),
        parent[c] != NO_SLOT && parent[c] != p ==> {
            let q = sorted_position(parent_key(parent), parent.len() as int, c);
            q < count_lt(parent_key(parent), parent.len() as int, p) || q >= count_lt(
                parent_key(parent),
                parent.len() as int,
                p + 1,
            )
        },
        parent[c] == NO_SLOT ==> sorted_position(parent_key(parent), parent.len() as int, c) >= count_lt(
            parent_key(parent),
            parent.len() as int,
            parent.len() as int,
        ),
{
    let key = parent_key(parent);
    let n = parent.len() as int;
    let b = key(c);
    lemma_count_eq_prefix(key, c, n, b);
    lemma_count_key_step(key, n, b);
    if parent[c] == NO_SLOT {
        lemma_count_lt_mono(key, n, n, b);
    } else if b < p {
        lemma_count_lt_mono(key, n, b + 1, p);
    } else if b > p {
        lemma_count_lt_mono(key, n, p + 1, b);
    }
}

/// Every entry of row `p` is a slot whose parent is `p`.
proof fn lemma_row_entry(c: TransformCache, p: int, q: int)
    requires
        children_indexed(c),
        0 <= p < c.parent@.len(),
        c.child_start@[p] <= q < c.child_start@[p + 1],
    ensures
        c.child_list@[q] < c.parent@.len(),
        c.parent@[c.child_list@[q] as int] == p,
{
    let parent = c.parent@;
    let n = parent.len() as int;
    let key = parent_key(parent);
    lemma_count_lt_mono(key, n, p + 1, n);
    lemma_count_key_bound(key, n, n);
    crate::count::lemma_sorted_position_onto(key, n, q);
    let t = choose|t: int| 0 <= t < n && #[trigger] sorted_position(key, n, t) == q;
    lemma_child_row(parent, p, t);
    assert(parent[t] != NO_SLOT);
    assert(c.child_list@[q] == t);
}

impl TransformCache {
    /// The slots a pass recomposes after the transforms of `seeds` changed:
    /// each seed and everything beneath it, each once. A slot is reached as a
    /// seed or from its parent, which the walk visited before it; a seed
    /// already reached from an earlier seed is not walked again.
    pub fn walk_subtrees(&self, seeds: &[u32]) -> (r: Vec<u32>)
        requires
            children_indexed(*self),
            forall|j: int| 0 <= j < seeds@.len() ==> #[trigger] seeds@[j] < self.parent@.len(),
        ensures
            subtree_walk(self.parent@, seeds@, r@),
    {
        let ghost parent = self.parent@;
        let n = self.parent.len();
        let mut visited: Vec<bool> = Vec::new();
        while visited.len() < n
            invariant
                visited@.len() <= n,
                forall|s: int| 0 <= s < visited@.len() ==> !#[trigger] visited@[s],
            decreases n - visited@.len(),
        {
            visited.push(false);
        }
        let mut out: Vec<u32> = Vec::new();
        let mut i: usize = 0;
        while i < seeds.len()
            invariant
                children_indexed(*self),
                parent == self.parent@,
                n == parent.len(),
                i <= seeds@.len(),
                forall|j: int| 0 <= j < seeds@.len() ==> #[trigger] seeds@[j] < n,
                visited@.len() == n,
                forall|s: int| 0 <= s < n ==> #[trigger] visited@[s] == out@.contains(s as u32),
                forall|a: int, b: int| 0 <= a < b < out@.len() ==> out@[a] != out@[b],
                forall|k: int| 0 <= k < out@.len() ==> #[trigger] out@[k] < n,
                forall|k: int|
                    0 <= k < out@.len() ==> seeds@.contains(#[trigger] out@[k]) || (parent[out@[k] as int]
                        != NO_SLOT && out@.take(k).contains(parent[out@[k] as int])),
                forall|j: int| 0 <= j < i ==> out@.contains(#[trigger] seeds@[j]),
                forall|c: int|
                    0 <= c < n && #[trigger] parent[c] != NO_SLOT && out@.contains(parent[c]) ==> out@.contains(
                        c as u32,
                    ),
            decreases seeds@.len() - i,
        {
            let mut stack: Vec<u32> = Vec::new();
            stack.push(seeds[i]);
            proof {
                assert(stack@[0] == seeds@[i as int]);
                assert(seeds@.contains(seeds@[i as int]));
            }
            while stack.len() > 0
                invariant
                    children_indexed(*self),
                    parent == self.parent@,
                    n == parent.len(),
                    i < seeds@.len(),
                    forall|j: int| 0 <= j < seeds@.len() ==> #[trigger] seeds@[j] < n,
                    visited@.len() == n,
                    forall|s: int| 0 <= s < n ==> #[trigger] visited@[s] == out@.contains(s as u32),
                    forall|a: int, b: int| 0 <= a < b < out@.len() ==> out@[a] != out@[b],
                    forall|k: int| 0 <= k < out@.len() ==> #[trigger] out@[k] < n,
                    forall|k: int|
                        0 <= k < out@.len() ==> seeds@.contains(#[trigger] out@[k]) || (parent[out@[k] as int]
                            != NO_SLOT && out@.take(k).contains(parent[out@[k] as int])),
                    forall|j: int| 0 <= j < i ==> out@.contains(#[trigger] seeds@[j]),
                    out@.contains(seeds@[i as int]) || stack@.contains(seeds@[i as int]),
                    forall|e: int|
                        0 <= e < stack@.len() ==> #[trigger] stack@[e] < n && (seeds@.contains(stack@[e]) || (
                        parent[stack@[e] as int] != NO_SLOT && out@.contains(parent[stack@[e] as int]))),
                    forall|c: int|
                        0 <= c < n && #[trigger] parent[c] != NO_SLOT && out@.contains(parent[c]) ==> out@.contains(
                            c as u32,
                        ) || stack@.contains(c as u32),
                decreases n - out@.len(), stack@.len(),
            {
                proof {
                    lemma_walk_count(out@, n as int);
                }
                let ghost before_stack = stack@;
                let slot = stack.pop().unwrap();
                proof {
                    assert(stack@ =~= before_stack.drop_last());
                    assert(slot == before_stack[before_stack.len() - 1]);
                }
                if visited[slot as usize] {
                    proof {
                        assert forall|c: int|
                            0 <= c < n && #[trigger] parent[c] != NO_SLOT && out@.contains(parent[c]) implies out@.contains(
                            c as u32,
                        ) || stack@.contains(c as u32) by {
                            if !out@.contains(c as u32) {
                                assert(before_stack.contains(c as u32));
                                let e = choose|e: int| 0 <= e < before_stack.len() && before_stack[e] == c as u32;
                                if e < before_stack.len() - 1 {
                                    assert(stack@[e] == c as u32);
                                }
                            }
                        }
                        if !out@.contains(seeds@[i as int]) {
                            let e = choose|e: int| 0 <= e < before_stack.len() && before_stack[e] == seeds@[i as int];
                            if e < before_stack.len() - 1 {
                                assert(stack@[e] == seeds@[i as int]);
                            }
                        }
                    }
                    continue;
                }
                let ghost before_out = out@;
                proof {
                    assert(!before_out.contains(slot));
                }
                visited.set(slot as usize, true);
                out.push(slot);
                proof {
                    assert(out@.take(before_out.len() as int) =~= before_out);
                    assert forall|s: int| 0 <= s < n implies #[trigger] visited@[s] == out@.contains(s as u32) by {
                        if s == slot {
                            assert(out@[before_out.len() as int] == slot);
                        } else {
                            if out@.contains(s as u32) {
                                let k = choose|k: int| 0 <= k < out@.len() && out@[k] == s as u32;
                                assert(before_out[k] == s as u32);
                            }
                            if before_out.contains(s as u32) {
                                let k = choose|k: int| 0 <= k < before_out.len() && before_out[k] == s as u32;
                                assert(out@[k] == s as u32);
                            }
                        }
                    }
                    assert forall|k: int| 0 <= k < out@.len() implies seeds@.contains(#[trigger] out@[k]) || (
                    parent[out@[k] as int] != NO_SLOT && out@.take(k).contains(parent[out@[k] as int])) by {
                        if k < before_out.len() {
                            assert(out@[k] == before_out[k]);
                            assert(out@.take(k) =~= before_out.take(k));
                        } else {
                            assert(out@.take(k) =~= before_out);
                        }
                    }
                    assert forall|j: int| 0 <= j < i implies out@.contains(#[trigger] seeds@[j]) by {
                        let k = choose|k: int| 0 <= k < before_out.len() && before_out[k] == seeds@[j];
                        assert(out@[k] == seeds@[j]);
                    }
                }
                let start = self.child_start[slot as usize];
                let end = self.child_start[slot as usize + 1];
                proof {
                    assert(out@[before_out.len() as int] == slot);
                    lemma_walk_count(out@, n as int);
                    let key = parent_key(parent);
                    lemma_count_lt_mono(key, n as int, slot as int, slot + 1);
                    lemma_count_lt_mono(key, n as int, slot + 1, n as int);
                }
                let ghost base_stack = stack@;
                let mut q: u32 = start;
                while q < end
                    invariant
                        children_indexed(*self),
                        parent == self.parent@,
                        n == parent.len(),
                        slot < n,
                        start == self.child_start@[slot as int],
                        end == self.child_start@[slot + 1],
                        start <= q <= end,
                        end <= self.child_list@.len(),
                        out@.contains(slot),
                        stack@ == base_stack + self.child_list@.subrange(start as int, q as int),
                    decreases end - q,
                {
                    proof {
                        lemma_row_entry(*self, slot as int, q as int);
                    }
                    stack.push(self.child_list[q as usize]);
                    proof {
                        assert(self.child_list@.subrange(start as int, q + 1) =~= self.child_list@.subrange(
                            start as int,
                            q as int,
                        ).push(self.child_list@[q as int]));
                    }
                    q += 1;
                }
                proof {
                    let key = parent_key(parent);
                    let row = self.child_list@.subrange(start as int, end as int);
                    assert forall|e: int| 0 <= e < stack@.len() implies #[trigger] stack@[e] < n && (seeds@.contains(
                        stack@[e],
                    ) || (parent[stack@[e] as int] != NO_SLOT && out@.contains(parent[stack@[e] as int]))) by {
                        if e < base_stack.len() {
                            assert(stack@[e] == base_stack[e]);
                            assert(base_stack[e] == before_stack[e]);
                            let pe = parent[stack@[e] as int];
                            if pe != NO_SLOT && before_out.contains(pe) {
                                let k = choose|k: int| 0 <= k < before_out.len() && before_out[k] == pe;
                                assert(out@[k] == pe);
                            }
                        } else {
                            let qq = start + (e - base_stack.len());
                            assert(stack@[e] == self.child_list@[qq]);
                            lemma_row_entry(*self, slot as int, qq);
                            assert(out@[before_out.len() as int] == slot);
                        }
                    }
                    assert forall|c: int|
                        0 <= c < n && #[trigger] parent[c] != NO_SLOT && out@.contains(parent[c]) implies out@.contains(
                        c as u32,
                    ) || stack@.contains(c as u32) by {
                        if parent[c] == slot {
                            lemma_child_row(parent, slot as int, c);
                            let qq = sorted_position(key, n as int, c) as int;
                            assert(self.child_list@[qq] == c);
                            assert(stack@[base_stack.len() + (qq - start)] == c as u32);
                        } else {
                            let k = choose|k: int| 0 <= k < out@.len() && out@[k] == parent[c];
                            if k == before_out.len() {
                                assert(out@[k] == slot);
                            }
                            assert(before_out[k] == parent[c]);
                            assert(before_out.contains(parent[c]));
                            if !out@.contains(c as u32) {
                                if !before_out.contains(c as u32) {
                                    assert(before_stack.contains(c as u32));
                                    let e = choose|e: int| 0 <= e < before_stack.len() && before_stack[e] == c as u32;
                                    if e == before_stack.len() - 1 {
                                        assert(c as u32 == slot);
                                        assert(out@[before_out.len() as int] == slot);
                                    } else {
                                        assert(stack@[e] == c as u32);
                                    }
                                } else {
                                    let k2 = choose|k2: int| 0 <= k2 < before_out.len() && before_out[k2] == c as u32;
                                    assert(out@[k2] == c as u32);
                                }
                            }
                        }
                    }
                    if !out@.contains(seeds@[i as int]) {
                        let e = choose|e: int| 0 <= e < before_stack.len() && before_stack[e] == seeds@[i as int];
                        if e < before_stack.len() - 1 {
                            assert(stack@[e] == seeds@[i as int]);
                        } else {
                            assert(out@[before_out.len() as int] == slot);
                        }
                    }
                    assert forall|a: int, b: int| 0 <= a < b < out@.len() implies out@[a] != out@[b] by {
                        if b == before_out.len() {
                            assert(out@[a] == before_out[a]);
                            assert(before_out.contains(before_out[a]));
                        }
                    }
                }
            }
            i += 1;
        }
        out
    }
}

/// A walk without repeats over slots of `0..n` holds at most `n` of them.
proof fn lemma_walk_count(out: Seq<u32>, n: int)
    requires
        0 <= n,
        forall|a: int, b: int| 0 <= a < b < out.len() ==> out[a] != out[b],
        forall|k: int| 0 <= k < out.len() ==> #[trigger] out[k] < n,
    ensures
        out.len() <= n,
{
    let ints = out.map_values(|x: u32| x as int);
    assert(ints.no_duplicates()) by {
        assert forall|a: int, b: int| 0 <= a < ints.len() && 0 <= b < ints.len() && a != b implies ints[a] != ints[b] by {
            if a < b {
                assert(out[a] != out[b]);
            } else {
                assert(out[b] != out[a]);
            }
        }
    }
    ints.unique_seq_to_set();
    vstd::set_lib::lemma_int_range(0, n);
    assert(ints.to_set().subset_of(vstd::set_lib::set_int_range(0, n))) by {
        assert forall|x: int| ints.to_set().contains(x) implies vstd::set_lib::set_int_range(0, n).contains(x) by {
            assert(ints.contains(x));
            let k = choose|k: int| 0 <= k < ints.len() && ints[k] == x;
            assert(out[k] < n);
        }
    }
    vstd::set_lib::lemma_len_subset(ints.to_set(), vstd::set_lib::set_int_range(0, n));
}

} // verus!
