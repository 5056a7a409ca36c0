//! The draw-to-mesh-handle mapping captured from the built draw list before it
//! moves into the backend.

use vstd::prelude::*;
use std::collections::{HashMap, HashSet};

verus! {

/// `d` is one of the draws built from some mesh handle.
pub open spec fn drawn(by_handle: Map<usize, Vec<usize>>, d: usize) -> bool {
    exists|h: usize| by_handle.contains_key(h) && #[trigger] by_handle[h]@.contains(d)
}

/// Handle `h` lists draw `d`.
pub open spec fn lists(by_handle: Map<usize, Vec<usize>>, h: usize, d: usize) -> bool {
    by_handle.contains_key(h) && by_handle[h]@.contains(d)
}

/// The mesh-source handle each draw object was built from. Every draw of every
/// handle maps back to a handle that lists it; a draw that several handles
/// list maps to one of them.
pub fn draw_to_handle(by_handle: &HashMap<usize, Vec<usize>>) -> (r: HashMap<usize, usize>)
    ensures
        forall|d: usize| #[trigger] r@.contains_key(d) <==> drawn(by_handle@, d),
        forall|d: usize|
            #[trigger] r@.contains_key(d) ==> lists(by_handle@, r@[d], d),
{
    broadcast use vstd::std_specs::hash::group_hash_axioms;

    let mut out: HashMap<usize, usize> = HashMap::new();
    for (h, draws) in it: by_handle.iter()
        invariant
            forall|d: usize| #[trigger] out@.contains_key(d) ==> lists(by_handle@, out@[d], d),
            forall|d: usize|
                #[trigger] out@.contains_key(d) <==> seen_in(it.seq(), it.index() as int, d),
            forall|h: usize|
                #[trigger] by_handle@.contains_key(h) ==> it.seq().contains((&h, &by_handle@[h])),
            it.index() == it.seq().len() ==> forall|d: usize|
                #[trigger] out@.contains_key(d) <==> drawn(by_handle@, d),
    {
        let ghost idx = it.index() as int;
        assert(it.seq()[idx] == (h, draws));
        let mut j: usize = 0;
        while j < draws.len()
            invariant
                0 <= j <= draws@.len(),
                by_handle@.contains_key(*h),
                by_handle@[*h] == *draws,
                it.seq()[idx].1 == draws,
                forall|d: usize| #[trigger] out@.contains_key(d) ==> lists(by_handle@, out@[d], d),
                forall|d: usize|
                    #[trigger] out@.contains_key(d) <==> (seen_in(it.seq(), idx, d)
                        || draws@.take(j as int).contains(d)),
            decreases draws@.len() - j,
        {
            out.insert(draws[j], *h);
            proof {
                lemma_take_one_more(draws@, j as int);
            }
            j += 1;
        }
        proof {
            assert(draws@.take(draws@.len() as int) =~= draws@);
            lemma_seen_step();
            lemma_seen_all();
        }
    }
    out
}

/// One more draw taken holds what the shorter prefix held, and that draw.
proof fn lemma_take_one_more(draws: Seq<usize>, j: int)
    requires
        0 <= j < draws.len(),
    ensures
        forall|d: usize| #[trigger] draws.take(j + 1).contains(d) <==> (draws.take(j).contains(d) || d == draws[j]),
{
    let before = draws.take(j);
    assert forall|d: usize| #[trigger] draws.take(j + 1).contains(d) <==> (before.contains(d) || d == draws[j]) by {
        if draws.take(j + 1).contains(d) && d != draws[j] {
            let k = choose|k: int| 0 <= k < j + 1 && #[trigger] draws.take(j + 1)[k] == d;
            assert(before[k] == d);
        }
        if before.contains(d) {
            let k = choose|k: int| 0 <= k < j && #[trigger] before[k] == d;
            assert(draws.take(j + 1)[k] == d);
        }
        if d == draws[j] {
            assert(draws.take(j + 1)[j] == d);
        }
    }
}

proof fn lemma_seen_step()
    ensures
        forall|entries: Seq<(&usize, &Vec<usize>)>, idx: int, d: usize|
            0 <= idx < entries.len() ==> (#[trigger] seen_in(entries, idx + 1, d) <==> (seen_in(
                entries,
                idx,
                d,
            ) || entries[idx].1@.contains(d))),
{
    assert forall|entries: Seq<(&usize, &Vec<usize>)>, idx: int, d: usize|
        0 <= idx < entries.len() implies (#[trigger] seen_in(entries, idx + 1, d) <==> (seen_in(
        entries,
        idx,
        d,
    ) || entries[idx].1@.contains(d))) by {
        if seen_in(entries, idx + 1, d) {
            let k = choose|k: int| 0 <= k < idx + 1 && (#[trigger] entries[k]).1@.contains(d);
            if k < idx {
                assert(seen_in(entries, idx, d));
            }
        }
        if seen_in(entries, idx, d) {
            let k = choose|k: int| 0 <= k < idx && (#[trigger] entries[k]).1@.contains(d);
            assert(entries[k].1@.contains(d));
        }
    }
}

proof fn lemma_seen_all()
    ensures
        forall|entries: Seq<(&usize, &Vec<usize>)>, by_handle: Map<usize, Vec<usize>>, d: usize|
            #![trigger seen_in(entries, entries.len() as int, d), drawn(by_handle, d)]
            (forall|h: usize| #[trigger]
                by_handle.contains_key(h) ==> entries.contains((&h, &by_handle[h]))) && drawn(
                by_handle,
                d,
            ) ==> seen_in(entries, entries.len() as int, d),
{
    assert forall|entries: Seq<(&usize, &Vec<usize>)>, by_handle: Map<usize, Vec<usize>>, d: usize|
        #![trigger seen_in(entries, entries.len() as int, d), drawn(by_handle, d)]
        (forall|h: usize| #[trigger]
            by_handle.contains_key(h) ==> entries.contains((&h, &by_handle[h]))) && drawn(
            by_handle,
            d,
        ) implies seen_in(entries, entries.len() as int, d) by {
        let h = choose|h: usize| by_handle.contains_key(h) && #[trigger] by_handle[h]@.contains(d);
        assert(entries.contains((&h, &by_handle[h])));
        let k = choose|k: int| 0 <= k < entries.len() && entries[k] == (&h, &by_handle[h]);
        assert(entries[k].1@.contains(d));
    }
}

/// `d` is among the draws of the first `n` entries visited.
pub open spec fn seen_in(entries: Seq<(&usize, &Vec<usize>)>, n: int, d: usize) -> bool {
    exists|k: int| 0 <= k < n && (#[trigger] entries[k]).1@.contains(d)
}

/// `d` is a draw of one of the first `n` handles visited.
pub open spec fn reached(handles: Seq<&usize>, by_handle: Map<usize, Vec<usize>>, n: int, d: usize) -> bool {
    exists|k: int| 0 <= k < n && #[trigger] lists(by_handle, *handles[k], d)
}

/// `d` is drawn from a mesh whose payload decode was deferred.
pub open spec fn deferred_draw<V>(
    deferred: Map<usize, V>,
    by_handle: Map<usize, Vec<usize>>,
    d: usize,
) -> bool {
    exists|h: usize| deferred.contains_key(h) && #[trigger] lists(by_handle, h, d)
}

proof fn lemma_reached_step()
    ensures
        forall|handles: Seq<&usize>, by_handle: Map<usize, Vec<usize>>, idx: int, d: usize|
            0 <= idx < handles.len() ==> (#[trigger] reached(handles, by_handle, idx + 1, d) <==> (
            reached(handles, by_handle, idx, d) || lists(by_handle, *handles[idx], d))),
{
    assert forall|handles: Seq<&usize>, by_handle: Map<usize, Vec<usize>>, idx: int, d: usize|
        0 <= idx < handles.len() implies (#[trigger] reached(handles, by_handle, idx + 1, d) <==> (
        reached(handles, by_handle, idx, d) || lists(by_handle, *handles[idx], d))) by {
        if reached(handles, by_handle, idx + 1, d) {
            let k = choose|k: int| 0 <= k < idx + 1 && #[trigger] lists(by_handle, *handles[k], d);
            if k < idx {
                assert(reached(handles, by_handle, idx, d));
            }
        }
        if reached(handles, by_handle, idx, d) {
            let k = choose|k: int| 0 <= k < idx && #[trigger] lists(by_handle, *handles[k], d);
            assert(lists(by_handle, *handles[k], d));
        }
    }
}

proof fn lemma_reached_all<V>()
    ensures
        forall|handles: Seq<&usize>, deferred: Map<usize, V>, by_handle: Map<usize, Vec<usize>>, d: usize|
            #![trigger reached(handles, by_handle, handles.len() as int, d), deferred_draw(deferred, by_handle, d)]
            handles.unref().to_set() == deferred.dom() ==> (reached(
                handles,
                by_handle,
                handles.len() as int,
                d,
            ) <==> deferred_draw(deferred, by_handle, d)),
{
    assert forall|handles: Seq<&usize>, deferred: Map<usize, V>, by_handle: Map<usize, Vec<usize>>, d: usize|
        #![trigger reached(handles, by_handle, handles.len() as int, d), deferred_draw(deferred, by_handle, d)]
        handles.unref().to_set() == deferred.dom() implies (reached(
            handles,
            by_handle,
            handles.len() as int,
            d,
        ) <==> deferred_draw(deferred, by_handle, d)) by {
        if reached(handles, by_handle, handles.len() as int, d) {
            let k = choose|k: int| 0 <= k < handles.len() && #[trigger] lists(by_handle, *handles[k], d);
            assert(handles.unref()[k] == *handles[k]);
            assert(handles.unref().to_set().contains(*handles[k]));
        }
        if deferred_draw(deferred, by_handle, d) {
            let h = choose|h: usize| deferred.contains_key(h) && #[trigger] lists(by_handle, h, d);
            assert(handles.unref().to_set().contains(h));
            assert(handles.unref().contains(h));
            let k = choose|k: int| 0 <= k < handles.unref().len() && handles.unref()[k] == h;
            assert(*handles[k] == h);
            assert(lists(by_handle, *handles[k], d));
        }
    }
}

/// The draw objects built from a mesh whose payload decode was deferred: every
/// draw listed under a handle that has a deferred seed, and nothing else.
pub fn deferred_draws<V>(
    deferred_mesh_seeds: &HashMap<usize, V>,
    mesh_handle_to_draws: &HashMap<usize, Vec<usize>>,
) -> (r: HashSet<usize>)
    ensures
        forall|d: usize|
            #[trigger] r@.contains(d) <==> deferred_draw(
                deferred_mesh_seeds@,
                mesh_handle_to_draws@,
                d,
            ),
{
    broadcast use vstd::std_specs::hash::group_hash_axioms;

    let mut out: HashSet<usize> = HashSet::new();
    for h in it: deferred_mesh_seeds.keys()
        invariant
            it.seq().unref().to_set() == deferred_mesh_seeds@.dom(),
            forall|d: usize|
                #[trigger] out@.contains(d) <==> reached(
                    it.seq(),
                    mesh_handle_to_draws@,
                    it.index() as int,
                    d,
                ),
    {
        let ghost idx = it.index() as int;
        assert(*it.seq()[idx] == *h);
        match mesh_handle_to_draws.get(h) {
            Some(draws) => {
                let mut j: usize = 0;
                while j < draws.len()
                    invariant
                        0 <= j <= draws@.len(),
                        mesh_handle_to_draws@.contains_key(*h),
                        mesh_handle_to_draws@[*h] == *draws,
                        *it.seq()[idx] == *h,
                        forall|d: usize|
                            #[trigger] out@.contains(d) <==> (reached(
                                it.seq(),
                                mesh_handle_to_draws@,
                                idx,
                                d,
                            ) || draws@.take(j as int).contains(d)),
                    decreases draws@.len() - j,
                {
                    out.insert(draws[j]);
                    proof {
                        lemma_take_one_more(draws@, j as int);
                    }
                    j += 1;
                }
                proof {
                    assert(draws@.take(draws@.len() as int) =~= draws@);
                }
            },
            None => {},
        }
        proof {
            lemma_reached_step();
        }
    }
    proof {
        lemma_reached_all::<V>();
    }
    out
}

} // verus!
