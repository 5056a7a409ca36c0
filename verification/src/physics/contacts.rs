//! The per-pair refractory gate between the simulation's contact hits and the
//! published queue: a body pair in sustained contact reports once, then stays
//! silent until a cooldown has elapsed.

use vstd::prelude::*;

verus! {

/// Ticks a body pair stays silent after reporting a contact (0.25 s at the
/// fixed 60 Hz tick).
pub const REPORT_COOLDOWN_TICKS: u64 = 15;

/// Entries past this many trigger a sweep of long-cooled pairs.
pub const SWEEP_THRESHOLD: usize = 256;

/// A simulation body's handle.
pub type BodyHandle = u64;

/// The unordered pair key of two bodies, so (a, b) and (b, a) gate together.
pub open spec fn pair_of(a: BodyHandle, b: BodyHandle) -> (BodyHandle, BodyHandle) {
    if a <= b {
        (a, b)
    } else {
        (b, a)
    }
}

/// The unordered pair key of two bodies.
pub fn pair_key(a: BodyHandle, b: BodyHandle) -> (r: (BodyHandle, BodyHandle))
    ensures
        r == pair_of(a, b),
{
    if a <= b {
        (a, b)
    } else {
        (b, a)
    }
}

/// The last report tick of each pair a list of entries records, later entries
/// overriding earlier ones.
pub open spec fn report_map(entries: Seq<(BodyHandle, BodyHandle, u64)>) -> Map<
    (BodyHandle, BodyHandle),
    u64,
>
    decreases entries.len(),
{
    if entries.len() == 0 {
        Map::empty()
    } else {
        let e = entries.last();
        report_map(entries.drop_last()).insert((e.0, e.1), e.2)
    }
}

/// A pair reported recently enough to stay silent at `tick`.
pub open spec fn cooling(reports: Map<(BodyHandle, BodyHandle), u64>, key: (BodyHandle, BodyHandle), tick: u64) -> bool {
    reports.contains_key(key) && tick - reports[key] < REPORT_COOLDOWN_TICKS
}

/// Per-pair refractory: each pair's last report tick, and the current tick.
#[derive(Debug)]
pub struct ContactGate {
    last_report: Vec<(BodyHandle, BodyHandle, u64)>,
    tick: u64,
}

proof fn lemma_report_lookup(entries: Seq<(BodyHandle, BodyHandle, u64)>, k: int)
    requires
        forall|i: int, j: int|
            0 <= i < j < entries.len() ==> (entries[i].0, entries[i].1) != (entries[j].0, entries[j].1),
        0 <= k < entries.len(),
    ensures
        report_map(entries).contains_key((entries[k].0, entries[k].1)),
        report_map(entries)[(entries[k].0, entries[k].1)] == entries[k].2,
    decreases entries.len(),
{
    if k < entries.len() - 1 {
        lemma_report_lookup(entries.drop_last(), k);
    }
}

proof fn lemma_report_absent(entries: Seq<(BodyHandle, BodyHandle, u64)>, key: (BodyHandle, BodyHandle))
    requires
        forall|k: int| 0 <= k < entries.len() ==> (entries[k].0, entries[k].1) != key,
    ensures
        !report_map(entries).contains_key(key),
    decreases entries.len(),
{
    if entries.len() > 0 {
        lemma_report_absent(entries.drop_last(), key);
    }
}

proof fn lemma_report_keys(entries: Seq<(BodyHandle, BodyHandle, u64)>, key: (BodyHandle, BodyHandle))
    requires
        report_map(entries).contains_key(key),
    ensures
        exists|k: int| 0 <= k < entries.len() && (entries[k].0, entries[k].1) == key,
    decreases entries.len(),
{
    let e = entries.last();
    if (e.0, e.1) != key {
        lemma_report_keys(entries.drop_last(), key);
        let k = choose|k: int|
            0 <= k < entries.drop_last().len() && (entries.drop_last()[k].0, entries.drop_last()[k].1) == key;
        assert(entries[k] == entries.drop_last()[k]);
    } else {
        assert((entries[entries.len() - 1].0, entries[entries.len() - 1].1) == key);
    }
}

proof fn lemma_report_update(entries: Seq<(BodyHandle, BodyHandle, u64)>, k: int, e: (BodyHandle, BodyHandle, u64))
    requires
        forall|i: int, j: int|
            0 <= i < j < entries.len() ==> (entries[i].0, entries[i].1) != (entries[j].0, entries[j].1),
        0 <= k < entries.len(),
        (e.0, e.1) == (entries[k].0, entries[k].1),
    ensures
        report_map(entries.update(k, e)) =~= report_map(entries).insert((e.0, e.1), e.2),
    decreases entries.len(),
{
    let n = entries.len();
    if k == n - 1 {
        assert(entries.update(k, e).drop_last() =~= entries.drop_last());
    } else {
        assert(entries.update(k, e).drop_last() =~= entries.drop_last().update(k, e));
        lemma_report_update(entries.drop_last(), k, e);
    }
}

impl ContactGate {
    /// Each pair's last report tick.
    pub closed spec fn view(&self) -> Map<(BodyHandle, BodyHandle), u64> {
        report_map(self.last_report@)
    }

    /// The current tick.
    pub closed spec fn now(&self) -> u64 {
        self.tick
    }

    /// How many pairs are recorded.
    pub closed spec fn pair_count(&self) -> nat {
        self.last_report@.len()
    }

    /// No pair is recorded twice, and no report lies in the future.
    #[verifier::type_invariant]
    closed spec fn well_formed(&self) -> bool {
        &&& forall|i: int, j: int|
            0 <= i < j < self.last_report@.len() ==> (self.last_report@[i].0, self.last_report@[i].1)
                != (self.last_report@[j].0, self.last_report@[j].1)
        &&& forall|i: int| 0 <= i < self.last_report@.len() ==> #[trigger] self.last_report@[i].2 <= self.tick
    }

    /// A gate at tick 0 with nothing reported, with room for `pairs` pairs.
    pub fn with_capacity(pairs: usize) -> (r: Self)
        ensures
            r@ == Map::<(BodyHandle, BodyHandle), u64>::empty(),
            r.pair_count() == 0,
            r.now() == 0,
    {
        ContactGate { last_report: Vec::with_capacity(pairs), tick: 0 }
    }

    /// Advance one tick. Past the sweep threshold, pairs whose cooldown has
    /// elapsed are forgotten, so the table tracks live contact, not history.
    pub fn advance_tick(&mut self)
        requires
            old(self).now() < u64::MAX,
        ensures
            final(self).now() == old(self).now() + 1,
            old(self).pair_count() <= SWEEP_THRESHOLD ==> final(self)@ == old(self)@,
            old(self).pair_count() > SWEEP_THRESHOLD ==> final(self)@ == old(self)@.restrict(
                old(self)@.dom().filter(
                    |k: (BodyHandle, BodyHandle)| cooling(old(self)@, k, final(self).now()),
                ),
            ),
    {
        proof {
            use_type_invariant(&*self);
        }
        let ghost before = self.last_report@;
        let ghost old_map = report_map(before);
        let mut entries: Vec<(BodyHandle, BodyHandle, u64)> = Vec::new();
        std::mem::swap(&mut entries, &mut self.last_report);
        let tick = self.tick + 1;
        self.tick = tick;
        if entries.len() > SWEEP_THRESHOLD {
            let mut kept: Vec<(BodyHandle, BodyHandle, u64)> = Vec::new();
            let mut i: usize = 0;
            while i < entries.len()
                invariant
                    i <= entries@.len(),
                    entries@ == before,
                    forall|x: int, y: int|
                        0 <= x < y < before.len() ==> (before[x].0, before[x].1) != (before[y].0, before[y].1),
                    forall|x: int| 0 <= x < before.len() ==> #[trigger] before[x].2 < tick,
                    forall|x: int, y: int|
                        0 <= x < y < kept@.len() ==> (kept@[x].0, kept@[x].1) != (kept@[y].0, kept@[y].1),
                    forall|x: int| 0 <= x < kept@.len() ==> #[trigger] kept@[x].2 <= tick,
                    forall|x: int|
                        #![trigger kept@[x]]
                        0 <= x < kept@.len() ==> exists|y: int| 0 <= y < i && #[trigger] before[y] == kept@[x],
                    report_map(kept@) =~= report_map(before.take(i as int)).restrict(
                        report_map(before.take(i as int)).dom().filter(
                            |k: (BodyHandle, BodyHandle)| cooling(report_map(before.take(i as int)), k, tick),
                        ),
                    ),
                decreases entries@.len() - i,
            {
                let e = entries[i];
                proof {
                    assert(before.take(i + 1).drop_last() =~= before.take(i as int));
                    assert(before.take(i + 1).last() == e);
                }
                if tick - e.2 < REPORT_COOLDOWN_TICKS {
                    let ghost prev = kept@;
                    kept.push(e);
                    proof {
                        assert(kept@.drop_last() =~= prev);
                        assert forall|x: int| 0 <= x < prev.len() implies (kept@[x].0, kept@[x].1) != (e.0, e.1) by {
                            let y = choose|y: int| 0 <= y < i && #[trigger] before[y] == prev[x];
                            assert(before[y] == kept@[x]);
                            assert((before[y].0, before[y].1) != (before[i as int].0, before[i as int].1));
                        }
                        lemma_report_absent(before.take(i as int), (e.0, e.1));
                    }
                } else {
                    proof {
                        lemma_report_absent(before.take(i as int), (e.0, e.1));
                    }
                }
                i += 1;
            }
            proof {
                assert(before.take(before.len() as int) =~= before);
            }
            self.last_report = kept;
        } else {
            self.last_report = entries;
        }
    }

    /// Whether a contact between `a` and `b` reports now: not while the pair's
    /// last report is within the cooldown; a report restarts the cooldown.
    pub fn allow_report(&mut self, a: BodyHandle, b: BodyHandle) -> (r: bool)
        ensures
            r == !cooling(old(self)@, pair_of(a, b), old(self).now()),
            final(self).now() == old(self).now(),
            r ==> final(self)@ == old(self)@.insert(pair_of(a, b), old(self).now()),
            !r ==> final(self)@ == old(self)@,
    {
        proof {
            use_type_invariant(&*self);
        }
        let key = pair_key(a, b);
        let ghost before = self.last_report@;
        let mut found: Option<usize> = None;
        let mut k: usize = 0;
        while k < self.last_report.len()
            invariant_except_break
                found is None,
                forall|j: int| 0 <= j < k ==> (before[j].0, before[j].1) != key,
            invariant
                k <= self.last_report@.len(),
                before == self.last_report@,
            ensures
                match found {
                    Some(f) => f < before.len() && (before[f as int].0, before[f as int].1) == key,
                    None => forall|j: int| 0 <= j < before.len() ==> (before[j].0, before[j].1) != key,
                },
            decreases self.last_report@.len() - k,
        {
            let e = self.last_report[k];
            if e.0 == key.0 && e.1 == key.1 {
                found = Some(k);
                break;
            }
            k += 1;
        }
        let tick = self.tick;
        match found {
            Some(f) => {
                let last = self.last_report[f].2;
                proof {
                    lemma_report_lookup(before, f as int);
                }
                if tick - last < REPORT_COOLDOWN_TICKS {
                    return false;
                }
                let mut entries: Vec<(BodyHandle, BodyHandle, u64)> = Vec::new();
                std::mem::swap(&mut entries, &mut self.last_report);
                proof {
                    lemma_report_update(before, f as int, (key.0, key.1, tick));
                }
                entries.set(f, (key.0, key.1, tick));
                self.last_report = entries;
                true
            },
            None => {
                proof {
                    lemma_report_absent(before, key);
                }
                let mut entries: Vec<(BodyHandle, BodyHandle, u64)> = Vec::new();
                std::mem::swap(&mut entries, &mut self.last_report);
                entries.push((key.0, key.1, tick));
                proof {
                    assert(entries@.drop_last() =~= before);
                }
                self.last_report = entries;
                true
            },
        }
    }
}

impl Default for ContactGate {
    /// A gate at tick 0 with nothing reported.
    fn default() -> (r: Self)
        ensures
            r@ == Map::<(BodyHandle, BodyHandle), u64>::empty(),
            r.now() == 0,
    {
        ContactGate::with_capacity(0)
    }
}

/// A pair that just reported stays silent for the whole cooldown, whichever
/// way round its bodies are named.
pub proof fn lemma_report_silences_pair(
    reports: Map<(BodyHandle, BodyHandle), u64>,
    a: BodyHandle,
    b: BodyHandle,
    now: u64,
    later: u64,
)
    requires
        now <= later,
        later - now < REPORT_COOLDOWN_TICKS,
    ensures
        cooling(reports.insert(pair_of(a, b), now), pair_of(b, a), later),
{
}

} // verus!
