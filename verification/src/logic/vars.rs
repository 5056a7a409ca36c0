//! The shared integer variable store for declarative logic. An unset variable
//! reads as 0, so a plain flag is a variable holding 1.

use vstd::prelude::*;
use crate::text::str_eq;

verus! {

/// `a + b`, held to the `i32` range.
pub open spec fn saturating_sum(a: i32, b: i32) -> i32 {
    if a + b > i32::MAX {
        i32::MAX
    } else if a + b < i32::MIN {
        i32::MIN
    } else {
        (a + b) as i32
    }
}

/// The map from name to value that a list of entries describes, later
/// entries overriding earlier ones.
pub open spec fn entries_map(entries: Seq<(String, i32)>) -> Map<Seq<char>, i32>
    decreases entries.len(),
{
    if entries.len() == 0 {
        Map::empty()
    } else {
        entries_map(entries.drop_last()).insert(entries.last().0@, entries.last().1)
    }
}

/// The value a variable reads as: its stored value, or 0 when unset.
pub open spec fn read_var(vars: Map<Seq<char>, i32>, name: Seq<char>) -> i32 {
    if vars.contains_key(name) {
        vars[name]
    } else {
        0
    }
}

/// The store after assigning `value` to `name`, or adding it to the current
/// value (saturating) when `add` is set.
pub open spec fn applied(vars: Map<Seq<char>, i32>, name: Seq<char>, value: i32, add: bool) -> Map<
    Seq<char>,
    i32,
> {
    vars.insert(name, if add { saturating_sum(read_var(vars, name), value) } else { value })
}

/// Named integer variables.
#[derive(Debug)]
pub struct Variables {
    entries: Vec<(String, i32)>,
}

impl Variables {
    /// No name is stored twice.
    #[verifier::type_invariant]
    closed spec fn well_formed(&self) -> bool {
        forall|i: int, j: int|
            0 <= i < j < self.entries@.len() ==> self.entries@[i].0@ != self.entries@[j].0@
    }

    /// The variables as a map from name to value.
    pub closed spec fn view(&self) -> Map<Seq<char>, i32> {
        entries_map(self.entries@)
    }

    fn find(&self, name: &str) -> (r: Option<usize>)
        ensures
            match r {
                Some(k) => k < self.entries@.len() && self.entries@[k as int].0@ == name@,
                None => forall|k: int| 0 <= k < self.entries@.len() ==> self.entries@[k].0@ != name@,
            },
    {
        let mut k: usize = 0;
        while k < self.entries.len()
            invariant
                k <= self.entries@.len(),
                forall|j: int| 0 <= j < k ==> self.entries@[j].0@ != name@,
            decreases self.entries@.len() - k,
        {
            if str_eq(self.entries[k].0.as_str(), name) {
                return Some(k);
            }
            k += 1;
        }
        None
    }

    /// The value of `name`, or 0 when it was never set.
    pub fn get(&self, name: &str) -> (r: i32)
        ensures
            r == read_var(self@, name@),
    {
        proof {
            use_type_invariant(self);
        }
        match self.find(name) {
            Some(k) => {
                proof {
                    lemma_entries_lookup(self.entries@, k as int);
                }
                self.entries[k].1
            },
            None => {
                proof {
                    lemma_entries_absent(self.entries@, name@);
                }
                0
            },
        }
    }

    /// Assign `value` to `name`, or add it to the current value (saturating at
    /// the `i32` range) when `add` is true. An unset variable starts at 0.
    pub fn apply(&mut self, name: &str, value: i32, add: bool)
        ensures
            final(self)@ == applied(old(self)@, name@, value, add),
    {
        proof {
            use_type_invariant(&*self);
        }
        let current = self.get(name);
        let next = if add {
            match current.checked_add(value) {
                Some(v) => v,
                None => if value > 0 {
                    i32::MAX
                } else {
                    i32::MIN
                },
            }
        } else {
            value
        };
        let ghost before = self.entries@;
        let found = self.find(name);
        let mut entries: Vec<(String, i32)> = Vec::new();
        std::mem::swap(&mut entries, &mut self.entries);
        let owned = name.to_owned();
        match found {
            Some(k) => {
                proof {
                    lemma_entries_update(before, k as int, (owned, next));
                }
                entries.set(k, (owned, next));
            },
            None => {
                entries.push((owned, next));
                proof {
                    assert(entries@.drop_last() =~= before);
                }
            },
        }
        self.entries = entries;
        proof {
            assert(self@ =~= applied(entries_map(before), name@, value, add));
        }
    }
}

impl Default for Variables {
    /// An empty store: every variable reads as 0.
    fn default() -> (r: Self)
        ensures
            r@ == Map::<Seq<char>, i32>::empty(),
    {
        Variables { entries: Vec::new() }
    }
}

proof fn lemma_entries_lookup(entries: Seq<(String, i32)>, k: int)
    requires
        forall|i: int, j: int| 0 <= i < j < entries.len() ==> entries[i].0@ != entries[j].0@,
        0 <= k < entries.len(),
    ensures
        entries_map(entries).contains_key(entries[k].0@),
        entries_map(entries)[entries[k].0@] == entries[k].1,
    decreases entries.len(),
{
    if k < entries.len() - 1 {
        lemma_entries_lookup(entries.drop_last(), k);
        assert(entries[k].0@ != entries.last().0@);
    }
}

proof fn lemma_entries_absent(entries: Seq<(String, i32)>, name: Seq<char>)
    requires
        forall|k: int| 0 <= k < entries.len() ==> entries[k].0@ != name,
    ensures
        !entries_map(entries).contains_key(name),
    decreases entries.len(),
{
    if entries.len() > 0 {
        lemma_entries_absent(entries.drop_last(), name);
    }
}

proof fn lemma_entries_update(entries: Seq<(String, i32)>, k: int, e: (String, i32))
    requires
        forall|i: int, j: int| 0 <= i < j < entries.len() ==> entries[i].0@ != entries[j].0@,
        0 <= k < entries.len(),
        e.0@ == entries[k].0@,
    ensures
        entries_map(entries.update(k, e)) =~= entries_map(entries).insert(e.0@, e.1),
        forall|i: int, j: int|
            0 <= i < j < entries.len() ==> entries.update(k, e)[i].0@ != entries.update(k, e)[j].0@,
    decreases entries.len(),
{
    let n = entries.len();
    if k == n - 1 {
        assert(entries.update(k, e).drop_last() =~= entries.drop_last());
    } else {
        assert(entries.update(k, e).drop_last() =~= entries.drop_last().update(k, e));
        lemma_entries_update(entries.drop_last(), k, e);
        assert(entries[k].0@ != entries.last().0@);
    }
}

/// Reading a variable back after setting it gives what was set; other
/// variables keep their values.
pub proof fn lemma_read_after_apply(
    vars: Map<Seq<char>, i32>,
    name: Seq<char>,
    value: i32,
    add: bool,
    other: Seq<char>,
)
    ensures
        read_var(applied(vars, name, value, add), name) == if add {
            saturating_sum(read_var(vars, name), value)
        } else {
            value
        },
        other != name ==> read_var(applied(vars, name, value, add), other) == read_var(vars, other),
{
}

} // verus!
