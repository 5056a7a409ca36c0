//! The debug HUD's per-pass timing chip and system-budget chip.

use vstd::prelude::*;
use crate::count::{
    count_eq, count_lt, lemma_count_eq_prefix, lemma_count_key_step, lemma_sorted_position_bound,
    lemma_sorted_position_onto,
    lemma_sorted_position_lt, sorted_position,
};
use crate::text::{decimal, push_decimal, push_str};
use crate::hud::stat_hud::MIB;
use crate::hud::millis::{millis_tenths, ms_tenths};

verus! {

/// One render pass's name and GPU microseconds for the last frame.
pub type PassTiming = (&'static str, u32);

/// How many passes the chip lists.
pub const PASSES_CHIP_TOP_N: usize = 6;

/// A slot carries a recorded pass: a name and a nonzero time.
pub open spec fn pass_recorded(e: PassTiming) -> bool {
    e.0@.len() > 0 && e.1 > 0
}

/// The recorded slots, in slot order.
pub open spec fn recorded(slots: Seq<PassTiming>) -> Seq<PassTiming> {
    slots.filter(|e: PassTiming| pass_recorded(e))
}

/// The ranking key: longer passes first.
pub open spec fn pass_key(kept: Seq<PassTiming>) -> spec_fn(int) -> int {
    |i: int| -(kept[i].1 as int)
}

/// `top` holds the recorded passes of `slots` ordered by descending time,
/// equal times keeping slot order, cut to the chip's length.
pub open spec fn top_passes(slots: Seq<PassTiming>, top: Seq<PassTiming>) -> bool {
    let kept = recorded(slots);
    let n = kept.len() as int;
    &&& top.len() == if n < PASSES_CHIP_TOP_N { n } else { PASSES_CHIP_TOP_N as int }
    &&& forall|i: int|
        0 <= i < n && #[trigger] sorted_position(pass_key(kept), n, i) < PASSES_CHIP_TOP_N ==> top[sorted_position(
            pass_key(kept),
            n,
            i,
        ) as int] == kept[i]
}

/// A recorded pass that took longer than another, or as long from an earlier
/// slot, ranks ahead of it; so no two recorded passes share a rank, and every
/// rank lies below the number of recorded passes.
pub proof fn lemma_longer_pass_ranks_first(slots: Seq<PassTiming>, i: int, j: int)
    requires
        0 <= i < recorded(slots).len(),
        0 <= j < recorded(slots).len(),
        recorded(slots)[i].1 > recorded(slots)[j].1 || (recorded(slots)[i].1 == recorded(slots)[j].1
            && i < j),
    ensures
        sorted_position(pass_key(recorded(slots)), recorded(slots).len() as int, i)
            < sorted_position(pass_key(recorded(slots)), recorded(slots).len() as int, j),
        sorted_position(pass_key(recorded(slots)), recorded(slots).len() as int, j)
            < recorded(slots).len(),
{
    let kept = recorded(slots);
    lemma_sorted_position_lt(pass_key(kept), kept.len() as int, i, j);
    lemma_sorted_position_bound(pass_key(kept), kept.len() as int, j);
}

/// Every line of the chip is a recorded pass listed at its rank, and the lines
/// run by descending time.
pub proof fn lemma_chip_lines_are_ranked(slots: Seq<PassTiming>, top: Seq<PassTiming>, p: int, q: int)
    requires
        top_passes(slots, top),
        0 <= p < q < top.len(),
    ensures
        exists|i: int|
            0 <= i < recorded(slots).len() && top[p] == recorded(slots)[i] && #[trigger] sorted_position(
                pass_key(recorded(slots)),
                recorded(slots).len() as int,
                i,
            ) == p,
        top[p].1 >= top[q].1,
{
    let kept = recorded(slots);
    let n = kept.len() as int;
    let key = pass_key(kept);
    lemma_sorted_position_onto(key, n, p);
    lemma_sorted_position_onto(key, n, q);
    let i = choose|i: int| 0 <= i < n && #[trigger] sorted_position(key, n, i) == p;
    let j = choose|j: int| 0 <= j < n && #[trigger] sorted_position(key, n, j) == q;
    assert(top[p] == kept[i]);
    assert(top[q] == kept[j]);
    if key(j) < key(i) {
        lemma_sorted_position_lt(key, n, j, i);
    }
}

/// A pass time as the chip shows it: whole microseconds below a millisecond,
/// else milliseconds to one decimal, as the single-precision quotient prints.
pub open spec fn time_text(micros: u32) -> Seq<char> {
    if micros < 1000 {
        decimal(micros as nat) + " us"@
    } else {
        let tenths = ms_tenths(micros as nat) as nat;
        decimal(tenths / 10) + "."@ + decimal(tenths % 10) + " ms"@
    }
}

/// One line per pass: its name and time.
pub open spec fn pass_lines(top: Seq<PassTiming>) -> Seq<char>
    decreases top.len(),
{
    if top.len() == 0 {
        Seq::empty()
    } else {
        pass_lines(top.drop_last()) + "\n"@ + top.last().0@ + " "@ + time_text(top.last().1)
    }
}

/// The passes chip: blank with nothing recorded, else a `PASSES` header and
/// one line per listed pass.
pub open spec fn passes_chip(top: Seq<PassTiming>) -> Seq<char> {
    if top.len() == 0 {
        Seq::empty()
    } else {
        "PASSES"@ + pass_lines(top)
    }
}

fn push_time(out: &mut String, micros: u32)
    ensures
        final(out)@ == old(out)@ + time_text(micros),
{
    if micros < 1000 {
        push_decimal(out, micros as u64);
        push_str(out, " us");
    } else {
        let tenths = millis_tenths(micros);
        push_decimal(out, tenths / 10);
        push_str(out, ".");
        push_decimal(out, tenths % 10);
        push_str(out, " ms");
    }
}

fn is_recorded(e: PassTiming) -> (r: bool)
    ensures
        r == pass_recorded(e),
{
    e.0.unicode_len() > 0 && e.1 > 0
}

// The recorded passes ranked by descending time (stable), cut to the chip's
// length.
fn rank_passes(slots: &[PassTiming]) -> (top: Vec<PassTiming>)
    ensures
        top_passes(slots@, top@),
{
    proof {
        reveal_strlit("");
    }
    let mut kept: Vec<PassTiming> = Vec::new();
    let mut i: usize = 0;
    while i < slots.len()
        invariant
            i <= slots@.len(),
            kept@ == slots@.take(i as int).filter(|e: PassTiming| pass_recorded(e)),
        decreases slots@.len() - i,
    {
        let e = slots[i];
        proof {
            assert(slots@.take(i + 1).drop_last() =~= slots@.take(i as int));
            reveal_with_fuel(Seq::filter, 1);
        }
        if is_recorded(e) {
            kept.push(e);
        }
        i += 1;
    }
    proof {
        assert(slots@.take(slots@.len() as int) =~= slots@);
    }
    let n = kept.len();
    let ghost key = pass_key(kept@);
    let len = if n < PASSES_CHIP_TOP_N { n } else { PASSES_CHIP_TOP_N };
    let mut top: Vec<PassTiming> = Vec::new();
    let mut p: usize = 0;
    while p < len
        invariant
            p <= len,
            top@.len() == p,
        decreases len - p,
    {
        top.push(("", 0));
        p += 1;
    }
    let mut i: usize = 0;
    while i < n
        invariant
            n == kept@.len(),
            key == pass_key(kept@),
            kept@ == recorded(slots@),
            len == if n < PASSES_CHIP_TOP_N { n } else { PASSES_CHIP_TOP_N },
            top@.len() == len,
            i <= n,
            forall|t: int|
                0 <= t < i && #[trigger] sorted_position(key, n as int, t) < PASSES_CHIP_TOP_N ==> top@[sorted_position(
                    key,
                    n as int,
                    t,
                ) as int] == kept@[t],
        decreases n - i,
    {
        let micros = kept[i].1;
        let mut pos: usize = 0;
        let mut j: usize = 0;
        while j < n
            invariant
                n == kept@.len(),
                key == pass_key(kept@),
                i < n,
                micros == kept@[i as int].1,
                j <= n,
                pos == count_lt(key, j as int, key(i as int)) + count_eq(
                    key,
                    if j < i { j as int } else { i as int },
                    key(i as int),
                ),
                pos <= j,
            decreases n - j,
        {
            proof {
                let b = key(i as int);
                let m = if j + 1 < i { j + 1 } else { i as int };
                lemma_count_key_step(key, j + 1, b);
                lemma_count_eq_prefix(key, m, j + 1, b);
            }
            let other = kept[j].1;
            if other > micros {
                pos += 1;
            }
            if j < i && other == micros {
                pos += 1;
            }
            j += 1;
        }
        proof {
            lemma_sorted_position_bound(key, n as int, i as int);
            assert(pos == sorted_position(key, n as int, i as int));
        }
        if pos < len {
            let ghost prev = top@;
            top.set(pos, kept[i]);
            proof {
                assert forall|t: int|
                    0 <= t < i + 1 && #[trigger] sorted_position(key, n as int, t) < PASSES_CHIP_TOP_N implies top@[sorted_position(
                        key,
                        n as int,
                        t,
                    ) as int] == kept@[t] by {
                    lemma_sorted_position_bound(key, n as int, t);
                    if t < i {
                        if key(i as int) < key(t) {
                            lemma_sorted_position_lt(key, n as int, i as int, t);
                        } else {
                            lemma_sorted_position_lt(key, n as int, t, i as int);
                        }
                    }
                }
            }
        }
        i += 1;
    }
    top
}

/// Build the per-pass timing chip: the recorded passes by descending GPU
/// microseconds (equal times in slot order), at most six, one per line under a
/// `PASSES` header; blank when nothing is recorded.
pub fn passes_text(slots: &[PassTiming]) -> (r: String)
    ensures
        exists|top: Seq<PassTiming>| top_passes(slots@, top) && r@ == passes_chip(top),
{
    let top = rank_passes(slots);
    let mut out = String::new();
    if top.len() == 0 {
        assert(top_passes(slots@, top@) && out@ == passes_chip(top@));
        return out;
    }
    push_str(&mut out, "PASSES");
    let mut i: usize = 0;
    while i < top.len()
        invariant
            i <= top@.len(),
            out@ == "PASSES"@ + pass_lines(top@.take(i as int)),
        decreases top@.len() - i,
    {
        let (name, micros) = top[i];
        proof {
            assert(top@.take(i + 1).drop_last() =~= top@.take(i as int));
        }
        push_str(&mut out, "\n");
        push_str(&mut out, name);
        push_str(&mut out, " ");
        push_time(&mut out, micros);
        i += 1;
    }
    proof {
        assert(top@.take(top@.len() as int) =~= top@);
    }
    assert(top_passes(slots@, top@) && out@ == passes_chip(top@));
    out
}

/// The system-budget chip: job threads against cores, and resident memory
/// against the budget, each half reading `--` when unknown.
pub open spec fn sys_chip(
    threads: Option<(usize, usize)>,
    rss: Option<u64>,
    budget_mib: Option<u64>,
) -> Seq<char> {
    let threads_part = match threads {
        Some((job, cores)) => "threads "@ + decimal(job as nat) + "/"@ + decimal(cores as nat),
        None => "threads --"@,
    };
    let mem_part = match (rss, budget_mib) {
        (Some(rss), Some(budget)) => "mem "@ + decimal((rss / MIB) as nat) + "/"@ + decimal(
            budget as nat,
        ) + " MB"@,
        (Some(rss), None) => "mem "@ + decimal((rss / MIB) as nat) + " MB"@,
        (None, _) => "mem -- MB"@,
    };
    threads_part + " | "@ + mem_part
}

/// Build the system-budget chip from the job pool's worker count against the
/// core count and the process resident set against the memory budget.
pub fn sys_text(threads: Option<(usize, usize)>, rss: Option<u64>, budget_mib: Option<u64>) -> (r:
    String)
    ensures
        r@ == sys_chip(threads, rss, budget_mib),
{
    let mut out = String::new();
    match threads {
        Some((job, cores)) => {
            push_str(&mut out, "threads ");
            push_decimal(&mut out, job as u64);
            push_str(&mut out, "/");
            push_decimal(&mut out, cores as u64);
        },
        None => push_str(&mut out, "threads --"),
    }
    push_str(&mut out, " | ");
    match (rss, budget_mib) {
        (Some(rss), Some(budget)) => {
            push_str(&mut out, "mem ");
            push_decimal(&mut out, rss / MIB);
            push_str(&mut out, "/");
            push_decimal(&mut out, budget);
            push_str(&mut out, " MB");
        },
        (Some(rss), None) => {
            push_str(&mut out, "mem ");
            push_decimal(&mut out, rss / MIB);
            push_str(&mut out, " MB");
        },
        (None, _) => push_str(&mut out, "mem -- MB"),
    }
    out
}

} // verus!
