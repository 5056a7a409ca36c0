//! Counting the indices below a bound that satisfy a predicate, and the
//! arithmetic facts the counting sorts of this crate rest on.

use vstd::prelude::*;

verus! {

/// How many indices `u` in `0..m` satisfy `f`.
pub open spec fn count(m: int, f: spec_fn(int) -> bool) -> nat
    decreases m,
{
    if m <= 0 {
        0
    } else {
        count(m - 1, f) + if f(m - 1) { 1nat } else { 0nat }
    }
}

/// A predicate that never holds on the range counts nothing.
pub proof fn lemma_count_none(m: int, f: spec_fn(int) -> bool)
    requires
        forall|u: int| 0 <= u < m ==> !#[trigger] f(u),
    ensures
        count(m, f) == 0,
    decreases m,
{
    if m > 0 {
        lemma_count_none(m - 1, f);
    }
}

/// A count never exceeds the range it counts over.
pub proof fn lemma_count_bound(m: int, f: spec_fn(int) -> bool)
    requires
        0 <= m,
    ensures
        count(m, f) <= m,
    decreases m,
{
    if m > 0 {
        lemma_count_bound(m - 1, f);
    }
}

/// Predicates that agree on the range count the same.
pub proof fn lemma_count_ext(m: int, f: spec_fn(int) -> bool, g: spec_fn(int) -> bool)
    requires
        forall|u: int| 0 <= u < m ==> #[trigger] f(u) == g(u),
    ensures
        count(m, f) == count(m, g),
    decreases m,
{
    if m > 0 {
        lemma_count_ext(m - 1, f, g);
    }
}

/// A predicate implied by another counts at least as many.
pub proof fn lemma_count_mono(m: int, f: spec_fn(int) -> bool, g: spec_fn(int) -> bool)
    requires
        forall|u: int| 0 <= u < m && #[trigger] f(u) ==> g(u),
    ensures
        count(m, f) <= count(m, g),
    decreases m,
{
    if m > 0 {
        lemma_count_mono(m - 1, f, g);
    }
}

/// As above, strictly, when `g` also holds at an index where `f` does not.
pub proof fn lemma_count_mono_strict(
    m: int,
    f: spec_fn(int) -> bool,
    g: spec_fn(int) -> bool,
    w: int,
)
    requires
        forall|u: int| 0 <= u < m && #[trigger] f(u) ==> g(u),
        0 <= w < m,
        g(w),
        !f(w),
    ensures
        count(m, f) < count(m, g),
    decreases m,
{
    if w < m - 1 {
        lemma_count_mono_strict(m - 1, f, g, w);
    } else {
        lemma_count_mono(m - 1, f, g);
    }
}

/// How many indices in `0..m` have key `b`.
pub open spec fn count_eq(key: spec_fn(int) -> int, m: int, b: int) -> nat
    decreases m,
{
    if m <= 0 {
        0
    } else {
        count_eq(key, m - 1, b) + if key(m - 1) == b { 1nat } else { 0nat }
    }
}

/// How many indices in `0..m` have a key below `b`.
pub open spec fn count_lt(key: spec_fn(int) -> int, m: int, b: int) -> nat
    decreases m,
{
    if m <= 0 {
        0
    } else {
        count_lt(key, m - 1, b) + if key(m - 1) < b { 1nat } else { 0nat }
    }
}

/// Where a stable counting sort by `key` puts index `t` of `0..n`: after every
/// index with a smaller key, and after the earlier indices sharing its key.
pub open spec fn sorted_position(key: spec_fn(int) -> int, n: int, t: int) -> nat {
    count_lt(key, n, key(t)) + count_eq(key, t, key(t))
}

/// Key counts never exceed the range.
pub proof fn lemma_count_key_bound(key: spec_fn(int) -> int, m: int, b: int)
    requires
        0 <= m,
    ensures
        count_eq(key, m, b) <= m,
        count_lt(key, m, b) <= m,
    decreases m,
{
    if m > 0 {
        lemma_count_key_bound(key, m - 1, b);
    }
}

/// The indices below the next key are those below this one plus those at it.
pub proof fn lemma_count_key_step(key: spec_fn(int) -> int, n: int, b: int)
    requires
        0 <= n,
    ensures
        count_lt(key, n, b + 1) == count_lt(key, n, b) + count_eq(key, n, b),
        count_lt(key, n, b + 1) <= n,
    decreases n,
{
    if n > 0 {
        lemma_count_key_step(key, n - 1, b);
    }
    lemma_count_key_bound(key, n, b + 1);
}

/// A longer prefix holds at least as many indices at a key, and strictly more
/// once it covers one.
pub proof fn lemma_count_eq_prefix(key: spec_fn(int) -> int, t: int, n: int, b: int)
    requires
        0 <= t <= n,
    ensures
        count_eq(key, t, b) <= count_eq(key, n, b),
        t < n && key(t) == b ==> count_eq(key, t, b) < count_eq(key, n, b),
    decreases n - t,
{
    if t < n {
        lemma_count_eq_prefix(key, t, n - 1, b);
        if t < n - 1 && key(t) == b {
            lemma_count_eq_prefix(key, t + 1, n - 1, b);
        }
    }
}

/// A higher bound counts at least as many indices below it.
pub proof fn lemma_count_lt_mono(key: spec_fn(int) -> int, n: int, b1: int, b2: int)
    requires
        0 <= n,
        b1 <= b2,
    ensures
        count_lt(key, n, b1) <= count_lt(key, n, b2),
    decreases n,
{
    if n > 0 {
        lemma_count_lt_mono(key, n - 1, b1, b2);
    }
}

/// No key is negative, so nothing is below zero.
pub proof fn lemma_count_lt_zero(key: spec_fn(int) -> int, n: int)
    requires
        forall|u: int| 0 <= u < n ==> #[trigger] key(u) >= 0,
    ensures
        count_lt(key, n, 0) == 0,
    decreases n,
{
    if n > 0 {
        lemma_count_lt_zero(key, n - 1);
    }
}

/// A sorted position lies within `0..n`.
pub proof fn lemma_sorted_position_bound(key: spec_fn(int) -> int, n: int, t: int)
    requires
        0 <= t < n,
    ensures
        sorted_position(key, n, t) < n,
{
    let b = key(t);
    lemma_count_eq_prefix(key, t, n, b);
    lemma_count_key_step(key, n, b);
}

/// Sorted positions follow the (key, index) order, so no two indices share one.
pub proof fn lemma_sorted_position_lt(key: spec_fn(int) -> int, n: int, t: int, s: int)
    requires
        0 <= t < n,
        0 <= s < n,
        key(t) < key(s) || (key(t) == key(s) && t < s),
    ensures
        sorted_position(key, n, t) < sorted_position(key, n, s),
{
    let bt = key(t);
    let bs = key(s);
    if bt == bs {
        lemma_count_eq_prefix(key, t, s, bt);
    } else {
        lemma_count_eq_prefix(key, t, n, bt);
        lemma_count_key_step(key, n, bt);
        lemma_count_lt_mono(key, n, bt + 1, bs);
    }
}

/// Sorted positions are a permutation of `0..n`: every position below `n`
/// is the sorted position of some index.
pub proof fn lemma_sorted_position_onto(key: spec_fn(int) -> int, n: int, p: int)
    requires
        0 <= p < n,
    ensures
        exists|t: int| 0 <= t < n && #[trigger] sorted_position(key, n, t) == p,
{
    let dom = vstd::set_lib::set_int_range(0, n);
    let f = |t: int| sorted_position(key, n, t) as int;
    vstd::set_lib::lemma_int_range(0, n);
    assert forall|a: int, b: int| dom.contains(a) && dom.contains(b) && #[trigger] f(a) == #[trigger] f(
        b,
    ) implies a == b by {
        if a < b {
            if key(a) <= key(b) {
                lemma_sorted_position_lt(key, n, a, b);
            } else {
                lemma_sorted_position_lt(key, n, b, a);
            }
        } else if b < a {
            if key(b) <= key(a) {
                lemma_sorted_position_lt(key, n, b, a);
            } else {
                lemma_sorted_position_lt(key, n, a, b);
            }
        }
    }
    let img = dom.map(f);
    vstd::set_lib::lemma_map_size(dom, img, f);
    assert forall|x: int| img.contains(x) implies dom.contains(x) by {
        let t = choose|t: int| dom.contains(t) && f(t) == x;
        lemma_sorted_position_bound(key, n, t);
    }
    vstd::set_lib::lemma_subset_equality(img, dom);
    assert(img.contains(p));
    let t = choose|t: int| dom.contains(t) && f(t) == p;
    assert(sorted_position(key, n, t) == p);
}

/// The sorted position of `t` counts the indices ordered before it.
pub proof fn lemma_sorted_position_rank(key: spec_fn(int) -> int, n: int, t: int)
    requires
        0 <= t <= n,
    ensures
        sorted_position(key, n, t) == count(
            n,
            |u: int| key(u) < key(t) || (key(u) == key(t) && u < t),
        ),
{
    lemma_rank_prefix(key, n, t);
}

proof fn lemma_rank_prefix(key: spec_fn(int) -> int, m: int, t: int)
    requires
        0 <= m,
        0 <= t,
    ensures
        count(m, |u: int| key(u) < key(t) || (key(u) == key(t) && u < t)) == count_lt(
            key,
            m,
            key(t),
        ) + count_eq(key, if m < t { m } else { t }, key(t)),
    decreases m,
{
    if m > 0 {
        lemma_rank_prefix(key, m - 1, t);
    }
}

} // verus!
