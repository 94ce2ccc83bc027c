//! Keyboard navigation over a list of entries: stepping cyclically to the next entry the
//! keyboard focus can land on, and mapping key presses to navigation commands.

use vstd::prelude::*;
use vstd::arithmetic::div_mod::{
    lemma_add_mod_noop,
    lemma_add_mod_noop_right,
    lemma_sub_mod_noop,
    lemma_sub_mod_noop_right,
    lemma_small_mod,
    lemma_mod_add_multiples_vanish,
    lemma_mod_sub_multiples_vanish,
    lemma_mod_bound,
};
use crate::item::ItemSpec;

verus! {

/// The position reached after `k` cyclic steps from `start` in a list of `len` entries.
pub open spec fn step_pos(len: int, start: int, k: int, forward: bool) -> int {
    if forward {
        (start + k) % len
    } else {
        (start - k) % len
    }
}

/// The first navigable entry among the positions reached after `k + 1`, `k + 2`, …, `len` steps
/// from `start`.
pub open spec fn nav_scan(items: Seq<ItemSpec>, start: int, forward: bool, k: int) -> Option<int>
    decreases items.len() - k,
{
    if k < 0 || k >= items.len() {
        None
    } else {
        let p = step_pos(items.len() as int, start, k + 1, forward);
        if items[p].navigable {
            Some(p)
        } else {
            nav_scan(items, start, forward, k + 1)
        }
    }
}

/// Where stepping starts: the given entry, or, with nothing highlighted yet, just before the
/// first entry (forward) or just after the last one (backward).
pub open spec fn nav_start(len: int, from: Option<usize>, forward: bool) -> int {
    match from {
        Some(i) => i as int,
        None => if forward {
            len - 1
        } else {
            0
        },
    }
}

/// The entry keyboard navigation lands on when stepping from `from` in the given direction,
/// wrapping around and skipping inert entries; `None` for an empty list or when nothing is
/// navigable.
pub open spec fn spec_next_navigable(items: Seq<ItemSpec>, from: Option<usize>, forward: bool) -> Option<int> {
    if items.len() == 0 {
        None
    } else {
        nav_scan(items, nav_start(items.len() as int, from, forward), forward, 0)
    }
}

proof fn lemma_step_advance(len: int, start: int, k: int, forward: bool, idx: int)
    requires
        len > 0,
        idx == step_pos(len, start, k, forward),
    ensures
        0 <= idx < len,
        forward ==> step_pos(len, start, k + 1, forward) == (if idx + 1 == len { 0 } else { idx + 1 }),
        !forward ==> step_pos(len, start, k + 1, forward) == (if idx == 0 { len - 1 } else { idx - 1 }),
{
    lemma_mod_bound(start + k, len);
    lemma_mod_bound(start - k, len);
    if forward {
        lemma_add_mod_noop(start + k, 1, len);
        assert(start + (k + 1) == (start + k) + 1);
        if len == 1 {
            lemma_mod_bound(start + k + 1, len);
        } else {
            lemma_small_mod(1, len as nat);
            if idx + 1 < len {
                lemma_small_mod((idx + 1) as nat, len as nat);
            } else {
                lemma_mod_add_multiples_vanish(0, len);
                lemma_small_mod(0, len as nat);
            }
        }
    } else {
        lemma_sub_mod_noop(start - k, 1, len);
        assert(start - (k + 1) == (start - k) - 1);
        if len == 1 {
            lemma_mod_bound(start - k - 1, len);
        } else {
            lemma_small_mod(1, len as nat);
            if idx >= 1 {
                lemma_small_mod((idx - 1) as nat, len as nat);
            } else {
                lemma_mod_add_multiples_vanish(-1, len);
                lemma_small_mod((len - 1) as nat, len as nat);
            }
        }
    }
}

/// The entry keyboard navigation lands on when stepping from `from` in the given direction,
/// wrapping around and skipping inert entries (separators, disabled actions). With nothing
/// highlighted yet, the first step lands on the first entry (forward) or the last one
/// (backward). Returns `None` when no entry is navigable.
pub fn next_navigable(items: &Vec<ItemSpec>, from: Option<usize>, forward: bool) -> (r: Option<usize>)
    ensures
        r matches Some(i) ==> Some(i as int) == spec_next_navigable(items@, from, forward),
        r is None ==> spec_next_navigable(items@, from, forward) is None,
        r matches Some(i) ==> i < items.len() && items@[i as int].navigable,
{
    let len = items.len();
    if len == 0 {
        return None;
    }
    let ghost s = nav_start(len as int, from, forward);
    let start: usize = match from {
        Some(i) => i % len,
        None => if forward {
            len - 1
        } else {
            0
        },
    };
    proof {
        lemma_small_mod((len - 1) as nat, len as nat);
        lemma_small_mod(0, len as nat);
        if forward {
            assert(step_pos(len as int, s, 0, forward) == s % (len as int));
        } else {
            assert(s - 0 == s);
            assert(step_pos(len as int, s, 0, forward) == s % (len as int));
        }
    }
    let mut idx = start;
    let mut k: usize = 0;
    while k < len
        invariant
            len == items.len(),
            len > 0,
            s == nav_start(len as int, from, forward),
            0 <= k <= len,
            idx == step_pos(len as int, s, k as int, forward),
            nav_scan(items@, s, forward, 0) == nav_scan(items@, s, forward, k as int),
        decreases len - k,
    {
        proof {
            lemma_step_advance(len as int, s, k as int, forward, idx as int);
        }
        idx = if forward {
            if idx + 1 == len {
                0
            } else {
                idx + 1
            }
        } else {
            if idx == 0 {
                len - 1
            } else {
                idx - 1
            }
        };
        k = k + 1;
        if items[idx].navigable {
            return Some(idx);
        }
    }
    None
}

/// The first entry keyboard navigation can land on, used when a menu gains focus.
pub fn first_navigable(items: &Vec<ItemSpec>) -> (r: Option<usize>)
    ensures
        r matches Some(i) ==> Some(i as int) == spec_next_navigable(items@, None, true),
        r is None ==> spec_next_navigable(items@, None, true) is None,
        r matches Some(i) ==> i < items.len() && items@[i as int].navigable,
{
    next_navigable(items, None, true)
}

/// Finds the previous navigable root index before `current`, wrapping around.
pub fn prev_navigable_root(roots: &Vec<ItemSpec>, current: usize) -> (r: Option<usize>)
    ensures
        r matches Some(i) ==> Some(i as int) == spec_next_navigable(roots@, Some(current), false),
        r is None ==> spec_next_navigable(roots@, Some(current), false) is None,
        r matches Some(i) ==> i < roots.len() && roots@[i as int].navigable,
{
    next_navigable(roots, Some(current), false)
}

/// Finds the next navigable root index after `current`, wrapping around.
pub fn next_navigable_root(roots: &Vec<ItemSpec>, current: usize) -> (r: Option<usize>)
    ensures
        r matches Some(i) ==> Some(i as int) == spec_next_navigable(roots@, Some(current), true),
        r is None ==> spec_next_navigable(roots@, Some(current), true) is None,
        r matches Some(i) ==> i < roots.len() && roots@[i as int].navigable,
{
    next_navigable(roots, Some(current), true)
}

/// A successful scan found the nearest navigable position: `j` steps away, with nothing
/// navigable in between.
pub proof fn lemma_scan_some(items: Seq<ItemSpec>, start: int, forward: bool, k: int) -> (j: int)
    requires
        0 <= k,
        nav_scan(items, start, forward, k) is Some,
    ensures
        k < j <= items.len(),
        nav_scan(items, start, forward, k) == Some(step_pos(items.len() as int, start, j, forward)),
        items[step_pos(items.len() as int, start, j, forward)].navigable,
        forall|i: int| k < i < j ==> !items[#[trigger] step_pos(items.len() as int, start, i, forward)].navigable,
    decreases items.len() - k,
{
    let p = step_pos(items.len() as int, start, k + 1, forward);
    if items[p].navigable {
        k + 1
    } else {
        lemma_scan_some(items, start, forward, k + 1)
    }
}

/// Scanning finds the first navigable position when everything before it is inert.
pub proof fn lemma_scan_first(items: Seq<ItemSpec>, start: int, forward: bool, k: int, j: int)
    requires
        0 <= k < j <= items.len(),
        items[step_pos(items.len() as int, start, j, forward)].navigable,
        forall|i: int| k < i < j ==> !items[#[trigger] step_pos(items.len() as int, start, i, forward)].navigable,
    ensures
        nav_scan(items, start, forward, k) == Some(step_pos(items.len() as int, start, j, forward)),
    decreases j - k,
{
    if k + 1 < j {
        assert(!items[step_pos(items.len() as int, start, k + 1, forward)].navigable);
        lemma_scan_first(items, start, forward, k + 1, j);
    }
}

/// A scan that finds nothing saw only inert positions.
proof fn lemma_scan_none(items: Seq<ItemSpec>, start: int, forward: bool, k: int)
    requires
        0 <= k,
        nav_scan(items, start, forward, k) is None,
    ensures
        forall|i: int| k < i <= items.len() ==> !items[#[trigger] step_pos(items.len() as int, start, i, forward)].navigable,
    decreases items.len() - k,
{
    if k < items.len() {
        lemma_scan_none(items, start, forward, k + 1);
    }
}

/// Every position of the list is reached by some number of steps between 1 and `len`.
proof fn lemma_step_covers(len: int, start: int, forward: bool, t: int) -> (j: int)
    requires
        0 <= t < len,
    ensures
        1 <= j <= len,
        step_pos(len, start, j, forward) == t,
{
    lemma_small_mod(t as nat, len as nat);
    if forward {
        let d = (t - start) % len;
        lemma_mod_bound(t - start, len);
        lemma_add_mod_noop_right(start, t - start, len);
        assert(start + (t - start) == t);
        if d == 0 {
            lemma_mod_add_multiples_vanish(start, len);
            assert((start + 0) % len == t);
            assert(len + start == start + len);
            len
        } else {
            d
        }
    } else {
        let d = (start - t) % len;
        lemma_mod_bound(start - t, len);
        lemma_sub_mod_noop_right(start, start - t, len);
        assert(start - (start - t) == t);
        if d == 0 {
            lemma_mod_sub_multiples_vanish(start, len);
            assert((start - 0) % len == t);
            assert(-len + start == start - len);
            len
        } else {
            d
        }
    }
}

/// Navigation finds an entry exactly when the list holds a navigable one.
pub proof fn lemma_next_navigable_none_iff(items: Seq<ItemSpec>, from: Option<usize>, forward: bool)
    ensures
        spec_next_navigable(items, from, forward) is None <==> forall|t: int|
            0 <= t < items.len() ==> !#[trigger] items[t].navigable,
{
    if items.len() > 0 {
        let s = nav_start(items.len() as int, from, forward);
        if nav_scan(items, s, forward, 0) is None {
            lemma_scan_none(items, s, forward, 0);
            assert forall|t: int| 0 <= t < items.len() implies !#[trigger] items[t].navigable by {
                let j = lemma_step_covers(items.len() as int, s, forward, t);
                assert(!items[step_pos(items.len() as int, s, j, forward)].navigable);
            }
        } else {
            let j = lemma_scan_some(items, s, forward, 0);
            lemma_mod_bound(s + j, items.len() as int);
            lemma_mod_bound(s - j, items.len() as int);
        }
    }
}

/// Moving the keyboard focus down and then up again returns it to the entry it left, provided
/// that entry is navigable.
pub proof fn lemma_down_then_up(items: Seq<ItemSpec>, h: usize)
    requires
        h < items.len() <= usize::MAX,
        items[h as int].navigable,
    ensures
        spec_next_navigable(items, Some(h), true) matches Some(g) && 0 <= g < items.len()
            && spec_next_navigable(items, Some(g as usize), false) == Some(h as int),
{
    let len = items.len() as int;
    lemma_small_mod(h as nat, len as nat);
    lemma_mod_add_multiples_vanish(h as int, len);
    assert(len + h == h + len);
    assert(step_pos(len, h as int, len, true) == h);
    if nav_scan(items, h as int, true, 0) is None {
        lemma_scan_none(items, h as int, true, 0);
        assert(!items[step_pos(len, h as int, len, true)].navigable);
    }
    let j = lemma_scan_some(items, h as int, true, 0);
    let g = step_pos(len, h as int, j, true);
    lemma_mod_bound(h + j, len);
    // Stepping back i from g is stepping forward j - i from h.
    assert forall|i: int| 0 <= i <= j implies #[trigger] step_pos(len, g, i, false) == step_pos(len, h as int, j - i, true) by {
        lemma_sub_mod_noop((h + j) as int, i, len);
        lemma_mod_bound(i, len);
        if i < len {
            lemma_small_mod(i as nat, len as nat);
        } else {
            lemma_mod_add_multiples_vanish(0, len);
            lemma_small_mod(0, len as nat);
            assert(i == len);
            assert(len + 0 == len);
        }
        assert((h + j) - i == h + (j - i));
        lemma_mod_bound(h + j, len);
        lemma_small_mod(g as nat, len as nat);
        if i == len {
            lemma_mod_sub_multiples_vanish(g, len);
            assert(-len + g == g - len);
            lemma_mod_sub_multiples_vanish(h + j, len);
            assert(-len + (h + j) == (h + j) - len);
        }
    }
    assert forall|i: int| 0 < i < j implies !items[#[trigger] step_pos(len, g, i, false)].navigable by {
        assert(step_pos(len, g, i, false) == step_pos(len, h as int, j - i, true));
        assert(!items[step_pos(len, h as int, j - i, true)].navigable);
    }
    assert(step_pos(len, g, j, false) == step_pos(len, h as int, 0, true));
    assert(h + 0 == h);
    lemma_scan_first(items, g, false, 0, j);
    assert((g as usize) as int == g);
    assert(nav_start(len, Some(g as usize), false) == g);
}

} // verus!
