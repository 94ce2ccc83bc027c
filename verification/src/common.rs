//! Small shared types: directions, highlight and dismiss policies, and the visible slice of a
//! list of entries.

use vstd::prelude::*;

verus! {

/// How the active path — the trail of open entries leading to the current submenu — is
/// highlighted.
#[derive(Debug, Clone, Copy, PartialEq, Eq, Structural)]
pub enum PathHighlight {
    /// Highlights each path entry by placing a cursor over it, so it renders in its own hovered
    /// style.
    Hover,
    /// Highlights each path entry by drawing a rectangle behind it.
    Fill,
}

/// A direction along one axis: X+ goes right and Y+ goes down.
#[derive(Debug, Clone, Copy, PartialEq, Eq, Structural)]
pub enum Direction {
    Positive,
    Negative,
}

/// The opposite direction.
pub open spec fn spec_flip(d: Direction) -> Direction {
    match d {
        Direction::Positive => Direction::Negative,
        Direction::Negative => Direction::Positive,
    }
}

impl Direction {
    /// The opposite direction.
    pub fn flip(self) -> (r: Self)
        ensures
            r == spec_flip(self),
    {
        match self {
            Direction::Positive => Direction::Negative,
            Direction::Negative => Direction::Positive,
        }
    }
}

/// The axis along which a menu opens away from its parent entry.
#[derive(Debug, Clone, Copy, PartialEq, Eq, Structural)]
pub enum Axis {
    Horizontal,
    Vertical,
}

/// What a menu level reports to the level above it after handling an event.
///
/// `Event`: the event was processed here; the parent must not process it.
///
/// `Close`: this menu has closed itself, or no menu was open; the parent checks whether it
/// should close as well and, if not, processes the event.
///
/// `Pass`: a child menu is open but did not process the event (the cursor is over the entry that
/// opened it); the parent processes the event without a close check.
#[derive(Debug, Clone, Copy, PartialEq, Eq, Structural)]
pub enum RecEvent {
    Event,
    Close,
    Pass,
}

/// When an open menu tree should be dismissed.
///
/// A click outside the menus always dismisses them regardless of this setting. Individual entries
/// can opt out with `keep_open` or back in with `close_on_click`.
#[derive(Debug, Clone, Copy, PartialEq, Eq, Structural)]
pub enum Dismiss {
    /// Clicking any entry closes the whole menu tree (the default).
    OnItemClick,
    /// Entries keep the menu open when clicked; only a click outside dismisses it.
    Manual,
}

/// The inclusive range of entries of a list that is (at least partly) visible.
#[derive(Debug, Clone, Copy, PartialEq, Eq, Structural)]
pub struct MenuSlice {
    pub start_index: usize,
    pub end_index: usize,
}

impl MenuSlice {
    /// A slice is usable when it is not reversed and its end can be stepped past.
    pub open spec fn wf(self) -> bool {
        self.start_index <= self.end_index < usize::MAX
    }

    /// The slice assumed before anything has been laid out: every entry.
    pub open spec fn spec_everything() -> MenuSlice {
        MenuSlice { start_index: 0, end_index: (usize::MAX - 1) as usize }
    }

    /// The slice assumed before anything has been laid out: every entry.
    pub fn everything() -> (r: MenuSlice)
        ensures
            r == MenuSlice::spec_everything(),
            r.wf(),
    {
        MenuSlice { start_index: 0, end_index: usize::MAX - 1 }
    }

    /// The half-open range `[lo, hi)` of a list of `len` entries that this inclusive slice
    /// covers, clamped so that it never reaches past the list.
    pub open spec fn spec_range(self, len: int) -> (int, int) {
        let hi = if self.end_index + 1 <= len { self.end_index + 1 } else { len };
        let lo = if self.start_index <= hi { self.start_index as int } else { hi };
        (lo, hi)
    }

    /// The half-open range `[lo, hi)` of a list of `len` entries that this inclusive slice
    /// covers, clamped so that it never reaches past the list.
    pub fn range(&self, len: usize) -> (r: (usize, usize))
        ensures
            r.0 as int == self.spec_range(len as int).0,
            r.1 as int == self.spec_range(len as int).1,
            r.0 <= r.1 <= len,
    {
        let hi = if self.end_index < len { self.end_index + 1 } else { len };
        let lo = if self.start_index <= hi { self.start_index } else { hi };
        (lo, hi)
    }

    /// Computes the visible slice of a list laid out along one axis.
    ///
    /// `lower_exceeds[i]` tells whether entry `i` starts past the lower edge of the visible
    /// window, `upper_exceeds[i]` whether it starts past the upper edge (both measured from the
    /// start of the list). The first visible entry is the last one that does not start past the
    /// lower edge; the last visible entry is the last one, from there on, that does not start
    /// past the upper edge.
    pub fn from_bounds_rel(lower_exceeds: &Vec<bool>, upper_exceeds: &Vec<bool>) -> (r: MenuSlice)
        requires
            lower_exceeds.len() == upper_exceeds.len(),
        ensures
            r.wf(),
            monotone_on(lower_exceeds@, 0, max_index(lower_exceeds.len() as int)) ==> r.start_index
                == search_bound_result(0, max_index(lower_exceeds.len() as int), lower_exceeds@),
            monotone_on(upper_exceeds@, r.start_index as int, max_index(lower_exceeds.len() as int))
                ==> r.end_index == search_bound_result(
                r.start_index as int,
                max_index(lower_exceeds.len() as int),
                upper_exceeds@,
            ),
            bound_found(0, max_index(lower_exceeds.len() as int), lower_exceeds@, r.start_index as int),
            bound_found(
                r.start_index as int,
                max_index(lower_exceeds.len() as int),
                upper_exceeds@,
                r.end_index as int,
            ),
            r.end_index <= max_index(lower_exceeds.len() as int),
    {
        let n = lower_exceeds.len();
        let max_index = if n == 0 { 0 } else { n - 1 };
        let start_index = search_bound(0, max_index, lower_exceeds);
        let end_index = search_bound(start_index, max_index, upper_exceeds);
        proof {
            lemma_search_bound_unique(0, max_index as int, lower_exceeds@, start_index as int);
            lemma_search_bound_unique(start_index as int, max_index as int, upper_exceeds@, end_index as int);
        }
        MenuSlice { start_index, end_index }
    }
}

/// The last valid index of a list of `len` entries (0 for an empty list).
pub open spec fn max_index(len: int) -> int {
    if len <= 0 { 0 } else { len - 1 }
}

/// Along `[lo, hi]`, once an entry exceeds the bound every later entry does too.
pub open spec fn monotone_on(exceeds: Seq<bool>, lo: int, hi: int) -> bool {
    forall|i: int, j: int| lo <= i <= j <= hi && #[trigger] exceeds[i] ==> #[trigger] exceeds[j]
}

/// `r` is the last index of `[lo, hi]` up to which no entry after `lo` exceeds the bound and
/// after which every entry does.
pub open spec fn bound_split(lo: int, hi: int, exceeds: Seq<bool>, r: int) -> bool {
    &&& lo <= r <= hi
    &&& forall|i: int| lo < i <= r ==> !#[trigger] exceeds[i]
    &&& forall|i: int| r < i <= hi ==> #[trigger] exceeds[i]
}

/// The index that splits `[lo, hi]` as in [`bound_split`]; on a list that is monotone along the
/// range exactly one index does.
pub open spec fn search_bound_result(lo: int, hi: int, exceeds: Seq<bool>) -> int {
    choose|r: int| bound_split(lo, hi, exceeds, r)
}

/// What the binary search guarantees on any list: `r` lies in `[lo, hi]`, either is `lo` or does
/// not exceed the bound, and either is `hi` or is followed by an entry that exceeds it.
pub open spec fn bound_found(lo: int, hi: int, exceeds: Seq<bool>, r: int) -> bool {
    &&& lo <= r <= hi
    &&& (r == lo || !exceeds[r])
    &&& (r == hi || exceeds[r + 1])
}

/// On a monotone range, the local guarantee of the search pins its result down.
pub proof fn lemma_search_bound_unique(lo: int, hi: int, exceeds: Seq<bool>, r: int)
    requires
        bound_found(lo, hi, exceeds, r),
    ensures
        monotone_on(exceeds, lo, hi) ==> bound_split(lo, hi, exceeds, r),
        monotone_on(exceeds, lo, hi) ==> search_bound_result(lo, hi, exceeds) == r,
{
    if monotone_on(exceeds, lo, hi) {
        assert forall|i: int| lo < i <= r implies !#[trigger] exceeds[i] by {
            if exceeds[i] {
                assert(exceeds[r]);
            }
        }
        assert forall|i: int| r < i <= hi implies #[trigger] exceeds[i] by {
            assert(exceeds[r + 1]);
        }
        assert(bound_split(lo, hi, exceeds, r));
        let c = search_bound_result(lo, hi, exceeds);
        assert(bound_split(lo, hi, exceeds, c));
        if c < r {
            assert(exceeds[c + 1]);
            assert(!exceeds[c + 1]);
        }
        if c > r {
            assert(exceeds[r + 1]);
            assert(!exceeds[r + 1]);
        }
    }
}

/// Binary search for the last entry of `[default_left, default_right]` that does not exceed a
/// bound, where `exceeds[i]` tells whether entry `i` lies past the bound.
///
/// On a range that is monotone (the entries are laid out in order) the result is exactly the
/// split index; on any range it satisfies [`bound_found`].
pub fn search_bound(default_left: usize, default_right: usize, exceeds: &Vec<bool>) -> (r: usize)
    requires
        default_left <= default_right,
        default_left < default_right ==> default_right < exceeds.len(),
    ensures
        bound_found(default_left as int, default_right as int, exceeds@, r as int),
        monotone_on(exceeds@, default_left as int, default_right as int) ==> r
            == search_bound_result(default_left as int, default_right as int, exceeds@),
{
    let mut left = default_left;
    let mut right = default_right;
    while left != right
        invariant
            default_left <= left <= right <= default_right,
            default_left < default_right ==> default_right < exceeds.len(),
            left == default_left || !exceeds@[left as int],
            right == default_right || exceeds@[right + 1],
        decreases right - left,
    {
        let m = left + (right - left) / 2 + 1;
        if exceeds[m] {
            right = m - 1;
        } else {
            left = m;
        }
    }
    proof {
        lemma_search_bound_unique(default_left as int, default_right as int, exceeds@, left as int);
    }
    left
}

} // verus!
