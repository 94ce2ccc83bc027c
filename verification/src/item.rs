//! What the decisions need to know about an entry of a menu or of the bar.

use vstd::prelude::*;

verus! {

/// The behaviour-relevant description of one entry: whether keyboard navigation can land on it,
/// how it overrides the bar-wide dismiss policy, and the submenu it opens, if any.
pub struct ItemSpec {
    /// Whether keyboard navigation can land on this entry (separators and disabled entries are
    /// inert).
    pub navigable: bool,
    /// `Some(true)` closes the menu tree when the entry is clicked, `Some(false)` keeps it open,
    /// `None` follows the bar-wide policy.
    pub close_on_click: Option<bool>,
    /// The entries of the submenu this entry opens, if it has one.
    pub submenu: Option<Vec<ItemSpec>>,
}

impl ItemSpec {
    /// Whether the entry carries a submenu (possibly empty).
    pub open spec fn has_menu(self) -> bool {
        self.submenu is Some
    }

    /// The entries of the submenu (empty when there is none).
    pub open spec fn menu_items(self) -> Seq<ItemSpec> {
        match self.submenu {
            Some(v) => v@,
            None => Seq::empty(),
        }
    }

    /// Whether selecting the entry actually opens a menu: an empty submenu has nothing to show.
    pub open spec fn opens(self) -> bool {
        self.has_menu() && self.menu_items().len() > 0
    }

    /// A plain entry: navigable, following the bar-wide dismiss policy, without a submenu.
    pub fn new() -> (r: Self)
        ensures
            r.navigable,
            r.close_on_click is None,
            r.submenu is None,
    {
        ItemSpec { navigable: true, close_on_click: None, submenu: None }
    }

    /// A navigable entry that opens a submenu with the given entries.
    pub fn with_menu(items: Vec<ItemSpec>) -> (r: Self)
        ensures
            r.navigable,
            r.close_on_click is None,
            r.submenu == Some(items),
    {
        ItemSpec { navigable: true, close_on_click: None, submenu: Some(items) }
    }

    /// An entry that keyboard navigation skips (a separator or a section header).
    pub fn inert() -> (r: Self)
        ensures
            !r.navigable,
            r.close_on_click is None,
            r.submenu is None,
    {
        ItemSpec { navigable: false, close_on_click: None, submenu: None }
    }

    /// Keeps the menu open when this entry is clicked, overriding the bar-wide policy.
    pub fn keep_open(self) -> (r: Self)
        ensures
            r.close_on_click == Some(false),
            r.navigable == self.navigable,
            r.submenu == self.submenu,
    {
        ItemSpec { close_on_click: Some(false), ..self }
    }

    /// Closes the menu tree when this entry is clicked, overriding the bar-wide policy.
    pub fn close_on_click(self) -> (r: Self)
        ensures
            r.close_on_click == Some(true),
            r.navigable == self.navigable,
            r.submenu == self.submenu,
    {
        ItemSpec { close_on_click: Some(true), ..self }
    }

    /// Makes keyboard navigation skip (`false`) or land on (`true`) this entry.
    pub fn navigable(self, navigable: bool) -> (r: Self)
        ensures
            r.navigable == navigable,
            r.close_on_click == self.close_on_click,
            r.submenu == self.submenu,
    {
        ItemSpec { navigable, ..self }
    }

    /// Whether the entry carries a submenu (possibly empty).
    pub fn has_submenu(&self) -> (r: bool)
        ensures
            r == self.has_menu(),
    {
        self.submenu.is_some()
    }

    /// Whether the click on this entry dismisses the menu tree, given the bar-wide policy:
    /// the entry's own override wins.
    pub fn closes_on_click(&self, close_on_item_click: bool) -> (r: bool)
        ensures
            r == match self.close_on_click {
                Some(c) => c,
                None => close_on_item_click,
            },
    {
        match self.close_on_click {
            Some(c) => c,
            None => close_on_item_click,
        }
    }
}

} // verus!
