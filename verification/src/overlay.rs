//! The decisions of the open menus: which of them keep the cursor's focus, which stay open while
//! the cursor travels, and which close.
//!
//! An event is handled from the deepest open menu upwards. Each menu learns from the menu below
//! it whether that one took the event, closed, or let it pass, and decides on its own from where
//! the cursor is.

use vstd::prelude::*;
use crate::bar::BarEvent;
use crate::common::{MenuSlice, PathHighlight, RecEvent};
use crate::keyboard::merge;
use crate::model::MenuBarView;
use crate::state::{Effects, GlobalParameters, GlobalState, MenuBarState, MenuBarTask};

verus! {

/// Where the cursor is, relative to one open menu (all `false` when the cursor is hidden).
#[derive(Debug, Clone, Copy, PartialEq, Eq, Structural)]
pub struct MenuGeometry {
    /// Over the menu's background or over the gap between the menu and its parent entry.
    pub over_menu: bool,
    /// Over the entry that opened the menu.
    pub over_parent: bool,
    /// Inside the triangle between the last cursor position on the parent entry and the menu,
    /// along which the cursor may travel towards the menu.
    pub in_safe_triangle: bool,
    /// Over the bar or over any menu further up the open path.
    pub over_previous: bool,
    /// Inside the menu's background widened by the hover grace margin.
    pub over_safe_bounds: bool,
}

/// How one open menu handles an event.
#[derive(Debug, Clone, Copy, PartialEq, Eq, Structural)]
pub enum MenuStep {
    /// The menu below took the event: redraw this menu's entries with the path highlight.
    ChildFocused,
    /// The menu below let the event pass: this menu's entries get the event, a click is judged
    /// by the entry it lands on here, the wheel scrolls this menu.
    ChildPassed,
    /// The cursor is on this menu: its entries get the event, a click is judged by what it lands
    /// on here, the wheel scrolls it, and (button up) the hovered entry opens its submenu.
    Focus,
    /// The cursor is back on the entry that opened this menu: redraw the entries and let the
    /// parent handle the event.
    ParentHover,
    /// The cursor is travelling towards or near the menu, or the button is held: the menu stays
    /// open and its entries get the event. A click here is off this menu: it is judged by the
    /// menu further up that it lands on, left to the bar, or, off everything, closes the tree.
    Linger,
    /// The cursor left: this menu closes.
    Dismiss,
}

/// The record of one menu's step, for the widget to carry out the parts that touch its entries.
#[derive(Debug, Clone, Copy, PartialEq, Eq, Structural)]
pub struct StepRecord {
    /// The level of the menu along the open path.
    pub level: usize,
    pub step: MenuStep,
    /// The menu's active entry when it took its step.
    pub active: Option<usize>,
}

/// What the widget has to carry out after the open menus handled an event.
#[derive(Debug)]
pub struct OverlayResult {
    /// The steps taken, from the deepest menu upwards.
    pub steps: Vec<StepRecord>,
    pub effects: Effects,
    /// Redraw the roots with the path highlight (the menus took the event).
    pub redraw_roots: bool,
}

/// How a menu handles an event, given what the menu below reported, where the cursor is, and
/// whether the mouse button is held.
pub open spec fn spec_menu_step(rec_event: RecEvent, g: MenuGeometry, pressed: bool) -> MenuStep {
    match rec_event {
        RecEvent::Event => MenuStep::ChildFocused,
        RecEvent::Pass => MenuStep::ChildPassed,
        RecEvent::Close => if g.over_menu {
            MenuStep::Focus
        } else if g.over_parent {
            MenuStep::ParentHover
        } else if pressed || g.in_safe_triangle || (!g.over_previous && g.over_safe_bounds) {
            MenuStep::Linger
        } else {
            MenuStep::Dismiss
        },
    }
}

/// How a menu handles an event, as `spec_menu_step` describes.
pub fn menu_step(rec_event: RecEvent, g: MenuGeometry, pressed: bool) -> (r: MenuStep)
    ensures
        r == spec_menu_step(rec_event, g, pressed),
{
    match rec_event {
        RecEvent::Event => MenuStep::ChildFocused,
        RecEvent::Pass => MenuStep::ChildPassed,
        RecEvent::Close => if g.over_menu {
            MenuStep::Focus
        } else if g.over_parent {
            MenuStep::ParentHover
        } else if pressed || g.in_safe_triangle || (!g.over_previous && g.over_safe_bounds) {
            MenuStep::Linger
        } else {
            MenuStep::Dismiss
        },
    }
}

/// The cursor a menu's entries are re-rendered with while a menu below has the focus, so that the
/// entry of the open path keeps its highlighted look.
#[derive(Debug, Clone, Copy, PartialEq, Eq, Structural)]
pub enum PathCursor {
    /// The pointer as it is (no entry of this menu is on the open path).
    Pointer,
    /// No cursor at all: the path entry is highlighted by a filled rectangle instead.
    Hidden,
    /// A cursor at the centre of the entry at this position of the visible slice.
    Centered(usize),
}

/// The cursor for re-rendering a menu whose active entry is `active`: with a hover highlight, a
/// cursor at the centre of the active entry (when it is visible); with a filled highlight, none;
/// with no active entry, the pointer.
pub open spec fn spec_path_cursor(active: Option<usize>, slice: MenuSlice, path_highlight: PathHighlight) -> PathCursor {
    match active {
        None => PathCursor::Pointer,
        Some(a) => match path_highlight {
            PathHighlight::Fill => PathCursor::Hidden,
            PathHighlight::Hover => if a >= slice.start_index {
                PathCursor::Centered((a - slice.start_index) as usize)
            } else {
                PathCursor::Pointer
            },
        },
    }
}

/// The cursor for re-rendering a menu, as `spec_path_cursor` describes.
pub fn path_cursor(active: Option<usize>, slice: MenuSlice, path_highlight: PathHighlight) -> (r: PathCursor)
    ensures
        r == spec_path_cursor(active, slice, path_highlight),
{
    match active {
        None => PathCursor::Pointer,
        Some(a) => match path_highlight {
            PathHighlight::Fill => PathCursor::Hidden,
            PathHighlight::Hover => if a >= slice.start_index {
                PathCursor::Centered(a - slice.start_index)
            } else {
                PathCursor::Pointer
            },
        },
    }
}

/// What a menu reports to the level above after its step.
pub open spec fn step_report(step: MenuStep) -> RecEvent {
    match step {
        MenuStep::ParentHover => RecEvent::Pass,
        MenuStep::Dismiss => RecEvent::Close,
        _ => RecEvent::Event,
    }
}

/// The deepest of the menus at levels `1..=j` that the cursor is over (its background or the gap
/// to its parent entry), by the geometry measured for each open menu, level 1 first.
pub open spec fn menu_under(geometry: Seq<MenuGeometry>, j: int) -> Option<int>
    decreases j,
{
    if j < 1 {
        None
    } else if j <= geometry.len() && geometry[j - 1].over_menu {
        Some(j)
    } else {
        menu_under(geometry, j - 1)
    }
}

/// A menu found under the cursor among levels `1..=j` lies in that range.
proof fn lemma_menu_under_bounds(geometry: Seq<MenuGeometry>, j: int)
    ensures
        menu_under(geometry, j) matches Some(k) ==> 1 <= k <= j,
    decreases j,
{
    if j >= 1 {
        lemma_menu_under_bounds(geometry, j - 1);
    }
}

/// The deepest of the menus at levels `1..=j` that the cursor is over, as `menu_under` describes.
fn menu_under_cursor(geometry: &Vec<MenuGeometry>, j: usize) -> (r: Option<usize>)
    ensures
        match r {
            Some(k) => menu_under(geometry@, j as int) == Some(k as int) && 1 <= k <= j,
            None => menu_under(geometry@, j as int) is None,
        },
{
    proof {
        lemma_menu_under_bounds(geometry@, j as int);
    }
    let mut k = j;
    while k >= 1
        invariant
            k <= j,
            menu_under(geometry@, j as int) == menu_under(geometry@, k as int),
        decreases k,
    {
        if k <= geometry.len() && geometry[k - 1].over_menu {
            return Some(k);
        }
        k = k - 1;
    }
    None
}

/// The cursor over nothing: not over a menu, an entry, the bar or any safe area.
pub open spec fn no_cursor() -> MenuGeometry {
    MenuGeometry {
        over_menu: false,
        over_parent: false,
        in_safe_triangle: false,
        over_previous: false,
        over_safe_bounds: false,
    }
}

/// The facts of an event with the cursor hidden: for every open menu the cursor is over nothing,
/// and over no entry.
pub open spec fn hidden_input(input: OverlayInput) -> OverlayInput {
    OverlayInput {
        geometry: Seq::new(input.geometry.len(), |j: int| no_cursor()),
        hovered: Seq::empty(),
        ..input
    }
}

/// The geometry of `n` open menus with the cursor hidden.
fn hidden_geometry(n: usize) -> (r: Vec<MenuGeometry>)
    ensures
        r@ == Seq::new(n as nat, |j: int| no_cursor()),
{
    let mut r: Vec<MenuGeometry> = Vec::new();
    let mut i: usize = 0;
    while i < n
        invariant
            i <= n,
            r@ == Seq::new(i as nat, |j: int| no_cursor()),
        decreases n - i,
    {
        r.push(MenuGeometry {
            over_menu: false,
            over_parent: false,
            in_safe_triangle: false,
            over_previous: false,
            over_safe_bounds: false,
        });
        i = i + 1;
        assert(r@ =~= Seq::new(i as nat, |j: int| no_cursor()));
    }
    r
}

/// The facts an event brings to the open menus.
pub struct OverlayInput {
    /// Where the cursor is relative to each open menu, level 1 first.
    pub geometry: Seq<MenuGeometry>,
    /// For each open menu, level 1 first, whether the cursor is over each visible entry.
    pub hovered: Seq<Seq<bool>>,
    pub left_press: bool,
    pub params: GlobalParameters,
}

impl OverlayInput {
    pub open spec fn hovered_at(self, m: int) -> Seq<bool> {
        if 1 <= m <= self.hovered.len() {
            self.hovered[m - 1]
        } else {
            Seq::empty()
        }
    }
}

impl MenuBarView {
    /// Prepares the open menus for an event: a press holds the button and hands control back to
    /// the pointer, a release lets go, a cursor movement hands control back to the pointer, and
    /// a resize closes the tree. Returns whether the menus go on to handle the event.
    pub open spec fn overlay_begin(self, event: BarEvent) -> (MenuBarView, bool, Effects) {
        if !self.global.open || self.levels.len() < 2 {
            (self, false, Effects::spec_none())
        } else {
            let g = self.global;
            match event {
                BarEvent::LeftPressed => (
                    self.with_global(GlobalState { pressed: true, keyboard_nav: false, ..g }),
                    true,
                    Effects::spec_none(),
                ),
                BarEvent::LeftReleased => (
                    self.with_global(GlobalState { pressed: false, ..g }),
                    true,
                    Effects { request_redraw: true, ..Effects::spec_none() },
                ),
                BarEvent::CursorMoved => (
                    self.with_global(GlobalState { keyboard_nav: false, ..g }),
                    true,
                    Effects::spec_none(),
                ),
                BarEvent::Resized => (self.close_all(), false, self.close_effects()),
                _ => (self, true, Effects::spec_none()),
            }
        }
    }

    /// The global flags after a left click reached menu `m`, which took `step` with the cursor at
    /// `g`. A click on this menu (a `Focus` or `ChildPassed` step) is judged by what it lands on
    /// here: an entry by its dismiss policy, the background by the background-click policy. A click
    /// off this menu (a `Linger` step) that lands on a menu further up is judged by the deepest
    /// such menu in the same way; one on the bar is left to the bar; and one off the bar and every
    /// open menu schedules closing the tree, whatever the policies say.
    pub open spec fn click_at(self, m: int, step: MenuStep, g: MenuGeometry, input: OverlayInput) -> GlobalState {
        match step {
            MenuStep::Linger => if !g.over_previous {
                self.global.with_task(Some(MenuBarTask::CloseOnClick))
            } else {
                match menu_under(input.geometry, m - 1) {
                    Some(j) => self.schedule_close(j, input.hovered_at(j), input.params),
                    None => self.global.with_task(None),
                }
            },
            _ => self.schedule_close(m, input.hovered_at(m), input.params),
        }
    }

    /// One menu's step at level `m`, as `spec_menu_step` decides it, with its effect on the
    /// state: a click is checked for dismissal, a focused menu with the button up opens the
    /// hovered entry's submenu, and a dismissed menu closes.
    pub open spec fn step_at(self, m: int, rec_event: RecEvent, input: OverlayInput) -> (MenuBarView, StepRecord, Effects) {
        let g = if 1 <= m <= input.geometry.len() {
            input.geometry[m - 1]
        } else {
            MenuGeometry {
                over_menu: false,
                over_parent: false,
                in_safe_triangle: false,
                over_previous: false,
                over_safe_bounds: false,
            }
        };
        let step = spec_menu_step(rec_event, g, self.global.pressed);
        let record = StepRecord { level: m as usize, step, active: self.levels[m].active };
        let hovered = input.hovered_at(m);
        let clicked = if input.left_press {
            self.with_global(self.click_at(m, step, g, input))
        } else {
            self
        };
        let captured = Effects { capture_event: true, ..Effects::spec_none() };
        match step {
            MenuStep::Focus => if !clicked.global.pressed {
                (
                    clicked.try_open(m, hovered),
                    record,
                    captured.merge(clicked.try_open_effects(m, hovered)),
                )
            } else {
                (clicked, record, captured)
            },
            MenuStep::Linger | MenuStep::ChildPassed => (clicked, record, captured),
            MenuStep::ChildFocused => (self, record, captured),
            MenuStep::ParentHover => (self, record, Effects::spec_none()),
            MenuStep::Dismiss => (
                self.close_level(m),
                record,
                Effects { invalidate_layout: true, request_redraw: true, ..Effects::spec_none() },
            ),
        }
    }

    /// The steps of the menus from level `m` up to level 1, the menu at level `m` hearing
    /// `rec_event` from below; the records and effects are accumulated.
    pub open spec fn resolve(
        self,
        m: int,
        rec_event: RecEvent,
        input: OverlayInput,
        records: Seq<StepRecord>,
        effects: Effects,
    ) -> (MenuBarView, RecEvent, Seq<StepRecord>, Effects)
        decreases m,
    {
        if m < 1 {
            (self, rec_event, records, effects)
        } else {
            let (v1, record, e1) = self.step_at(m, rec_event, input);
            v1.resolve(m - 1, step_report(record.step), input, records.push(record), effects.merge(e1))
        }
    }

    /// The open menus handle an event. While the tree is keyboard driven, the cursor is hidden from
    /// them: they decide as if it were over nothing, neither a menu nor an entry nor the bar, so
    /// nothing closes by where the cursor is. Otherwise they decide on what was measured.
    pub open spec fn after_overlay(self, input: OverlayInput, cursor_available: bool, over_bar: bool, left_release: bool)
        -> (MenuBarView, Seq<StepRecord>, Effects, bool)
    {
        if self.global.keyboard_nav {
            self.resolve_open(hidden_input(input), false, false, left_release)
        } else {
            self.resolve_open(input, cursor_available, over_bar, left_release)
        }
    }

    /// The open menus handle an event, deepest first. The deepest menu that has a layout hears
    /// `Close` from below, or `Event` when the cursor is hidden and it is the last open menu.
    /// Afterwards, a release that carries a scheduled close dismisses the tree; otherwise, if the
    /// menus took the event, the roots are redrawn, and if the top menu closed while the cursor is
    /// off the bar, the tree is dismissed.
    pub open spec fn resolve_open(self, input: OverlayInput, cursor_available: bool, over_bar: bool, left_release: bool)
        -> (MenuBarView, Seq<StepRecord>, Effects, bool)
    {
        if !self.global.open || self.levels.len() < 2 {
            (self, Seq::empty(), Effects::spec_none(), false)
        } else {
        let d = self.levels.len() - 1;
        let s = if d <= input.geometry.len() {
            d
        } else {
            input.geometry.len() as int
        };
        let first = if s < d || cursor_available {
            RecEvent::Close
        } else {
            RecEvent::Event
        };
        let (v, re, records, effects) = self.resolve(s, first, input, Seq::empty(), Effects::spec_none());
        if left_release && v.global.task == Some(MenuBarTask::CloseOnClick) {
            (v.close_all(), records, effects.merge(v.close_effects()), false)
        } else {
            match re {
                RecEvent::Event => (v, records, effects, true),
                RecEvent::Close => if !over_bar {
                    (v.close_all(), records, effects.merge(v.close_effects()), false)
                } else {
                    (v, records, effects, false)
                },
                RecEvent::Pass => (v, records, effects, false),
            }
        }
        }
    }
}

/// The facts an event brings to the open menus, from what the widget measured.
pub open spec fn overlay_input(
    geometry: Seq<MenuGeometry>,
    hovered: Seq<Vec<bool>>,
    left_press: bool,
    params: GlobalParameters,
) -> OverlayInput {
    OverlayInput { geometry, hovered: hovered.map_values(|v: Vec<bool>| v@), left_press, params }
}

/// What a menu reports to the level above after its step.
pub fn report(step: MenuStep) -> (r: RecEvent)
    ensures
        r == step_report(step),
{
    match step {
        MenuStep::ParentHover => RecEvent::Pass,
        MenuStep::Dismiss => RecEvent::Close,
        _ => RecEvent::Event,
    }
}

impl MenuBarState {
    /// Prepares the open menus for an event, as `overlay_begin` describes; returns whether the
    /// menus go on to handle it.
    pub fn overlay_begin(&mut self, event: BarEvent) -> (r: (bool, Effects))
        requires
            old(self)@.wf(),
        ensures
            (final(self)@, r.0, r.1) == old(self)@.overlay_begin(event),
            final(self)@.wf(),
    {
        if !self.global_state.open || self.levels.len() < 2 {
            return (false, Effects::none());
        }
        match event {
            BarEvent::LeftPressed => {
                self.global_state.pressed = true;
                self.global_state.keyboard_nav = false;
                (true, Effects::none())
            },
            BarEvent::LeftReleased => {
                self.global_state.pressed = false;
                (true, Effects { request_redraw: true, ..Effects::none() })
            },
            BarEvent::CursorMoved => {
                self.global_state.keyboard_nav = false;
                (true, Effects::none())
            },
            BarEvent::Resized => {
                let e = self.close();
                (false, e)
            },
            _ => (true, Effects::none()),
        }
    }

    /// Judges a left click that reached menu `m`, as `click_at` describes.
    fn click_at(
        &mut self,
        m: usize,
        step: MenuStep,
        g: MenuGeometry,
        geometry: &Vec<MenuGeometry>,
        hovered: &Vec<Vec<bool>>,
        left_press: bool,
        params: &GlobalParameters,
    )
        requires
            old(self)@.wf(),
            1 <= m < old(self)@.levels.len(),
        ensures
            final(self)@ == old(self)@.with_global(
                old(self)@.click_at(
                    m as int,
                    step,
                    g,
                    overlay_input(geometry@, hovered@, left_press, *params),
                ),
            ),
            final(self)@.wf(),
    {
        let ghost input = overlay_input(geometry@, hovered@, left_press, *params);
        let empty: Vec<bool> = Vec::new();
        let target = match step {
            MenuStep::Linger => if !g.over_previous {
                self.global_state.schedule(MenuBarTask::CloseOnClick);
                return;
            } else {
                match menu_under_cursor(geometry, m - 1) {
                    Some(j) => j,
                    None => {
                        self.global_state.clear_task();
                        return;
                    },
                }
            },
            _ => m,
        };
        let h: &Vec<bool> = if target <= hovered.len() {
            &hovered[target - 1]
        } else {
            &empty
        };
        proof {
            assert(h@ == input.hovered_at(target as int));
        }
        self.schedule_close_on_click(target, h, params);
    }

    /// One menu's step at level `m`, as `step_at` describes.
    fn step_at(
        &mut self,
        m: usize,
        rec_event: RecEvent,
        geometry: &Vec<MenuGeometry>,
        hovered: &Vec<Vec<bool>>,
        left_press: bool,
        params: &GlobalParameters,
    ) -> (r: (StepRecord, Effects))
        requires
            old(self)@.wf(),
            old(self)@.global.open,
            1 <= m < old(self)@.levels.len(),
            m <= geometry.len(),
        ensures
            (final(self)@, r.0, r.1) == old(self)@.step_at(
                m as int,
                rec_event,
                overlay_input(geometry@, hovered@, left_press, *params),
            ),
            final(self)@.wf(),
            final(self)@.global.open,
            m <= final(self)@.levels.len(),
    {
        let ghost input = overlay_input(geometry@, hovered@, left_press, *params);
        let g = geometry[m - 1];
        let step = menu_step(rec_event, g, self.global_state.pressed);
        let record = StepRecord { level: m, step, active: self.levels[m].active };
        let empty: Vec<bool> = Vec::new();
        let h: &Vec<bool> = if m <= hovered.len() {
            &hovered[m - 1]
        } else {
            &empty
        };
        proof {
            assert(h@ == input.hovered_at(m as int));
        }
        let captured = Effects {
            invalidate_layout: false,
            request_redraw: false,
            capture_event: true,
            close_menus: false,
            fresh_from: None,
        };
        match step {
            MenuStep::Focus => {
                if left_press {
                    self.click_at(m, step, g, geometry, hovered, left_press, params);
                }
                if !self.global_state.pressed {
                    let e = self.try_open_menu(m, h);
                    (record, merge(captured, e))
                } else {
                    (record, captured)
                }
            },
            MenuStep::Linger | MenuStep::ChildPassed => {
                if left_press {
                    self.click_at(m, step, g, geometry, hovered, left_press, params);
                }
                (record, captured)
            },
            MenuStep::ChildFocused => (record, captured),
            MenuStep::ParentHover => (record, Effects::none()),
            MenuStep::Dismiss => {
                self.close_level(m);
                (record, Effects { invalidate_layout: true, request_redraw: true, ..Effects::none() })
            },
        }
    }

    /// The open menus handle an event, as `after_overlay` describes. `geometry` and `hovered`
    /// describe the cursor relative to each menu of the current layout, level 1 first;
    /// `cursor_available` and `over_bar` tell whether there is a cursor and whether it is over the
    /// bar. While the tree is keyboard driven, all of these are set aside and the cursor is taken
    /// as hidden.
    pub fn overlay_resolve(
        &mut self,
        geometry: &Vec<MenuGeometry>,
        hovered: &Vec<Vec<bool>>,
        cursor_available: bool,
        over_bar: bool,
        left_press: bool,
        left_release: bool,
        params: &GlobalParameters,
    ) -> (r: OverlayResult)
        requires
            old(self)@.wf(),
        ensures
            (final(self)@, r.steps@, r.effects, r.redraw_roots) == old(self)@.after_overlay(
                overlay_input(geometry@, hovered@, left_press, *params),
                cursor_available,
                over_bar,
                left_release,
            ),
            final(self)@.wf(),
    {
        let ghost input = overlay_input(geometry@, hovered@, left_press, *params);
        if self.global_state.keyboard_nav {
            let hidden = hidden_geometry(geometry.len());
            let nothing: Vec<Vec<bool>> = Vec::new();
            proof {
                let h = overlay_input(hidden@, nothing@, left_press, *params);
                assert(h.geometry =~= hidden_input(input).geometry);
                assert(h.hovered =~= hidden_input(input).hovered);
                assert(h == hidden_input(input));
            }
            self.resolve_open_menus(&hidden, &nothing, false, false, left_press, left_release, params)
        } else {
            self.resolve_open_menus(geometry, hovered, cursor_available, over_bar, left_press, left_release, params)
        }
    }

    /// The open menus handle an event on the given facts, as `resolve_open` describes.
    fn resolve_open_menus(
        &mut self,
        geometry: &Vec<MenuGeometry>,
        hovered: &Vec<Vec<bool>>,
        cursor_available: bool,
        over_bar: bool,
        left_press: bool,
        left_release: bool,
        params: &GlobalParameters,
    ) -> (r: OverlayResult)
        requires
            old(self)@.wf(),
        ensures
            (final(self)@, r.steps@, r.effects, r.redraw_roots) == old(self)@.resolve_open(
                overlay_input(geometry@, hovered@, left_press, *params),
                cursor_available,
                over_bar,
                left_release,
            ),
            final(self)@.wf(),
    {
        let ghost input = overlay_input(geometry@, hovered@, left_press, *params);
        let ghost v0 = self@;
        if !self.global_state.open || self.levels.len() < 2 {
            return OverlayResult { steps: Vec::new(), effects: Effects::none(), redraw_roots: false };
        }
        let d = self.levels.len() - 1;
        let s = if d <= geometry.len() {
            d
        } else {
            geometry.len()
        };
        let first = if s < d || cursor_available {
            RecEvent::Close
        } else {
            RecEvent::Event
        };
        let mut ev = first;
        let mut m = s;
        let mut steps: Vec<StepRecord> = Vec::new();
        let mut effects = Effects::none();
        while m >= 1
            invariant
                self@.wf(),
                self@.global.open,
                m < self@.levels.len(),
                m <= geometry.len(),
                input == overlay_input(geometry@, hovered@, left_press, *params),
                v0.resolve(s as int, first, input, Seq::empty(), Effects::spec_none()) == self@.resolve(
                    m as int,
                    ev,
                    input,
                    steps@,
                    effects,
                ),
            decreases m,
        {
            let ghost vp = self@;
            let ghost ev_p = ev;
            let ghost steps_p = steps@;
            let ghost eff_p = effects;
            let (record, e) = self.step_at(m, ev, geometry, hovered, left_press, params);
            proof {
                let tup = vp.step_at(m as int, ev_p, input);
                assert(tup.0 == self@);
                assert(tup.1 == record);
                assert(tup.2 == e);
            }
            ev = report(record.step);
            steps.push(record);
            effects = merge(effects, e);
            m = m - 1;
            proof {
                assert(steps@ == steps_p.push(record));
            }
        }
        if left_release && matches!(self.global_state.task(), Some(MenuBarTask::CloseOnClick)) {
            let c = self.close();
            return OverlayResult { steps, effects: merge(effects, c), redraw_roots: false };
        }
        match ev {
            RecEvent::Event => OverlayResult { steps, effects, redraw_roots: true },
            RecEvent::Close => {
                if !over_bar {
                    let c = self.close();
                    OverlayResult { steps, effects: merge(effects, c), redraw_roots: false }
                } else {
                    OverlayResult { steps, effects, redraw_roots: false }
                }
            },
            RecEvent::Pass => OverlayResult { steps, effects, redraw_roots: false },
        }
    }
}

} // verus!
