//! The decisions of the bar itself: requests from outside, pointer events over the bar, and
//! keyboard activation of the bar while no menu is open.

use vstd::prelude::*;
use crate::common::PathHighlight;
use crate::keys::Key;
use crate::model::MenuBarView;
use crate::navigation::{spec_next_navigable, next_navigable, first_navigable, prev_navigable_root, next_navigable_root};
use crate::state::{Effects, GlobalParameters, GlobalState, MenuBarState, MenuBarTask};
use crate::style::Status;

verus! {

/// An event, reduced to what the decisions distinguish.
#[derive(Debug, Clone, Copy, PartialEq, Eq, Structural)]
pub enum BarEvent {
    /// The left mouse button was pressed.
    LeftPressed,
    /// The left mouse button was released.
    LeftReleased,
    /// The cursor moved.
    CursorMoved,
    /// The mouse wheel scrolled.
    WheelScrolled,
    /// The window was resized.
    Resized,
    /// A key was pressed.
    KeyPressed(Key),
    /// Anything else.
    Other,
}

/// What the widget has to carry out after the bar handled an event.
#[derive(Debug, Clone, Copy, PartialEq, Eq, Structural)]
pub struct BarOutcome {
    pub effects: Effects,
    /// Scroll the row of roots by the wheel movement.
    pub scroll: bool,
    /// Clamp the scroll offset of the row of roots to the new size.
    pub clamp_scroll: bool,
}

/// Where the bar draws its path highlight.
#[derive(Debug, Clone, Copy, PartialEq, Eq, Structural)]
pub enum BarHighlight {
    /// Behind the root at this position of the visible slice.
    Slot(usize),
    /// Behind whichever root the cursor is over.
    UnderCursor,
    /// Nowhere.
    Nothing,
}

/// An optional index as a machine index.
pub open spec fn to_index(o: Option<int>) -> Option<usize> {
    match o {
        Some(i) => Some(i as usize),
        None => None,
    }
}

impl BarOutcome {
    pub open spec fn just(effects: Effects) -> BarOutcome {
        BarOutcome { effects, scroll: false, clamp_scroll: false }
    }
}

impl Effects {
    pub open spec fn captured(self) -> Effects {
        Effects { capture_event: true, ..self }
    }

    pub open spec fn capture_redraw() -> Effects {
        Effects { capture_event: true, request_redraw: true, ..Effects::spec_none() }
    }

    pub open spec fn dismiss_redraw() -> Effects {
        Effects { close_menus: true, request_redraw: true, ..Effects::spec_none() }
    }
}

impl MenuBarView {
    /// Leaves keyboard activation of the bar.
    pub open spec fn unfocus(self) -> MenuBarView {
        MenuBarView {
            global: GlobalState { bar_focused: false, keyboard_nav: false, ..self.global },
            ..self
        }.with_highlight(0, None)
    }

    /// Dismisses the menus and drops the pending task.
    pub open spec fn shut_clear(self) -> MenuBarView {
        let s = self.shut();
        s.with_global(s.global.with_task(None))
    }

    /// Carries out a pending request from outside: a requested root opens (if it carries a
    /// menu), taking over from pointer and keyboard; otherwise a requested close dismisses the
    /// menus. An open request is handled before a close request.
    pub open spec fn after_pending(self) -> (MenuBarView, Effects) {
        match self.global.pending_open {
            Some(idx) => {
                let g = GlobalState { pending_open: None, ..self.global };
                if idx < self.roots.len() && self.roots[idx as int].has_menu() {
                    let w = MenuBarView {
                        global: GlobalState { open: true, keyboard_nav: false, bar_focused: false, ..g },
                        ..self
                    }.release_bar();
                    (
                        w.open_at(0, idx as int),
                        Effects {
                            invalidate_layout: true,
                            request_redraw: true,
                            fresh_from: if self.roots[idx as int].opens() {
                                Some(1)
                            } else {
                                None
                            },
                            ..Effects::spec_none()
                        },
                    )
                } else {
                    (self.with_global(g), Effects::spec_none())
                }
            },
            None => if self.global.pending_close {
                let s = self.shut();
                (s.with_global(GlobalState { pending_close: false, ..s.global }), Effects::dismiss_redraw())
            } else {
                (self, Effects::spec_none())
            },
        }
    }

    /// A key press while no menu is open: Alt or F10 toggles keyboard activation of the bar; while
    /// it is active, Escape leaves it, the horizontal arrows move the focus across the navigable
    /// roots (wrapping around), and Down, Enter or Space open the focused root.
    pub open spec fn after_bar_key(self, key: Key) -> (MenuBarView, Effects) {
        let focused = self.global.bar_focused;
        let kh = self.levels[0].keyboard_highlight;
        match key {
            Key::Alt | Key::F10 => if focused {
                (self.unfocus(), Effects::capture_redraw())
            } else {
                (
                    MenuBarView {
                        global: GlobalState { bar_focused: true, keyboard_nav: true, ..self.global },
                        ..self
                    }.with_highlight(0, to_index(spec_next_navigable(self.roots, None, true))),
                    Effects::capture_redraw(),
                )
            },
            Key::Escape => if focused {
                (self.unfocus(), Effects::capture_redraw())
            } else {
                (self, Effects::spec_none())
            },
            Key::ArrowLeft => if focused {
                let current = match kh {
                    Some(h) => h,
                    None => 0,
                };
                (
                    self.with_highlight(0, to_index(spec_next_navigable(self.roots, Some(current), false))),
                    Effects::capture_redraw(),
                )
            } else {
                (self, Effects::spec_none())
            },
            Key::ArrowRight => if focused {
                let current = match kh {
                    Some(h) => h,
                    None => (self.roots.len() - 1) as usize,
                };
                (
                    self.with_highlight(0, to_index(spec_next_navigable(self.roots, Some(current), true))),
                    Effects::capture_redraw(),
                )
            } else {
                (self, Effects::spec_none())
            },
            Key::ArrowDown | Key::Enter | Key::Space => if focused {
                match kh {
                    Some(idx) => if self.roots[idx as int].has_menu() {
                        let w = MenuBarView {
                            global: GlobalState { open: true, keyboard_nav: true, bar_focused: false, ..self.global },
                            ..self
                        };
                        (
                            w.open_at(0, idx as int),
                            Effects {
                                invalidate_layout: true,
                                request_redraw: true,
                                capture_event: true,
                                fresh_from: if self.roots[idx as int].opens() {
                                    Some(1)
                                } else {
                                    None
                                },
                                ..Effects::spec_none()
                            },
                        )
                    } else {
                        (self, Effects { capture_event: true, ..Effects::spec_none() })
                    },
                    None => (self, Effects { capture_event: true, ..Effects::spec_none() }),
                }
            } else {
                (self, Effects::spec_none())
            },
            _ => (self, Effects::spec_none()),
        }
    }

    /// An event reaching the bar, given whether the cursor is over the bar, over which visible
    /// roots it is, and whether the row of roots is wider than the bar.
    ///
    /// A press on the bar schedules opening (closed) or closing (open, by the dismiss policy);
    /// the release carries the task out. While the tree is open, moving over the bar switches
    /// roots and moving off it (button up) dismisses the menus. While it is closed, moving over
    /// the bar opens it when `open_on_hover` is set, and otherwise any movement leaves keyboard
    /// activation of the bar.
    pub open spec fn after_bar_event(
        self,
        event: BarEvent,
        over_bar: bool,
        hovered: Seq<bool>,
        scrollable: bool,
        params: GlobalParameters,
    ) -> (MenuBarView, BarOutcome) {
        let g = self.global;
        match event {
            BarEvent::LeftPressed => if over_bar {
                let v1 = self.with_global(GlobalState { pressed: true, ..g });
                let v2 = if g.open {
                    v1.with_global(v1.schedule_close(0, hovered, params))
                } else {
                    v1.with_global(v1.global.with_task(Some(MenuBarTask::OpenOnClick)))
                };
                (v2, BarOutcome::just(Effects { capture_event: true, ..Effects::spec_none() }))
            } else {
                (self, BarOutcome::just(Effects::spec_none()))
            },
            BarEvent::LeftReleased => {
                let v1 = self.with_global(GlobalState { pressed: false, ..g });
                match v1.global.task {
                    Some(MenuBarTask::OpenOnClick) => {
                        let v2 = if !v1.global.open {
                            v1.with_global(GlobalState { open: true, ..v1.global }).release_bar()
                        } else {
                            v1
                        };
                        let v3 = v2.try_open(0, hovered);
                        (v3.with_global(v3.global.with_task(None)), BarOutcome::just(v2.try_open_effects(0, hovered)))
                    },
                    Some(MenuBarTask::CloseOnClick) => (v1.shut_clear(), BarOutcome::just(Effects::dismiss_redraw())),
                    None => (v1, BarOutcome::just(Effects::spec_none())),
                }
            },
            BarEvent::CursorMoved => if g.open {
                if over_bar {
                    (self.try_open(0, hovered), BarOutcome::just(self.try_open_effects(0, hovered).captured()))
                } else if !g.pressed {
                    (self.shut_clear(), BarOutcome::just(Effects::dismiss_redraw()))
                } else {
                    (self, BarOutcome::just(Effects::spec_none()))
                }
            } else if params.open_on_hover && over_bar {
                let v2 = self.with_global(GlobalState { open: true, ..g });
                let v3 = v2.try_open(0, hovered);
                (
                    v3.with_global(v3.global.with_task(None)),
                    BarOutcome::just(v2.try_open_effects(0, hovered).captured()),
                )
            } else if g.bar_focused {
                (self.unfocus(), BarOutcome::just(Effects { request_redraw: true, ..Effects::spec_none() }))
            } else {
                (self, BarOutcome::just(Effects { request_redraw: true, ..Effects::spec_none() }))
            },
            BarEvent::WheelScrolled => if over_bar && scrollable {
                (
                    self,
                    BarOutcome {
                        effects: Effects {
                            invalidate_layout: true,
                            request_redraw: true,
                            capture_event: true,
                            ..Effects::spec_none()
                        },
                        scroll: true,
                        clamp_scroll: false,
                    },
                )
            } else {
                (self, BarOutcome::just(Effects::spec_none()))
            },
            BarEvent::Resized => (
                self,
                BarOutcome {
                    effects: Effects { invalidate_layout: true, request_redraw: true, ..Effects::spec_none() },
                    scroll: false,
                    clamp_scroll: true,
                },
            ),
            BarEvent::KeyPressed(key) => if !g.open {
                let (v, e) = self.after_bar_key(key);
                (v, BarOutcome::just(e))
            } else {
                (self, BarOutcome::just(Effects::spec_none()))
            },
            BarEvent::Other => (self, BarOutcome::just(Effects::spec_none())),
        }
    }
}

impl MenuBarState {
    /// Records a request from outside to open the root at `index` on the next update.
    pub fn request_open(&mut self, index: usize)
        requires
            old(self)@.wf(),
        ensures
            final(self)@ == old(self)@.with_global(GlobalState { pending_open: Some(index), ..old(self)@.global }),
            final(self)@.wf(),
    {
        self.global_state.pending_open = Some(index);
    }

    /// Records a request from outside to close the menu tree on the next update.
    pub fn request_close(&mut self)
        requires
            old(self)@.wf(),
        ensures
            final(self)@ == old(self)@.with_global(GlobalState { pending_close: true, ..old(self)@.global }),
            final(self)@.wf(),
    {
        self.global_state.pending_close = true;
    }

    /// Carries out pending requests, as `after_pending` describes.
    pub fn consume_pending(&mut self) -> (r: Effects)
        requires
            old(self)@.wf(),
        ensures
            (final(self)@, r) == old(self)@.after_pending(),
            final(self)@.wf(),
    {
        let ghost v0 = self@;
        match self.global_state.pending_open {
            Some(idx) => {
                self.global_state.pending_open = None;
                if idx < self.roots.len() && self.roots[idx].has_submenu() {
                    self.global_state.open = true;
                    self.global_state.keyboard_nav = false;
                    self.global_state.bar_focused = false;
                    self.release_bar();
                    let opened = self.open_at(0, idx);
                    Effects {
                        invalidate_layout: true,
                        request_redraw: true,
                        capture_event: false,
                        close_menus: false,
                        fresh_from: if opened {
                            Some(1)
                        } else {
                            None
                        },
                    }
                } else {
                    Effects::none()
                }
            },
            None => {
                if self.global_state.pending_close {
                    self.shut();
                    self.global_state.pending_close = false;
                    Effects {
                        invalidate_layout: false,
                        request_redraw: true,
                        capture_event: false,
                        close_menus: true,
                        fresh_from: None,
                    }
                } else {
                    Effects::none()
                }
            },
        }
    }

    /// Leaves keyboard activation of the bar.
    fn unfocus(&mut self)
        requires
            old(self)@.wf(),
        ensures
            final(self)@ == old(self)@.unfocus(),
            final(self)@.wf(),
    {
        self.global_state.bar_focused = false;
        self.global_state.keyboard_nav = false;
        self.set_highlight(0, None);
    }

    /// Handles a key press while no menu is open, as `after_bar_key` describes.
    pub fn bar_key(&mut self, key: Key) -> (r: Effects)
        requires
            old(self)@.wf(),
            !old(self)@.global.open,
        ensures
            (final(self)@, r) == old(self)@.after_bar_key(key),
            final(self)@.wf(),
    {
        let focused = self.global_state.bar_focused;
        let kh = self.levels[0].keyboard_highlight;
        let capture_redraw = Effects {
            invalidate_layout: false,
            request_redraw: true,
            capture_event: true,
            close_menus: false,
            fresh_from: None,
        };
        match key {
            Key::Alt | Key::F10 => {
                if focused {
                    self.unfocus();
                } else {
                    self.global_state.bar_focused = true;
                    self.global_state.keyboard_nav = true;
                    let first = first_navigable(&self.roots);
                    self.set_highlight(0, first);
                }
                capture_redraw
            },
            Key::Escape => {
                if focused {
                    self.unfocus();
                    capture_redraw
                } else {
                    Effects::none()
                }
            },
            Key::ArrowLeft => {
                if focused {
                    let current = match kh {
                        Some(h) => h,
                        None => 0,
                    };
                    let target = prev_navigable_root(&self.roots, current);
                    self.set_highlight(0, target);
                    capture_redraw
                } else {
                    Effects::none()
                }
            },
            Key::ArrowRight => {
                if focused {
                    let n = self.roots.len();
                    let target = if n == 0 {
                        None
                    } else {
                        let current = match kh {
                            Some(h) => h,
                            None => n - 1,
                        };
                        next_navigable_root(&self.roots, current)
                    };
                    self.set_highlight(0, target);
                    capture_redraw
                } else {
                    Effects::none()
                }
            },
            Key::ArrowDown | Key::Enter | Key::Space => {
                if focused {
                    match kh {
                        Some(idx) => {
                            proof {
                                assert(crate::model::level_wf(self@.roots, self@.levels, 0));
                            }
                            if self.roots[idx].has_submenu() {
                                self.global_state.open = true;
                                self.global_state.keyboard_nav = true;
                                self.global_state.bar_focused = false;
                                let opened = self.open_at(0, idx);
                                Effects {
                                    invalidate_layout: true,
                                    request_redraw: true,
                                    capture_event: true,
                                    close_menus: false,
                                    fresh_from: if opened {
                                        Some(1)
                                    } else {
                                        None
                                    },
                                }
                            } else {
                                Effects { capture_event: true, ..Effects::none() }
                            }
                        },
                        None => Effects { capture_event: true, ..Effects::none() },
                    }
                } else {
                    Effects::none()
                }
            },
            _ => Effects::none(),
        }
    }

    /// Handles an event reaching the bar, as `after_bar_event` describes.
    pub fn bar_event(
        &mut self,
        event: BarEvent,
        over_bar: bool,
        hovered: &Vec<bool>,
        scrollable: bool,
        params: &GlobalParameters,
    ) -> (r: BarOutcome)
        requires
            old(self)@.wf(),
        ensures
            (final(self)@, r) == old(self)@.after_bar_event(event, over_bar, hovered@, scrollable, *params),
            final(self)@.wf(),
    {
        let just = |effects: Effects| -> (o: BarOutcome)
            ensures
                o == BarOutcome::just(effects),
            { BarOutcome { effects, scroll: false, clamp_scroll: false } };
        match event {
            BarEvent::LeftPressed => {
                if over_bar {
                    self.global_state.pressed = true;
                    if self.global_state.open {
                        self.schedule_close_on_click(0, hovered, params);
                    } else {
                        self.global_state.schedule(MenuBarTask::OpenOnClick);
                    }
                    just(Effects { capture_event: true, ..Effects::none() })
                } else {
                    just(Effects::none())
                }
            },
            BarEvent::LeftReleased => {
                self.global_state.pressed = false;
                match self.global_state.task() {
                    Some(MenuBarTask::OpenOnClick) => {
                        if !self.global_state.open {
                            self.global_state.open = true;
                            self.release_bar();
                        }
                        let e = self.try_open_menu(0, hovered);
                        self.global_state.clear_task();
                        just(e)
                    },
                    Some(MenuBarTask::CloseOnClick) => {
                        self.shut();
                        self.global_state.clear_task();
                        just(Effects { close_menus: true, request_redraw: true, ..Effects::none() })
                    },
                    None => just(Effects::none()),
                }
            },
            BarEvent::CursorMoved => {
                if self.global_state.open {
                    if over_bar {
                        let e = self.try_open_menu(0, hovered);
                        just(Effects { capture_event: true, ..e })
                    } else if !self.global_state.pressed {
                        self.shut();
                        self.global_state.clear_task();
                        just(Effects { close_menus: true, request_redraw: true, ..Effects::none() })
                    } else {
                        just(Effects::none())
                    }
                } else if params.open_on_hover && over_bar {
                    self.global_state.open = true;
                    let e = self.try_open_menu(0, hovered);
                    self.global_state.clear_task();
                    just(Effects { capture_event: true, ..e })
                } else {
                    if self.global_state.bar_focused {
                        self.unfocus();
                    }
                    just(Effects { request_redraw: true, ..Effects::none() })
                }
            },
            BarEvent::WheelScrolled => {
                if over_bar && scrollable {
                    BarOutcome {
                        effects: Effects {
                            invalidate_layout: true,
                            request_redraw: true,
                            capture_event: true,
                            close_menus: false,
                            fresh_from: None,
                        },
                        scroll: true,
                        clamp_scroll: false,
                    }
                } else {
                    just(Effects::none())
                }
            },
            BarEvent::Resized => BarOutcome {
                effects: Effects {
                    invalidate_layout: true,
                    request_redraw: true,
                    capture_event: false,
                    close_menus: false,
                    fresh_from: None,
                },
                scroll: false,
                clamp_scroll: true,
            },
            BarEvent::KeyPressed(key) => {
                if !self.global_state.open {
                    let e = self.bar_key(key);
                    just(e)
                } else {
                    just(Effects::none())
                }
            },
            BarEvent::Other => just(Effects::none()),
        }
    }

    /// Whether the root at `i` receives a cursor placed at its centre while the bar updates its
    /// roots: with a filled path highlight, the open root and the keyboard-focused root do, so
    /// they keep their highlighted look.
    pub fn root_update_centered(&self, i: usize, params: &GlobalParameters) -> (r: bool)
        requires
            self@.wf(),
        ensures
            r == (params.path_highlight == PathHighlight::Fill && ((self@.global.open
                && self@.levels[0].active == Some(i)) || (self@.global.bar_focused
                && self@.levels[0].keyboard_highlight == Some(i)))),
    {
        let bar = self.levels[0];
        let fill = match params.path_highlight {
            PathHighlight::Fill => true,
            PathHighlight::Hover => false,
        };
        let open_here = match bar.active {
            Some(a) => self.global_state.open && a == i,
            None => false,
        };
        let focus_here = match bar.keyboard_highlight {
            Some(h) => self.global_state.bar_focused && h == i,
            None => false,
        };
        fill && (open_here || focus_here)
    }

    /// Whether the root at `i` is drawn with a cursor placed at its centre: the keyboard-focused
    /// root while the bar is activated, and the open root while the tree is open.
    pub fn root_draw_centered(&self, i: usize) -> (r: bool)
        requires
            self@.wf(),
        ensures
            r == ((self@.global.bar_focused && self@.levels[0].keyboard_highlight == Some(i)) || (
            self@.global.open && self@.levels[0].active == Some(i))),
    {
        let bar = self.levels[0];
        let focus_here = match bar.keyboard_highlight {
            Some(h) => self.global_state.bar_focused && h == i,
            None => false,
        };
        let open_here = match bar.active {
            Some(a) => self.global_state.open && a == i,
            None => false,
        };
        focus_here || open_here
    }

    /// The status the bar is drawn in: focused while keyboard driven, selected while open,
    /// pressed while the button is held, hovered under the cursor, active otherwise.
    pub fn bar_status(&self, over_bar: bool) -> (r: Status)
        ensures
            r == (if self@.global.keyboard_nav {
                Status::Focused
            } else if self@.global.open {
                Status::Selected
            } else if self@.global.pressed {
                Status::Pressed
            } else if over_bar {
                Status::Hovered
            } else {
                Status::Active
            }),
    {
        if self.global_state.keyboard_nav {
            Status::Focused
        } else if self.global_state.open {
            Status::Selected
        } else if self.global_state.pressed {
            Status::Pressed
        } else if over_bar {
            Status::Hovered
        } else {
            Status::Active
        }
    }

    /// Where the bar draws its path highlight (only with a filled highlight): behind the open
    /// root while open, behind the keyboard-focused root while activated, else behind the root
    /// under the cursor. Positions count from the start of the visible slice; an open root left of the
    /// slice is not highlighted, and a focused root left of it puts the highlight on the first
    /// visible root.
    pub fn bar_highlight(&self, params: &GlobalParameters) -> (r: BarHighlight)
        requires
            self@.wf(),
        ensures
            r == (if params.path_highlight != PathHighlight::Fill {
                BarHighlight::Nothing
            } else if self@.global.open {
                match self@.levels[0].active {
                    Some(a) => if a >= self@.levels[0].slice.start_index {
                        BarHighlight::Slot((a - self@.levels[0].slice.start_index) as usize)
                    } else {
                        BarHighlight::Nothing
                    },
                    None => BarHighlight::Nothing,
                }
            } else if self@.global.bar_focused {
                match self@.levels[0].keyboard_highlight {
                    Some(h) => BarHighlight::Slot(
                        if h >= self@.levels[0].slice.start_index {
                            (h - self@.levels[0].slice.start_index) as usize
                        } else {
                            0
                        },
                    ),
                    None => BarHighlight::Nothing,
                }
            } else {
                BarHighlight::UnderCursor
            }),
    {
        let bar = self.levels[0];
        match params.path_highlight {
            PathHighlight::Hover => BarHighlight::Nothing,
            PathHighlight::Fill => {
                if self.global_state.open {
                    match bar.active {
                        Some(a) => if a >= bar.slice.start_index {
                            BarHighlight::Slot(a - bar.slice.start_index)
                        } else {
                            BarHighlight::Nothing
                        },
                        None => BarHighlight::Nothing,
                    }
                } else if self.global_state.bar_focused {
                    match bar.keyboard_highlight {
                        Some(h) => BarHighlight::Slot(
                            if h >= bar.slice.start_index {
                                h - bar.slice.start_index
                            } else {
                                0
                            },
                        ),
                        None => BarHighlight::Nothing,
                    }
                } else {
                    BarHighlight::UnderCursor
                }
            },
        }
    }

    /// The position, within the visible slice of level `m`, of the entry whose submenu is open
    /// (`None` when nothing is open there or the entry lies before the slice).
    pub fn active_slot(&self, m: usize) -> (r: Option<usize>)
        requires
            m < self@.levels.len(),
        ensures
            r == (match self@.levels[m as int].active {
                Some(a) => if a >= self@.levels[m as int].slice.start_index {
                    Some((a - self@.levels[m as int].slice.start_index) as usize)
                } else {
                    None
                },
                None => None,
            }),
    {
        let st = self.levels[m];
        match st.active {
            Some(a) => if a >= st.slice.start_index {
                Some(a - st.slice.start_index)
            } else {
                None
            },
            None => None,
        }
    }
}

} // verus!
