//! Decisions of the desktop shell: the scratchpad toggle and which of the
//! application's own windows receives dictated text.
use vstd::prelude::*;

verus! {

/// Toggles closer together than this are key repeat and are ignored.
pub const SCRATCHPAD_DEBOUNCE_MS: u64 = 120;

/// Whether the scratchpad counts as open (the window's own visibility flag
/// is not trusted), and when it was last toggled.
#[derive(Debug, Clone, Copy, PartialEq, Eq, Structural)]
pub struct ScratchpadUi {
    pub open: bool,
    /// Milliseconds on a monotonic clock.
    pub last_toggle_ms: Option<u64>,
}

/// What a toggle request does.
#[derive(Debug, Clone, Copy, PartialEq, Eq, Structural)]
pub enum ScratchpadToggle {
    /// Too soon after the previous toggle.
    Ignore,
    Hide,
    /// Show, keep on top and focus the editor.
    Show,
}

/// Time since the last toggle, zero when the clock reads earlier.
pub open spec fn elapsed(now: u64, last: u64) -> int {
    if now >= last {
        now - last
    } else {
        0
    }
}

impl ScratchpadUi {
    pub fn new() -> (ui: ScratchpadUi)
        ensures
            ui == (ScratchpadUi { open: false, last_toggle_ms: None }),
    {
        ScratchpadUi { open: false, last_toggle_ms: None }
    }

    /// Toggle at time `now_ms`: ignored within the debounce window, else the
    /// open flag flips.
    pub fn toggle(&mut self, now_ms: u64) -> (r: ScratchpadToggle)
        ensures
            match old(self).last_toggle_ms {
                Some(t) if elapsed(now_ms, t) < SCRATCHPAD_DEBOUNCE_MS => r == ScratchpadToggle::Ignore
                    && *final(self) == *old(self),
                _ => *final(self) == (ScratchpadUi {
                    open: !old(self).open,
                    last_toggle_ms: Some(now_ms),
                }) && r == (if old(self).open {
                    ScratchpadToggle::Hide
                } else {
                    ScratchpadToggle::Show
                }),
            },
    {
        if let Some(t) = self.last_toggle_ms {
            let since = if now_ms >= t {
                now_ms - t
            } else {
                0
            };
            if since < SCRATCHPAD_DEBOUNCE_MS {
                return ScratchpadToggle::Ignore;
            }
        }
        self.last_toggle_ms = Some(now_ms);
        if self.open {
            self.open = false;
            ScratchpadToggle::Hide
        } else {
            self.open = true;
            ScratchpadToggle::Show
        }
    }
}

/// The application's own windows.
#[derive(Debug, Clone, Copy, PartialEq, Eq, Structural)]
pub enum AppWindow {
    Scratchpad,
    Main,
}

/// What the shell knows about its windows when text arrives for them.
#[derive(Debug, Clone, Copy, PartialEq, Eq, Structural)]
pub struct WindowsSeen {
    pub scratchpad_exists: bool,
    pub scratchpad_focused: bool,
    pub main_exists: bool,
    pub main_focused: bool,
    pub scratchpad_open: bool,
}

/// Only the focused window receives the text (scratchpad checked first);
/// when neither reports focus, an open scratchpad, else the main window.
pub open spec fn insert_target(w: WindowsSeen) -> Option<AppWindow> {
    if w.scratchpad_exists && w.scratchpad_focused {
        Some(AppWindow::Scratchpad)
    } else if w.main_exists && w.main_focused {
        Some(AppWindow::Main)
    } else if w.scratchpad_open && w.scratchpad_exists {
        Some(AppWindow::Scratchpad)
    } else if w.main_exists {
        Some(AppWindow::Main)
    } else {
        None
    }
}

pub fn app_insert_target(w: WindowsSeen) -> (r: Option<AppWindow>)
    ensures
        r == insert_target(w),
{
    if w.scratchpad_exists && w.scratchpad_focused {
        Some(AppWindow::Scratchpad)
    } else if w.main_exists && w.main_focused {
        Some(AppWindow::Main)
    } else if w.scratchpad_open && w.scratchpad_exists {
        Some(AppWindow::Scratchpad)
    } else if w.main_exists {
        Some(AppWindow::Main)
    } else {
        None
    }
}

} // verus!
