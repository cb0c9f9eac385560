//! Window-geometry persistence decisions: the saved record, the per-window
//! tracker of the last restored rectangle and maximized flag, and the pure
//! transition functions the host's event callbacks drive.

use vstd::prelude::*;

verus! {

/// The persisted window record: the last restored rectangle and whether the
/// window was maximized. The rectangle always holds the last non-maximized
/// geometry, even while `maximized` is true.
#[derive(Clone, Copy, PartialEq, Eq, Structural, Debug)]
pub struct SavedWindowState {
    pub x: i32,
    pub y: i32,
    pub width: u32,
    pub height: u32,
    pub maximized: bool,
}

/// The hard-coded first-run geometry.
pub open spec fn default_window_state_spec() -> SavedWindowState {
    SavedWindowState { x: 0, y: 0, width: 1200, height: 800, maximized: false }
}

/// The hard-coded first-run geometry.
pub fn default_window_state() -> (r: SavedWindowState)
    ensures
        r == default_window_state_spec(),
{
    SavedWindowState { x: 0, y: 0, width: 1200, height: 800, maximized: false }
}

/// Mutable per-window bookkeeping: the last rectangle seen while not
/// maximized, and the most recently observed maximized flag.
#[derive(Clone, Copy, PartialEq, Eq, Structural, Debug)]
pub struct WindowStateTracker {
    pub last_normal: SavedWindowState,
    pub last_maximized: bool,
}

/// What the host should do right after creating the window: apply a saved
/// size when it is non-degenerate, apply the saved position, and schedule a
/// delayed re-maximize when the record closed maximized.
#[derive(Clone, Copy, PartialEq, Eq, Debug)]
pub struct InstallPlan {
    pub set_size: Option<(u32, u32)>,
    pub set_position: Option<(i32, i32)>,
    pub schedule_maximize: bool,
}

/// The install actions for a possibly missing saved record.
pub open spec fn install_plan_spec(saved: Option<SavedWindowState>) -> InstallPlan {
    match saved {
        None => InstallPlan { set_size: None, set_position: None, schedule_maximize: false },
        Some(s) => InstallPlan {
            set_size: if s.width > 0 && s.height > 0 {
                Some((s.width, s.height))
            } else {
                None
            },
            set_position: Some((s.x, s.y)),
            schedule_maximize: s.maximized,
        },
    }
}

/// The install actions for a possibly missing saved record.
pub fn plan_install(saved: Option<SavedWindowState>) -> (r: InstallPlan)
    ensures
        r == install_plan_spec(saved),
{
    match saved {
        None => InstallPlan { set_size: None, set_position: None, schedule_maximize: false },
        Some(s) => InstallPlan {
            set_size: if s.width > 0 && s.height > 0 {
                Some((s.width, s.height))
            } else {
                None
            },
            set_position: Some((s.x, s.y)),
            schedule_maximize: s.maximized,
        },
    }
}

/// The tracker a window starts with: the saved rectangle when the record
/// closed restored, else the live geometry, else the default; the maximized
/// flag taken from the record.
pub open spec fn initial_tracker_spec(
    saved: Option<SavedWindowState>,
    current: Option<SavedWindowState>,
) -> WindowStateTracker {
    let restore_maximized = match saved {
        Some(s) => s.maximized,
        None => false,
    };
    let initial = match saved {
        Some(s) => if !s.maximized {
            s
        } else {
            match current {
                Some(c) => c,
                None => default_window_state_spec(),
            }
        },
        None => match current {
            Some(c) => c,
            None => default_window_state_spec(),
        },
    };
    WindowStateTracker { last_normal: initial, last_maximized: restore_maximized }
}

/// The tracker a window starts with.
pub fn initial_tracker(
    saved: Option<SavedWindowState>,
    current: Option<SavedWindowState>,
) -> (t: WindowStateTracker)
    ensures
        t == initial_tracker_spec(saved, current),
{
    let restore_maximized = match saved {
        Some(s) => s.maximized,
        None => false,
    };
    let initial = match saved {
        Some(s) => if !s.maximized {
            s
        } else {
            match current {
                Some(c) => c,
                None => default_window_state(),
            }
        },
        None => match current {
            Some(c) => c,
            None => default_window_state(),
        },
    };
    WindowStateTracker { last_normal: initial, last_maximized: restore_maximized }
}

/// A move event: refresh the maximized flag; record the new position only
/// while not maximized, preserving the pre-maximize rectangle otherwise.
pub fn on_moved(t: &mut WindowStateTracker, x: i32, y: i32, is_maximized: bool)
    ensures
        final(t).last_maximized == is_maximized,
        final(t).last_normal.x == if is_maximized {
            old(t).last_normal.x
        } else {
            x
        },
        final(t).last_normal.y == if is_maximized {
            old(t).last_normal.y
        } else {
            y
        },
        final(t).last_normal.width == old(t).last_normal.width,
        final(t).last_normal.height == old(t).last_normal.height,
        final(t).last_normal.maximized == old(t).last_normal.maximized,
{
    t.last_maximized = is_maximized;
    if !is_maximized {
        t.last_normal.x = x;
        t.last_normal.y = y;
    }
}

/// A resize event: refresh the maximized flag; record the new size only
/// while not maximized, preserving the pre-maximize rectangle otherwise.
pub fn on_resized(t: &mut WindowStateTracker, width: u32, height: u32, is_maximized: bool)
    ensures
        final(t).last_maximized == is_maximized,
        final(t).last_normal.width == if is_maximized {
            old(t).last_normal.width
        } else {
            width
        },
        final(t).last_normal.height == if is_maximized {
            old(t).last_normal.height
        } else {
            height
        },
        final(t).last_normal.x == old(t).last_normal.x,
        final(t).last_normal.y == old(t).last_normal.y,
        final(t).last_normal.maximized == old(t).last_normal.maximized,
{
    t.last_maximized = is_maximized;
    if !is_maximized {
        t.last_normal.width = width;
        t.last_normal.height = height;
    }
}

/// A focus event: cheap bookkeeping that only refreshes the maximized flag.
pub fn on_focus_changed(t: &mut WindowStateTracker, is_maximized: bool)
    ensures
        final(t).last_maximized == is_maximized,
        final(t).last_normal == old(t).last_normal,
{
    t.last_maximized = is_maximized;
}

/// The window's maximized status at close: a live answer when the window
/// could still be queried, else the tracked flag.
pub open spec fn final_maximized_spec(t: WindowStateTracker, live: Option<bool>) -> bool {
    match live {
        Some(b) => b,
        None => t.last_maximized,
    }
}

/// The record to persist at close: the maximized flag from the final status,
/// the rectangle refreshed from the live window when it closed restored,
/// else the tracked restored rectangle.
pub open spec fn close_record_spec(
    t: WindowStateTracker,
    live_maximized: Option<bool>,
    live_rect: Option<SavedWindowState>,
) -> SavedWindowState {
    let m = final_maximized_spec(t, live_maximized);
    let base = if !m {
        match live_rect {
            Some(c) => SavedWindowState {
                x: c.x,
                y: c.y,
                width: c.width,
                height: c.height,
                maximized: t.last_normal.maximized,
            },
            None => t.last_normal,
        }
    } else {
        t.last_normal
    };
    SavedWindowState {
        x: base.x,
        y: base.y,
        width: base.width,
        height: base.height,
        maximized: m,
    }
}

/// The record to persist at close.
pub fn close_record(
    t: &WindowStateTracker,
    live_maximized: Option<bool>,
    live_rect: Option<SavedWindowState>,
) -> (r: SavedWindowState)
    ensures
        r == close_record_spec(*t, live_maximized, live_rect),
{
    let m = match live_maximized {
        Some(b) => b,
        None => t.last_maximized,
    };
    let base = if !m {
        match live_rect {
            Some(c) => SavedWindowState {
                x: c.x,
                y: c.y,
                width: c.width,
                height: c.height,
                maximized: t.last_normal.maximized,
            },
            None => t.last_normal,
        }
    } else {
        t.last_normal
    };
    SavedWindowState { x: base.x, y: base.y, width: base.width, height: base.height, maximized: m }
}

} // verus!
