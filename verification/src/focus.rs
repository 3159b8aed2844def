//! Focus management: the launcher is pinned on top while it has the focus
//! and unpinned when another window takes it; when the last started program
//! ends, on the remote's home key, and from a watchdog while Idle, the
//! launcher takes the focus back. Maintenance mode turns all of this off.

use vstd::prelude::*;

use crate::state::{LauncherState, LauncherStateView};

verus! {

/// A change of the launcher window's z-order.
#[derive(Debug, Clone, Copy, PartialEq, Eq)]
pub enum Pinning {
    /// Keep the launcher above all other windows.
    Topmost,
    /// Let other windows show above the launcher.
    NotTopmost,
}

/// The pinning change when `hwnd` comes to the foreground: none in maintenance
/// mode or before the launcher window exists; otherwise the launcher is
/// pinned exactly when it is the new foreground window.
pub open spec fn foreground_pinning(s: LauncherStateView, hwnd: int) -> Option<Pinning> {
    if s.maintenance || s.launcher_hwnd == 0 {
        None
    } else if hwnd == s.launcher_hwnd {
        Some(Pinning::Topmost)
    } else {
        Some(Pinning::NotTopmost)
    }
}

/// The window to bring to the front when the launcher takes the focus back:
/// the launcher's, unless in maintenance mode or before it exists.
pub open spec fn reclaim_target(s: LauncherStateView) -> Option<int> {
    if s.maintenance || s.launcher_hwnd == 0 {
        None
    } else {
        Some(s.launcher_hwnd)
    }
}

/// The watchdog's target on one tick: the launcher's window when Idle, not in
/// maintenance mode, and some other window holds the foreground.
pub open spec fn watchdog_target(s: LauncherStateView) -> Option<int> {
    if s.app_running || s.maintenance || s.launcher_hwnd == 0 {
        None
    } else if s.foreground_hwnd == s.launcher_hwnd {
        None
    } else {
        Some(s.launcher_hwnd)
    }
}

/// Starts focus tracking for the launcher window `hwnd`, which counts as the
/// foreground window until the system reports another.
pub fn init(state: &mut LauncherState, hwnd: isize)
    ensures
        final(state)@ == (LauncherStateView {
            launcher_hwnd: hwnd as int,
            foreground_hwnd: hwnd as int,
            ..old(state)@
        }),
{
    state.set_launcher_hwnd(hwnd);
    state.set_foreground_hwnd(hwnd);
}

/// Handles a foreground change to `hwnd`: records it and returns the pinning
/// change to apply to the launcher window.
pub fn on_foreground(state: &mut LauncherState, hwnd: isize) -> (r: Option<Pinning>)
    ensures
        final(state)@ == (LauncherStateView { foreground_hwnd: hwnd as int, ..old(state)@ }),
        r == foreground_pinning(old(state)@, hwnd as int),
{
    state.set_foreground_hwnd(hwnd);
    if state.maintenance() {
        return None;
    }
    let launcher = state.launcher_hwnd();
    if launcher == 0 {
        None
    } else if hwnd == launcher {
        Some(Pinning::Topmost)
    } else {
        Some(Pinning::NotTopmost)
    }
}

/// The window to bring to the front once the last started program has ended.
pub fn reclaim(state: &LauncherState) -> (r: Option<isize>)
    ensures
        match r {
            Some(h) => reclaim_target(state@) == Some(h as int),
            None => reclaim_target(state@) is None,
        },
{
    if state.maintenance() {
        return None;
    }
    let h = state.launcher_hwnd();
    if h == 0 {
        None
    } else {
        Some(h)
    }
}

/// The window to bring to the front on the remote's home key: an explicit user
/// action, so it applies while a program runs too.
pub fn show_launcher(state: &LauncherState) -> (r: Option<isize>)
    ensures
        match r {
            Some(h) => reclaim_target(state@) == Some(h as int),
            None => reclaim_target(state@) is None,
        },
{
    reclaim(state)
}

/// One watchdog tick: the window to bring to the front, if any.
pub fn watchdog_tick(state: &LauncherState) -> (r: Option<isize>)
    ensures
        match r {
            Some(h) => watchdog_target(state@) == Some(h as int),
            None => watchdog_target(state@) is None,
        },
{
    if state.app_running() || state.maintenance() {
        return None;
    }
    let launcher = state.launcher_hwnd();
    if launcher == 0 {
        return None;
    }
    if state.foreground_hwnd() == launcher {
        None
    } else {
        Some(launcher)
    }
}

/// Entering maintenance mode: the launcher window to unpin, if it exists.
pub fn enter_maintenance(state: &mut LauncherState) -> (unpin: Option<isize>)
    ensures
        final(state)@ == (LauncherStateView { maintenance: true, ..old(state)@ }),
        match unpin {
            Some(h) => h != 0 && h == old(state)@.launcher_hwnd,
            None => old(state)@.launcher_hwnd == 0,
        },
{
    let h = state.launcher_hwnd();
    state.set_maintenance(true);
    if h != 0 {
        Some(h)
    } else {
        None
    }
}

/// Leaving maintenance mode: the launcher window to pin again, if it exists.
pub fn exit_maintenance(state: &mut LauncherState) -> (pin: Option<isize>)
    ensures
        final(state)@ == (LauncherStateView { maintenance: false, ..old(state)@ }),
        match pin {
            Some(h) => h != 0 && h == old(state)@.launcher_hwnd,
            None => old(state)@.launcher_hwnd == 0,
        },
{
    let h = state.launcher_hwnd();
    state.set_maintenance(false);
    if h != 0 {
        Some(h)
    } else {
        None
    }
}

/// In maintenance mode the launcher neither changes its pinning nor takes the
/// focus, whatever happens.
pub proof fn lemma_maintenance_leaves_desktop_alone(s: LauncherStateView, hwnd: int)
    requires
        s.maintenance,
    ensures
        foreground_pinning(s, hwnd) is None,
        reclaim_target(s) is None,
        watchdog_target(s) is None,
{
}

/// While an external program runs, the watchdog never takes the focus.
pub proof fn lemma_watchdog_yields_to_running_app(s: LauncherStateView)
    requires
        s.app_running,
    ensures
        watchdog_target(s) is None,
{
}

/// Outside maintenance mode the launcher is pinned exactly while it holds the
/// foreground.
pub proof fn lemma_pinning_follows_focus(s: LauncherStateView, hwnd: int)
    requires
        !s.maintenance,
        s.launcher_hwnd != 0,
    ensures
        foreground_pinning(s, hwnd) == Some(
            if hwnd == s.launcher_hwnd {
                Pinning::Topmost
            } else {
                Pinning::NotTopmost
            },
        ),
{
}

} // verus!
