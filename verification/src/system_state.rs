//! Crash self-healing: a snapshot file carries a "running" mark that is set at
//! start and cleared on a normal exit. Finding it still set at the next start
//! means the last run ended abnormally (killed, crashed, power lost), and the
//! desktop (taskbar, power policy) is restored.

use vstd::prelude::*;

verus! {

/// The persisted system-state snapshot.
#[derive(Debug, Clone, Copy, PartialEq, Eq)]
pub struct StateSnapshot {
    /// Set while the launcher runs; still set at start after an abnormal exit.
    pub running: bool,
    /// The taskbar's auto-hide state before the launcher changed it.
    pub taskbar_autohide: Option<i32>,
    /// Whether desktop icons were visible before the launcher changed it.
    pub desktop_icons_visible: Option<bool>,
}

impl Default for StateSnapshot {
    /// No mark and nothing recorded (also what a missing or unreadable file
    /// reads as).
    fn default() -> (s: Self)
        ensures
            s == (StateSnapshot { running: false, taskbar_autohide: None, desktop_icons_visible: None }),
    {
        StateSnapshot { running: false, taskbar_autohide: None, desktop_icons_visible: None }
    }
}

/// `s` with its running mark set to `running`.
pub open spec fn with_running(s: StateSnapshot, running: bool) -> StateSnapshot {
    StateSnapshot { running, ..s }
}

/// Sets the running mark (at start, after the self-heal check).
pub fn mark_running(snap: &mut StateSnapshot)
    ensures
        *final(snap) == with_running(*old(snap), true),
{
    snap.running = true;
}

/// Clears the running mark (on a normal exit).
pub fn mark_clean(snap: &mut StateSnapshot)
    ensures
        *final(snap) == with_running(*old(snap), false),
{
    snap.running = false;
}

/// Whether the last run ended abnormally and the desktop needs restoring.
pub fn check_self_heal(snap: &StateSnapshot) -> (heal: bool)
    ensures
        heal == snap.running,
{
    snap.running
}

/// Restoring the desktop (self-heal or the settings' restore button) clears
/// the running mark and keeps what was recorded.
pub fn restore_system(snap: &mut StateSnapshot)
    ensures
        *final(snap) == with_running(*old(snap), false),
{
    snap.running = false;
}

/// A run that set the mark and never cleared it is detected at the next start;
/// a run that ended normally, or a restore, is not.
pub proof fn lemma_self_heal_detects_unclean_exit(s: StateSnapshot)
    ensures
        with_running(s, true).running,
        !with_running(with_running(s, true), false).running,
        with_running(with_running(s, true), false).taskbar_autohide == s.taskbar_autohide,
        with_running(with_running(s, true), false).desktop_icons_visible
            == s.desktop_icons_visible,
{
}

} // verus!
