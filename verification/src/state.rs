//! Shared launcher state behind the focus state machine: whether an external
//! program runs (AppRunning) or not (Idle), how many are running, the
//! launcher's window handle, the last foreground window, and maintenance mode.

use vstd::prelude::*;

verus! {

/// The contents of a [`LauncherState`].
pub struct LauncherStateView {
    pub app_running: bool,
    pub running_count: nat,
    pub launcher_hwnd: int,
    pub foreground_hwnd: int,
    pub maintenance: bool,
}

/// State shared between the launcher's threads (the host keeps it behind a
/// lock).
pub struct LauncherState {
    app_running: bool,
    running_count: usize,
    launcher_hwnd: isize,
    foreground_hwnd: isize,
    maintenance: bool,
}

impl View for LauncherState {
    type V = LauncherStateView;

    closed spec fn view(&self) -> LauncherStateView {
        LauncherStateView {
            app_running: self.app_running,
            running_count: self.running_count as nat,
            launcher_hwnd: self.launcher_hwnd as int,
            foreground_hwnd: self.foreground_hwnd as int,
            maintenance: self.maintenance,
        }
    }
}

/// The state after an external program was started.
pub open spec fn launched(s: LauncherStateView) -> LauncherStateView {
    LauncherStateView { running_count: s.running_count + 1, app_running: true, ..s }
}

/// The state after a started program (with its whole process tree) ended:
/// one fewer running, Idle again once none is left.
pub open spec fn exited(s: LauncherStateView) -> LauncherStateView {
    let remaining = (s.running_count - 1) as nat;
    LauncherStateView {
        running_count: remaining,
        app_running: if remaining == 0 {
            false
        } else {
            s.app_running
        },
        ..s
    }
}

impl LauncherState {
    /// Idle, nothing running, no launcher window yet, not in maintenance.
    pub fn new() -> (s: Self)
        ensures
            s@ == (LauncherStateView {
                app_running: false,
                running_count: 0,
                launcher_hwnd: 0,
                foreground_hwnd: 0,
                maintenance: false,
            }),
    {
        LauncherState {
            app_running: false,
            running_count: 0,
            launcher_hwnd: 0,
            foreground_hwnd: 0,
            maintenance: false,
        }
    }

    /// Whether an external program runs (AppRunning).
    pub fn app_running(&self) -> (r: bool)
        ensures
            r == self@.app_running,
    {
        self.app_running
    }

    pub fn set_app_running(&mut self, v: bool)
        ensures
            final(self)@ == (LauncherStateView { app_running: v, ..old(self)@ }),
    {
        self.app_running = v;
    }

    /// Counts one more running program; returns the new count.
    pub fn inc_running(&mut self) -> (r: usize)
        requires
            old(self)@.running_count < usize::MAX,
        ensures
            r == old(self)@.running_count + 1,
            final(self)@ == (LauncherStateView { running_count: r as nat, ..old(self)@ }),
    {
        self.running_count = self.running_count + 1;
        self.running_count
    }

    /// Counts one fewer running program; returns the number left.
    pub fn dec_running(&mut self) -> (r: usize)
        requires
            old(self)@.running_count > 0,
        ensures
            r == old(self)@.running_count - 1,
            final(self)@ == (LauncherStateView { running_count: r as nat, ..old(self)@ }),
    {
        self.running_count = self.running_count - 1;
        self.running_count
    }

    /// The launcher's window handle (0 before the window exists).
    pub fn launcher_hwnd(&self) -> (r: isize)
        ensures
            r == self@.launcher_hwnd,
    {
        self.launcher_hwnd
    }

    pub fn set_launcher_hwnd(&mut self, h: isize)
        ensures
            final(self)@ == (LauncherStateView { launcher_hwnd: h as int, ..old(self)@ }),
    {
        self.launcher_hwnd = h;
    }

    /// The window last reported in the foreground.
    pub fn foreground_hwnd(&self) -> (r: isize)
        ensures
            r == self@.foreground_hwnd,
    {
        self.foreground_hwnd
    }

    pub fn set_foreground_hwnd(&mut self, h: isize)
        ensures
            final(self)@ == (LauncherStateView { foreground_hwnd: h as int, ..old(self)@ }),
    {
        self.foreground_hwnd = h;
    }

    /// Whether maintenance mode is on (desktop restored, no pinning, no
    /// focus reclaiming).
    pub fn maintenance(&self) -> (r: bool)
        ensures
            r == self@.maintenance,
    {
        self.maintenance
    }

    pub fn set_maintenance(&mut self, v: bool)
        ensures
            final(self)@ == (LauncherStateView { maintenance: v, ..old(self)@ }),
    {
        self.maintenance = v;
    }

    /// How many started programs are running.
    pub fn running_count(&self) -> (r: usize)
        ensures
            r == self@.running_count,
    {
        self.running_count
    }

    /// Records that an external program was started: one more running, and
    /// AppRunning.
    pub fn on_app_launched(&mut self)
        requires
            old(self)@.running_count < usize::MAX,
        ensures
            final(self)@ == launched(old(self)@),
    {
        self.inc_running();
        self.set_app_running(true);
    }

    /// Records that a started program's process tree ended. Returns whether
    /// that was the last one, in which case the state is Idle again and the
    /// launcher is to take the focus back.
    pub fn on_app_exited(&mut self) -> (reclaim: bool)
        requires
            old(self)@.running_count > 0,
        ensures
            final(self)@ == exited(old(self)@),
            reclaim == (final(self)@.running_count == 0),
    {
        let remaining = self.dec_running();
        if remaining == 0 {
            self.set_app_running(false);
            true
        } else {
            false
        }
    }
}

/// Starting a program and seeing it end leaves the count where it was; the
/// launcher is Idle again exactly when no other program is left.
pub proof fn lemma_launch_then_exit(s: LauncherStateView)
    ensures
        exited(launched(s)).running_count == s.running_count,
        exited(launched(s)).app_running == (s.running_count > 0),
        exited(launched(s)).launcher_hwnd == s.launcher_hwnd,
        exited(launched(s)).maintenance == s.maintenance,
{
}

/// After as many exits as launches from Idle, the launcher is Idle again.
pub proof fn lemma_balanced_runs_end_idle(s: LauncherStateView, n: nat)
    requires
        s.running_count == 0,
    ensures
        ({
            let up = launches(s, n);
            &&& up.running_count == n
            &&& n > 0 ==> up.app_running
            &&& exits(up, n).running_count == 0
            &&& n > 0 ==> !exits(up, n).app_running
        }),
    decreases n,
{
    if n > 0 {
        lemma_balanced_runs_end_idle(s, (n - 1) as nat);
        lemma_exits_count(launches(s, n), n);
    }
}

/// The state after `n` launches.
pub open spec fn launches(s: LauncherStateView, n: nat) -> LauncherStateView
    decreases n,
{
    if n == 0 {
        s
    } else {
        launched(launches(s, (n - 1) as nat))
    }
}

/// The state after `n` exits.
pub open spec fn exits(s: LauncherStateView, n: nat) -> LauncherStateView
    decreases n,
{
    if n == 0 {
        s
    } else {
        exited(exits(s, (n - 1) as nat))
    }
}

proof fn lemma_exits_count(s: LauncherStateView, n: nat)
    requires
        n <= s.running_count,
    ensures
        exits(s, n).running_count == s.running_count - n,
        n == s.running_count && n > 0 ==> !exits(s, n).app_running,
    decreases n,
{
    if n > 0 {
        lemma_exits_count(s, (n - 1) as nat);
    }
}

} // verus!
