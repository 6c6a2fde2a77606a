//! Decisions of the settings window: what its status badge shows, when it asks
//! after the daemon, how it reads a typed image path, and how it brings the
//! daemon up after a change.
use crate::text::{chars_of, string_of, trim_chars, trimmed};
use vstd::prelude::*;

verus! {

/// A window the program can open.
#[derive(Clone, Copy, Debug, PartialEq, Eq, Structural)]
pub enum AppWindow {
    Settings,
}

/// The quick menu opens the settings window.
pub fn run_quick_menu() -> (w: AppWindow)
    ensures
        w == AppWindow::Settings,
{
    AppWindow::Settings
}

/// The badge at the top right of the settings window.
#[derive(Clone, Copy, Debug, PartialEq, Eq, Structural)]
pub enum StatusBadge {
    OverlayActive,
    WatermarkHidden,
    DaemonOffline,
}

/// The badge for a watermark switched on or off and a daemon that answers or not.
pub fn status_badge(active: bool, daemon_running: bool) -> (b: StatusBadge)
    ensures
        b == if active && daemon_running {
            StatusBadge::OverlayActive
        } else if !active {
            StatusBadge::WatermarkHidden
        } else {
            StatusBadge::DaemonOffline
        },
{
    if active && daemon_running {
        StatusBadge::OverlayActive
    } else if !active {
        StatusBadge::WatermarkHidden
    } else {
        StatusBadge::DaemonOffline
    }
}

/// The text of a badge.
pub fn badge_label(b: StatusBadge) -> (s: String)
    ensures
        s@ == match b {
            StatusBadge::OverlayActive => "● Overlay Active"@,
            StatusBadge::WatermarkHidden => "○ Watermark Hidden"@,
            StatusBadge::DaemonOffline => "✕ Daemon Offline"@,
        },
{
    match b {
        StatusBadge::OverlayActive => String::from_str("● Overlay Active"),
        StatusBadge::WatermarkHidden => String::from_str("○ Watermark Hidden"),
        StatusBadge::DaemonOffline => String::from_str("✕ Daemon Offline"),
    }
}

/// The window asks whether the daemon runs on every sixtieth frame (frames are
/// counted from 1).
pub fn should_check_daemon(frame: u64) -> (b: bool)
    ensures
        b == (frame % 60 == 0),
{
    frame % 60 == 0
}

/// The image path typed into the settings window: the text without surrounding
/// white space, or no path where nothing else is left.
pub fn image_path_from_input(input: &str) -> (p: Option<String>)
    ensures
        match p {
            None => trimmed(input@).len() == 0,
            Some(s) => trimmed(input@).len() > 0 && s@ == trimmed(input@),
        },
{
    let t = trim_chars(&chars_of(input));
    if t.len() == 0 {
        None
    } else {
        Some(string_of(&t))
    }
}

/// What the settings window does with the daemon after the configuration changed
/// and was saved.
#[derive(Clone, Copy, Debug, PartialEq, Eq, Structural)]
pub enum AfterChange {
    /// Ask the running daemon to reload.
    ReloadDaemon,
    /// Bring a daemon up.
    StartDaemon,
}

/// A running daemon reloads; otherwise one is started.
pub fn after_change(daemon_running: bool) -> (a: AfterChange)
    ensures
        a == if daemon_running {
            AfterChange::ReloadDaemon
        } else {
            AfterChange::StartDaemon
        },
{
    if daemon_running {
        AfterChange::ReloadDaemon
    } else {
        AfterChange::StartDaemon
    }
}

/// How many times the window asks a freshly started daemon whether it answers,
/// 100 ms apart.
pub const DAEMON_POLLS: u32 = 15;

/// The step after the window started a daemon and asked it `polls` times.
#[derive(Clone, Copy, Debug, PartialEq, Eq, Structural)]
pub enum DaemonWait {
    /// The daemon answered: it runs.
    Running,
    /// Wait 100 ms and ask again.
    AskAgain,
    /// Stop waiting: it is not running.
    GiveUp,
}

/// After `polls` questions, the last answered or not: a daemon that answered runs;
/// the window asks at most `DAEMON_POLLS` times.
pub fn daemon_wait(polls: u32, answered: bool) -> (w: DaemonWait)
    ensures
        w == if polls > 0 && answered {
            DaemonWait::Running
        } else if polls < DAEMON_POLLS {
            DaemonWait::AskAgain
        } else {
            DaemonWait::GiveUp
        },
{
    if polls > 0 && answered {
        DaemonWait::Running
    } else if polls < DAEMON_POLLS {
        DaemonWait::AskAgain
    } else {
        DaemonWait::GiveUp
    }
}

} // verus!
