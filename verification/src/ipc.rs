//! The daemon's control protocol: the commands it takes over its socket, how it
//! reacts to each, what it answers, and when its clock redraws the overlay.
use crate::text::{chars_of, find_seq, has_seq, lemma_find_from};
use vstd::prelude::*;

verus! {

/// The daemon's answer to a request.
#[derive(Clone, Debug)]
pub struct IpcResponse {
    pub success: bool,
    pub message: String,
    pub active: Option<bool>,
}

/// A control command, as the daemon acts on it (an opacity change carries its
/// value beside the command).
#[derive(Clone, Copy, Debug, PartialEq, Eq, Structural)]
pub enum DaemonCommand {
    Toggle,
    Reload,
    Status,
    Quit,
    SetOpacity,
}

/// The watermark's state after a command.
#[derive(Clone, Copy, Debug, PartialEq, Eq, Structural)]
pub enum NextActive {
    /// It keeps its state.
    Keep,
    /// It takes the given state.
    SetTo(bool),
    /// It takes the state that the reloaded configuration holds.
    Reloaded,
}

/// The watermark's state after `next`, where it was `active` and a reload gave
/// `reloaded`.
pub open spec fn active_after(active: bool, next: NextActive, reloaded: bool) -> bool {
    match next {
        NextActive::Keep => active,
        NextActive::SetTo(b) => b,
        NextActive::Reloaded => reloaded,
    }
}

/// What the daemon does in answer to a command, in this order: reload the
/// configuration (and the font it names), set the watermark's state as `active`
/// says, publish that state to the tray, save the configuration, apply the new
/// opacity, redraw, stop.
#[derive(Clone, Copy, Debug, PartialEq, Eq, Structural)]
pub struct DaemonReaction {
    pub reload_config: bool,
    pub active: NextActive,
    pub publish_active: bool,
    pub save_config: bool,
    pub apply_opacity: bool,
    pub redraw: bool,
    pub exit: bool,
}

/// The reaction to `cmd` of a daemon whose watermark state is `active`.
pub open spec fn reaction_to(active: bool, cmd: DaemonCommand) -> DaemonReaction {
    match cmd {
        DaemonCommand::Toggle => DaemonReaction {
            reload_config: false,
            active: NextActive::SetTo(!active),
            publish_active: true,
            save_config: true,
            apply_opacity: false,
            redraw: true,
            exit: false,
        },
        DaemonCommand::Reload => DaemonReaction {
            reload_config: true,
            active: NextActive::Reloaded,
            publish_active: true,
            save_config: false,
            apply_opacity: false,
            redraw: true,
            exit: false,
        },
        DaemonCommand::SetOpacity => DaemonReaction {
            reload_config: false,
            active: NextActive::Keep,
            publish_active: false,
            save_config: false,
            apply_opacity: true,
            redraw: true,
            exit: false,
        },
        DaemonCommand::Quit => DaemonReaction {
            reload_config: false,
            active: NextActive::Keep,
            publish_active: false,
            save_config: false,
            apply_opacity: false,
            redraw: false,
            exit: true,
        },
        DaemonCommand::Status => DaemonReaction {
            reload_config: false,
            active: NextActive::Keep,
            publish_active: false,
            save_config: false,
            apply_opacity: false,
            redraw: false,
            exit: false,
        },
    }
}

/// How the daemon reacts to `cmd` when its watermark state is `active`.
pub fn react(active: bool, cmd: DaemonCommand) -> (r: DaemonReaction)
    ensures
        r == reaction_to(active, cmd),
{
    match cmd {
        DaemonCommand::Toggle => DaemonReaction {
            reload_config: false,
            active: NextActive::SetTo(!active),
            publish_active: true,
            save_config: true,
            apply_opacity: false,
            redraw: true,
            exit: false,
        },
        DaemonCommand::Reload => DaemonReaction {
            reload_config: true,
            active: NextActive::Reloaded,
            publish_active: true,
            save_config: false,
            apply_opacity: false,
            redraw: true,
            exit: false,
        },
        DaemonCommand::SetOpacity => DaemonReaction {
            reload_config: false,
            active: NextActive::Keep,
            publish_active: false,
            save_config: false,
            apply_opacity: true,
            redraw: true,
            exit: false,
        },
        DaemonCommand::Quit => DaemonReaction {
            reload_config: false,
            active: NextActive::Keep,
            publish_active: false,
            save_config: false,
            apply_opacity: false,
            redraw: false,
            exit: true,
        },
        DaemonCommand::Status => DaemonReaction {
            reload_config: false,
            active: NextActive::Keep,
            publish_active: false,
            save_config: false,
            apply_opacity: false,
            redraw: false,
            exit: false,
        },
    }
}

/// Toggling twice gives the watermark back the state it had.
pub proof fn lemma_toggle_twice_restores(active: bool, reloaded: bool)
    ensures
        ({
            let once = active_after(active, reaction_to(active, DaemonCommand::Toggle).active, reloaded);
            active_after(once, reaction_to(once, DaemonCommand::Toggle).active, reloaded) == active
        }),
{
}

/// A status request changes nothing and does nothing.
pub proof fn lemma_status_is_inert(active: bool)
    ensures
        reaction_to(active, DaemonCommand::Status) == (DaemonReaction {
            reload_config: false,
            active: NextActive::Keep,
            publish_active: false,
            save_config: false,
            apply_opacity: false,
            redraw: false,
            exit: false,
        }),
{
}

/// Only a quit command stops the daemon; a toggle flips the watermark's state, a
/// reload takes the reloaded configuration's, and no other command changes it.
pub proof fn lemma_only_quit_exits(active: bool, cmd: DaemonCommand, reloaded: bool)
    ensures
        reaction_to(active, cmd).exit == (cmd == DaemonCommand::Quit),
        active_after(active, reaction_to(active, cmd).active, reloaded) == match cmd {
            DaemonCommand::Toggle => !active,
            DaemonCommand::Reload => reloaded,
            _ => active,
        },
{
}

/// The overlay is redrawn only for a command that changes what it shows: a
/// toggle, a reload or a new opacity.
pub proof fn lemma_redraw_only_on_change(active: bool, cmd: DaemonCommand)
    ensures
        reaction_to(active, cmd).redraw == (cmd == DaemonCommand::Toggle || cmd
            == DaemonCommand::Reload || cmd == DaemonCommand::SetOpacity),
{
}

/// The answer the daemon sends for a command it accepts, other than a status request.
pub fn accepted_response() -> (r: IpcResponse)
    ensures
        r.success,
        r.message@ == "Command sent to deskstamp daemon"@,
        r.active is None,
{
    IpcResponse {
        success: true,
        message: String::from_str("Command sent to deskstamp daemon"),
        active: None,
    }
}

/// The answer to a status request: the daemon is running, and whether the
/// watermark is shown.
pub fn status_response(active: bool) -> (r: IpcResponse)
    ensures
        r.success,
        r.active == Some(active),
        r.message@ == if active {
            "Deskstamp daemon is running; the watermark is shown"@
        } else {
            "Deskstamp daemon is running; the watermark is hidden"@
        },
{
    let message = if active {
        String::from_str("Deskstamp daemon is running; the watermark is shown")
    } else {
        String::from_str("Deskstamp daemon is running; the watermark is hidden")
    };
    IpcResponse { success: true, message, active: Some(active) }
}

/// The daemon's answer to `cmd` while the watermark's state is `active`: a status
/// request is told that state, every other command is acknowledged.
pub fn response_to(cmd: DaemonCommand, active: bool) -> (r: IpcResponse)
    ensures
        r.success,
        cmd == DaemonCommand::Status ==> r.active == Some(active) && r.message@ == if active {
            "Deskstamp daemon is running; the watermark is shown"@
        } else {
            "Deskstamp daemon is running; the watermark is hidden"@
        },
        cmd != DaemonCommand::Status ==> r.active is None && r.message@
            == "Command sent to deskstamp daemon"@,
{
    match cmd {
        DaemonCommand::Status => status_response(active),
        _ => accepted_response(),
    }
}

/// What `deskstamp status` prints: the daemon's message, or that no daemon answered.
pub fn status_line(reply: Option<IpcResponse>) -> (s: String)
    ensures
        s@ == match reply {
            Some(r) => r.message@,
            None => "Deskstamp daemon is not currently running."@,
        },
{
    match reply {
        Some(r) => r.message,
        None => String::from_str("Deskstamp daemon is not currently running."),
    }
}

/// What the daemon's clock does at a tick.
#[derive(Clone, Copy, Debug, PartialEq, Eq, Structural)]
pub struct TickDecision {
    pub redraw: bool,
    pub next_delay_secs: u64,
}

/// Whether `text` holds a clock token: `{time` starts both `{time}` and
/// `{time:FORMAT}`, and `{date` both `{date}` and `{date:FORMAT}`.
pub open spec fn has_clock_token(text: Seq<char>) -> bool {
    has_seq(text, "{time"@) || has_seq(text, "{date"@)
}

/// At each tick the overlay is redrawn when the watermark is active and its text
/// shows the time or the date; the next tick comes after the configured interval (at least a
/// second) then, and after two seconds otherwise.
pub fn clock_tick(active: bool, text: &str, update_interval_secs: u64) -> (d: TickDecision)
    ensures
        d.redraw == (active && has_clock_token(text@)),
        d.next_delay_secs == if d.redraw {
            if update_interval_secs >= 1 {
                update_interval_secs
            } else {
                1
            }
        } else {
            2
        },
        d.next_delay_secs >= 1,
{
    let chars = chars_of(text);
    let time_pat = chars_of("{time");
    let date_pat = chars_of("{date");
    let time_found = find_seq(&chars, &time_pat, 0);
    let date_found = find_seq(&chars, &date_pat, 0);
    proof {
        lemma_find_from(chars@, time_pat@, 0);
        lemma_find_from(chars@, date_pat@, 0);
    }
    let has_dynamic_time = time_found.is_some() || date_found.is_some();
    if active && has_dynamic_time {
        let secs = if update_interval_secs >= 1 {
            update_interval_secs
        } else {
            1
        };
        TickDecision { redraw: true, next_delay_secs: secs }
    } else {
        TickDecision { redraw: false, next_delay_secs: 2 }
    }
}

/// How an overlay start proceeds.
#[derive(Clone, Copy, Debug, PartialEq, Eq, Structural)]
pub enum OverlayStart {
    /// A daemon already answers: ask it to reload and stop.
    HandOff,
    /// Run the overlay; with a tray icon for a daemon, and stopping after the given
    /// number of seconds for a test run.
    Run { tray: bool, stop_after_secs: Option<u64> },
}

/// How `deskstamp daemon` (`is_test` false) or `deskstamp test` (`is_test` true)
/// starts, given whether a daemon already answers a status request.
pub fn overlay_start(is_test: bool, daemon_answers: bool) -> (s: OverlayStart)
    ensures
        s == if !is_test && daemon_answers {
            OverlayStart::HandOff
        } else if is_test {
            OverlayStart::Run { tray: false, stop_after_secs: Some(5) }
        } else {
            OverlayStart::Run { tray: true, stop_after_secs: None }
        },
{
    if !is_test && daemon_answers {
        OverlayStart::HandOff
    } else if is_test {
        OverlayStart::Run { tray: false, stop_after_secs: Some(5) }
    } else {
        OverlayStart::Run { tray: true, stop_after_secs: None }
    }
}

} // verus!
