use deskstamp::ipc::{
    accepted_response, clock_tick, overlay_start, react, response_to, status_line,
    status_response, DaemonCommand,
    IpcResponse, NextActive, OverlayStart,
};
use deskstamp::overlay::{surface_buffer, SurfaceBuffer};

#[test]
fn toggle_flips_saves_and_redraws() {
    let r = react(true, DaemonCommand::Toggle);
    assert_eq!(r.active, NextActive::SetTo(false));
    assert!(r.publish_active && r.save_config && r.redraw);
    assert!(!r.reload_config && !r.exit);
}

#[test]
fn toggle_twice_restores() {
    let once = react(false, DaemonCommand::Toggle);
    assert_eq!(once.active, NextActive::SetTo(true));
    let twice = react(true, DaemonCommand::Toggle);
    assert_eq!(twice.active, NextActive::SetTo(false));
}

#[test]
fn reload_reloads_and_redraws() {
    let r = react(true, DaemonCommand::Reload);
    assert!(r.reload_config && r.publish_active && r.redraw);
    assert_eq!(r.active, NextActive::Reloaded);
    assert!(!r.save_config);
}

#[test]
fn quit_only_exits() {
    let r = react(true, DaemonCommand::Quit);
    assert!(r.exit);
    assert!(!r.redraw);
}

#[test]
fn status_does_nothing() {
    let r = react(false, DaemonCommand::Status);
    assert!(!r.reload_config && !r.publish_active && !r.save_config && !r.apply_opacity);
    assert!(!r.redraw && !r.exit);
    assert_eq!(r.active, NextActive::Keep);
}

#[test]
fn set_opacity_redraws() {
    let r = react(true, DaemonCommand::SetOpacity);
    assert!(r.apply_opacity && r.redraw && !r.save_config);
}

#[test]
fn accepted_reply() {
    let r = accepted_response();
    assert!(r.success);
    assert_eq!(r.message, "Command sent to deskstamp daemon");
    assert_eq!(r.active, None);
}

#[test]
fn status_lines() {
    let reply = IpcResponse { success: true, message: "hello".to_string(), active: Some(true) };
    assert_eq!(status_line(Some(reply)), "hello");
    assert_eq!(status_line(None), "Deskstamp daemon is not currently running.");
}

#[test]
fn clock_redraws_only_for_clock_tokens() {
    let d = clock_tick(true, "at {time:%H}", 5);
    assert!(d.redraw);
    assert_eq!(d.next_delay_secs, 5);
    let d = clock_tick(true, "at {date}", 5);
    assert!(d.redraw);
    assert_eq!(d.next_delay_secs, 5);
    let d = clock_tick(true, "on {date:%A}", 3);
    assert!(d.redraw);
    assert_eq!(d.next_delay_secs, 3);
    let d = clock_tick(true, "{user}@{hostname}", 5);
    assert!(!d.redraw);
    assert_eq!(d.next_delay_secs, 2);
    let d = clock_tick(false, "{time}", 5);
    assert!(!d.redraw);
    assert_eq!(d.next_delay_secs, 2);
}

#[test]
fn clock_interval_is_at_least_a_second() {
    let d = clock_tick(true, "{time}", 0);
    assert!(d.redraw);
    assert_eq!(d.next_delay_secs, 1);
}

#[test]
fn overlay_start_modes() {
    assert_eq!(overlay_start(false, true), OverlayStart::HandOff);
    assert_eq!(overlay_start(false, false), OverlayStart::Run { tray: true, stop_after_secs: None });
    assert_eq!(overlay_start(true, true), OverlayStart::Run { tray: false, stop_after_secs: Some(5) });
}

#[test]
fn surface_buffers() {
    assert_eq!(surface_buffer(false, 10, 10), None);
    assert_eq!(surface_buffer(true, 0, 10), None);
    assert_eq!(surface_buffer(true, 10, 0), None);
    assert_eq!(surface_buffer(false, u32::MAX, 10), None);
    assert_eq!(surface_buffer(true, 1920, 1080), Some(SurfaceBuffer { width: 1920, height: 1080, stride: 7680 }));
}

#[test]
fn status_reports_the_watermark_state() {
    let r = status_response(true);
    assert!(r.success);
    assert_eq!(r.active, Some(true));
    assert_eq!(r.message, "Deskstamp daemon is running; the watermark is shown");
    let r = response_to(DaemonCommand::Status, false);
    assert_eq!(r.active, Some(false));
    assert_eq!(r.message, "Deskstamp daemon is running; the watermark is hidden");
}

#[test]
fn other_commands_are_acknowledged() {
    let r = response_to(DaemonCommand::Toggle, true);
    assert!(r.success);
    assert_eq!(r.active, None);
    assert_eq!(r.message, "Command sent to deskstamp daemon");
}
