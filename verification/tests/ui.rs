use deskstamp::fonts::{font_files, startup_font_files, WatermarkRenderer};
use deskstamp::gui::{
    after_change, badge_label, daemon_wait, image_path_from_input, run_quick_menu,
    should_check_daemon, status_badge, AfterChange, AppWindow, DaemonWait, StatusBadge,
};
use deskstamp::tray::{toggled, tray_icon, tray_icon_name, tray_id, tray_menu, tray_title, TrayAction, TrayMenuEntry};

#[test]
fn quick_menu_opens_settings() {
    assert_eq!(run_quick_menu(), AppWindow::Settings);
}

#[test]
fn badges() {
    assert_eq!(status_badge(true, true), StatusBadge::OverlayActive);
    assert_eq!(status_badge(false, true), StatusBadge::WatermarkHidden);
    assert_eq!(status_badge(false, false), StatusBadge::WatermarkHidden);
    assert_eq!(status_badge(true, false), StatusBadge::DaemonOffline);
    assert_eq!(badge_label(StatusBadge::OverlayActive), "● Overlay Active");
    assert_eq!(badge_label(StatusBadge::WatermarkHidden), "○ Watermark Hidden");
    assert_eq!(badge_label(StatusBadge::DaemonOffline), "✕ Daemon Offline");
}

#[test]
fn daemon_checks_every_sixty_frames() {
    assert!(should_check_daemon(60));
    assert!(should_check_daemon(120));
    assert!(!should_check_daemon(59));
}

#[test]
fn typed_image_paths() {
    assert_eq!(image_path_from_input("  /a b.png \t"), Some("/a b.png".to_string()));
    assert_eq!(image_path_from_input(" \u{3000}\n "), None);
    assert_eq!(image_path_from_input(""), None);
}

#[test]
fn after_changes() {
    assert_eq!(after_change(true), AfterChange::ReloadDaemon);
    assert_eq!(after_change(false), AfterChange::StartDaemon);
}

#[test]
fn waiting_for_a_daemon() {
    assert_eq!(daemon_wait(0, false), DaemonWait::AskAgain);
    assert_eq!(daemon_wait(3, true), DaemonWait::Running);
    assert_eq!(daemon_wait(14, false), DaemonWait::AskAgain);
    assert_eq!(daemon_wait(15, false), DaemonWait::GiveUp);
}

#[test]
fn tray_identity() {
    assert_eq!(tray_id(), "io.github.gabrielbaiano.Deskstamp");
    assert_eq!(tray_icon_name(), "io.github.gabrielbaiano.Deskstamp");
    assert_eq!(tray_title(), "Deskstamp");
    assert!(toggled(false));
    assert!(!toggled(true));
}

#[test]
fn tray_menu_entries() {
    let m = tray_menu(true);
    assert_eq!(m.len(), 5);
    match &m[0] {
        TrayMenuEntry::Check { label, checked, action } => {
            assert_eq!(label, "✓ Watermark Active");
            assert!(*checked);
            assert_eq!(*action, TrayAction::ToggleWatermark);
        }
        _ => panic!("first entry is the toggle"),
    }
    match &tray_menu(false)[0] {
        TrayMenuEntry::Check { label, checked, .. } => {
            assert_eq!(label, "Watermark Inactive");
            assert!(!*checked);
        }
        _ => panic!("first entry is the toggle"),
    }
    assert!(matches!(m[1], TrayMenuEntry::Separator));
    match &m[2] {
        TrayMenuEntry::Standard { label, action } => {
            assert_eq!(label, "Settings...");
            assert_eq!(*action, TrayAction::OpenSettings);
        }
        _ => panic!("settings entry"),
    }
    assert!(matches!(m[3], TrayMenuEntry::Separator));
    match &m[4] {
        TrayMenuEntry::Standard { label, action } => {
            assert_eq!(label, "Quit Deskstamp");
            assert_eq!(*action, TrayAction::Quit);
        }
        _ => panic!("quit entry"),
    }
}

#[test]
fn tray_icon_is_argb() {
    let mut p = tiny_skia::Pixmap::new(1, 1).unwrap();
    p.data_mut().copy_from_slice(&[10, 20, 30, 255]);
    let icon = tray_icon(&p.encode_png().unwrap()).unwrap();
    assert_eq!((icon.width, icon.height), (1, 1));
    assert_eq!(icon.data, vec![255, 10, 20, 30]);
    assert!(tray_icon(&[0, 1, 2]).is_none());
}

#[test]
fn startup_fonts() {
    let f = startup_font_files(Some("/my/font.ttf"));
    assert_eq!(
        f,
        vec![
            "/my/font.ttf",
            "/usr/share/fonts/truetype/liberation/LiberationSans-Bold.ttf",
            "/usr/share/fonts/truetype/liberation/LiberationSans-Regular.ttf",
            "/usr/share/fonts/truetype/dejavu/DejaVuSans-Bold.ttf",
            "/usr/share/fonts/truetype/roboto-slab/RobotoSlab-Bold.ttf",
        ]
    );
    assert_eq!(startup_font_files(None).len(), 4);
}

#[test]
fn family_fonts_ignore_case() {
    assert_eq!(
        font_files(None, "Roboto"),
        vec![
            "/usr/share/fonts/truetype/roboto/unhinted/RobotoTTF/Roboto-Bold.ttf",
            "/usr/share/fonts/truetype/roboto/unhinted/RobotoTTF/Roboto-Regular.ttf",
            "/usr/share/fonts/truetype/liberation/LiberationSans-Bold.ttf",
        ]
    );
    assert_eq!(
        font_files(Some("x.ttf"), "MONOSPACE"),
        vec![
            "x.ttf",
            "/usr/share/fonts/truetype/liberation/LiberationMono-Bold.ttf",
            "/usr/share/fonts/truetype/liberation/LiberationMono-Regular.ttf",
            "/usr/share/fonts/truetype/liberation/LiberationSans-Bold.ttf",
        ]
    );
    assert_eq!(font_files(None, "Comic Sans").len(), 4);
}

#[test]
fn no_usable_font() {
    match WatermarkRenderer::new(vec![None, Some(vec![1, 2, 3])]) {
        Err(e) => assert_eq!(e, "No suitable TTF font found on system"),
        Ok(_) => panic!("garbage is no font"),
    }
}

#[test]
fn family_and_its_lowercase_pick_the_same_files() {
    assert_eq!(font_files(None, "Roboto Slab"), font_files(None, "roboto slab"));
    assert_eq!(font_files(Some("a.ttf"), "Liberation SERIF"), font_files(Some("a.ttf"), "liberation serif"));
}

#[test]
fn unknown_family_picks_liberation_sans() {
    assert_eq!(font_files(None, "Comic Sans"), font_files(None, "Liberation Sans"));
}
