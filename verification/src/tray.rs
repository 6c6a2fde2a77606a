//! The system tray entry: its identity, its menu and its icon.
use crate::raster::{decode_png, pixel, png_decoding, rgba_to_argb};
use vstd::prelude::*;

verus! {

/// The tray item's identifier.
pub fn tray_id() -> (s: String)
    ensures
        s@ == "io.github.gabrielbaiano.Deskstamp"@,
{
    String::from_str("io.github.gabrielbaiano.Deskstamp")
}

/// The tray item's title.
pub fn tray_title() -> (s: String)
    ensures
        s@ == "Deskstamp"@,
{
    String::from_str("Deskstamp")
}

/// The themed icon the tray item asks for.
pub fn tray_icon_name() -> (s: String)
    ensures
        s@ == "io.github.gabrielbaiano.Deskstamp"@,
{
    String::from_str("io.github.gabrielbaiano.Deskstamp")
}

/// The watermark state after the tray icon (or its check item) is activated.
pub fn toggled(active: bool) -> (b: bool)
    ensures
        b == !active,
{
    !active
}

/// What a menu entry does when chosen.
#[derive(Clone, Copy, Debug, PartialEq, Eq, Structural)]
pub enum TrayAction {
    /// Flip the watermark, save the configuration and tell the daemon.
    ToggleWatermark,
    /// Start the settings window.
    OpenSettings,
    /// Stop the daemon and the tray.
    Quit,
}

/// An entry of the tray menu.
#[derive(Clone, Debug)]
pub enum TrayMenuEntry {
    Check { label: String, checked: bool, action: TrayAction },
    Separator,
    Standard { label: String, action: TrayAction },
}

/// The tray menu for a watermark in state `active`: the watermark toggle (checked
/// when active), a separator, the settings entry, a separator, the quit entry.
pub fn tray_menu(active: bool) -> (menu: Vec<TrayMenuEntry>)
    ensures
        menu@.len() == 5,
        menu@[0] matches TrayMenuEntry::Check { label, checked, action } && label@ == (if active {
            "✓ Watermark Active"@
        } else {
            "Watermark Inactive"@
        }) && checked == active && action == TrayAction::ToggleWatermark,
        menu@[1] is Separator,
        menu@[2] matches TrayMenuEntry::Standard { label, action } && label@ == "Settings..."@
            && action == TrayAction::OpenSettings,
        menu@[3] is Separator,
        menu@[4] matches TrayMenuEntry::Standard { label, action } && label@ == "Quit Deskstamp"@
            && action == TrayAction::Quit,
{
    let label = if active {
        String::from_str("✓ Watermark Active")
    } else {
        String::from_str("Watermark Inactive")
    };
    let mut menu: Vec<TrayMenuEntry> = Vec::new();
    menu.push(TrayMenuEntry::Check { label, checked: active, action: TrayAction::ToggleWatermark });
    menu.push(TrayMenuEntry::Separator);
    menu.push(
        TrayMenuEntry::Standard {
            label: String::from_str("Settings..."),
            action: TrayAction::OpenSettings,
        },
    );
    menu.push(TrayMenuEntry::Separator);
    menu.push(
        TrayMenuEntry::Standard { label: String::from_str("Quit Deskstamp"), action: TrayAction::Quit },
    );
    menu
}

/// A tray icon: ARGB pixels, row by row.
#[derive(Clone, Debug)]
pub struct TrayIcon {
    pub width: i32,
    pub height: i32,
    pub data: Vec<u8>,
}

/// The tray icon from its PNG file: the decoded pixels with each pixel's bytes
/// rotated from RGBA to ARGB; `None` where the file does not decode.
pub fn tray_icon(png: &[u8]) -> (icon: Option<TrayIcon>)
    ensures
        match png_decoding(png@) {
            None => icon is None,
            Some((w, h, d)) => icon matches Some(i) && i.width == w as i32 && i.height == h as i32
                && i.data@.len() == d.len() && forall|p: int|
                0 <= p < d.len() / 4 ==> #[trigger] pixel(i.data@, p) == (
                    pixel(d, p).3,
                    pixel(d, p).0,
                    pixel(d, p).1,
                    pixel(d, p).2,
                ),
        },
{
    match decode_png(png) {
        None => None,
        Some(img) => {
            let data = rgba_to_argb(&img.data);
            Some(TrayIcon { width: img.width as i32, height: img.height as i32, data })
        },
    }
}

} // verus!
