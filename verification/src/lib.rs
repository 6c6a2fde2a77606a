//! Verified core of the Deskstamp desktop watermark overlay.
pub mod text;
pub mod clock;
pub mod tokens;
pub mod config;
pub mod ipc;
pub mod cli;
pub mod raster;
pub mod tray;
pub mod gui;
pub mod font_file;
pub mod fonts;
pub mod overlay;
