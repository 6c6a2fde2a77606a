//! Default values of the watermark configuration fields that hold no
//! floating-point number.
use vstd::prelude::*;

verus! {

/// Text is shown by default.
pub fn default_show_text() -> (b: bool)
    ensures
        b,
{
    true
}

/// The icon is shown by default.
pub fn default_show_icon() -> (b: bool)
    ensures
        b,
{
    true
}

/// Lines are drawn beside the text by default.
pub fn default_show_lines_next_to_text() -> (b: bool)
    ensures
        b,
{
    true
}

/// The default watermark text.
pub fn default_text() -> (s: String)
    ensures
        s@ == "CONFIDENTIAL • {user}@{hostname} • {time:%H:%M:%S}"@,
{
    String::from_str("CONFIDENTIAL • {user}@{hostname} • {time:%H:%M:%S}")
}

/// Opaque white text.
pub fn default_color() -> (c: [u8; 4])
    ensures
        c@ == seq![255u8, 255u8, 255u8, 255u8],
{
    [255, 255, 255, 255]
}

/// A translucent black outline.
pub fn default_stroke_color() -> (c: [u8; 4])
    ensures
        c@ == seq![0u8, 0u8, 0u8, 180u8],
{
    [0, 0, 0, 180]
}

/// Vertical lines are drawn by default.
pub fn default_show_lines() -> (b: bool)
    ensures
        b,
{
    true
}

/// Lines are dashed by default.
pub fn default_line_dashed() -> (b: bool)
    ensures
        b,
{
    true
}

/// A mostly opaque white line.
pub fn default_line_color() -> (c: [u8; 4])
    ensures
        c@ == seq![255u8, 255u8, 255u8, 200u8],
{
    [255, 255, 255, 200]
}

/// Diagonal lines are off by default.
pub fn default_show_diagonal() -> (b: bool)
    ensures
        !b,
{
    false
}

/// Diagonal lines are dashed by default.
pub fn default_diagonal_dashed() -> (b: bool)
    ensures
        b,
{
    true
}

/// A translucent white diagonal line.
pub fn default_diagonal_color() -> (c: [u8; 4])
    ensures
        c@ == seq![255u8, 255u8, 255u8, 180u8],
{
    [255, 255, 255, 180]
}

/// The watermark shows text by default.
pub fn default_mode() -> (s: String)
    ensures
        s@ == "text"@,
{
    String::from_str("text")
}

/// No custom image by default.
pub fn default_image_path() -> (p: Option<String>)
    ensures
        p is None,
{
    None
}

/// The default font family.
pub fn default_font_family() -> (s: String)
    ensures
        s@ == "Liberation Sans"@,
{
    String::from_str("Liberation Sans")
}

/// No custom font file by default.
pub fn default_font_path() -> (p: Option<String>)
    ensures
        p is None,
{
    None
}

/// The watermark is active by default.
pub fn default_active() -> (b: bool)
    ensures
        b,
{
    true
}

/// Dynamic tokens are refreshed every second by default.
pub fn default_update_interval() -> (secs: u64)
    ensures
        secs == 1,
{
    1
}

} // verus!
