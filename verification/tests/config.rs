use deskstamp::config::{
    default_active, default_color, default_diagonal_color, default_diagonal_dashed,
    default_font_family, default_font_path, default_image_path, default_line_color,
    default_line_dashed, default_mode, default_show_diagonal, default_show_icon,
    default_show_lines, default_show_lines_next_to_text, default_show_text, default_stroke_color,
    default_text, default_update_interval,
};

#[test]
fn readme_defaults() {
    assert_eq!(default_text(), "CONFIDENTIAL • {user}@{hostname} • {time:%H:%M:%S}");
    assert_eq!(default_color(), [255, 255, 255, 255]);
    assert_eq!(default_stroke_color(), [0, 0, 0, 180]);
    assert_eq!(default_font_path(), None);
    assert!(default_active());
    assert_eq!(default_update_interval(), 1);
}

#[test]
fn other_defaults() {
    assert!(default_show_text());
    assert!(default_show_icon());
    assert!(default_show_lines_next_to_text());
    assert!(default_show_lines());
    assert!(default_line_dashed());
    assert_eq!(default_line_color(), [255, 255, 255, 200]);
    assert!(!default_show_diagonal());
    assert!(default_diagonal_dashed());
    assert_eq!(default_diagonal_color(), [255, 255, 255, 180]);
    assert_eq!(default_mode(), "text");
    assert_eq!(default_image_path(), None);
    assert_eq!(default_font_family(), "Liberation Sans");
}
