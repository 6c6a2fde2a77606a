use deskstamp::raster::{
    draw_vertical_lines, glyph_paints, line_colors, load_app_icon, premultiplied_from_rgba,
    rgba_to_argb, tile_content, tint_monochrome, GlyphPlacement, LineStyle,
};

fn png_of(width: u32, height: u32, rgba: &[u8]) -> Vec<u8> {
    let mut p = tiny_skia::Pixmap::new(width, height).unwrap();
    p.data_mut().copy_from_slice(rgba);
    p.encode_png().unwrap()
}

#[test]
fn app_icon_decodes() {
    let png = png_of(2, 1, &[10, 20, 30, 255, 0, 0, 0, 0]);
    let img = load_app_icon(&png).unwrap();
    assert_eq!((img.width, img.height), (2, 1));
    assert_eq!(img.data, vec![10, 20, 30, 255, 0, 0, 0, 0]);
}

#[test]
fn app_icon_rejects_garbage() {
    assert!(load_app_icon(&[1, 2, 3, 4]).is_none());
}

#[test]
fn premultiplied_colors() {
    assert_eq!(premultiplied_from_rgba(10, 20, 30, 40), Some([10, 20, 30, 40]));
    assert_eq!(premultiplied_from_rgba(50, 20, 30, 40), None);
}

#[test]
fn tint_keeps_alpha_and_transparency() {
    let mut data = vec![100, 0, 0, 255, 5, 6, 7, 0, 9, 9, 9, 51, 1, 2];
    tint_monochrome(&mut data, [200, 100, 50, 255]);
    assert_eq!(data, vec![200, 100, 50, 255, 5, 6, 7, 0, 40, 20, 10, 51, 1, 2]);
}

#[test]
fn argb_rotation() {
    assert_eq!(rgba_to_argb(&vec![1, 2, 3, 4, 5, 6, 7, 8, 9]), vec![4, 1, 2, 3, 8, 5, 6, 7, 9]);
}

#[test]
fn line_color_pair() {
    let (shadow, core) = line_colors([255, 128, 0, 200], 100);
    assert_eq!(shadow, [0, 0, 0, 50]);
    assert_eq!(core, [100, 50, 0, 100]);
    let (shadow, _) = line_colors([255, 255, 255, 255], 1);
    assert_eq!(shadow, [0, 0, 0, 1]);
}

const C: [u8; 4] = [9, 9, 9, 9];
const S: [u8; 4] = [0, 0, 0, 4];

fn style(step: i32, width: i32, dashed: bool) -> LineStyle {
    LineStyle { step, width, dashed, shadow: S, core: C }
}

fn pixels(data: &[u8]) -> Vec<[u8; 4]> {
    data.chunks(4).map(|c| [c[0], c[1], c[2], c[3]]).collect()
}

#[test]
fn vertical_lines_every_step() {
    let mut data = vec![1u8; 6 * 2 * 4];
    draw_vertical_lines(&mut data, 6, 2, style(3, 1, false));
    let row = vec![C, S, S, C, S, S];
    let mut want = row.clone();
    want.extend(row);
    assert_eq!(pixels(&data), want);
}

#[test]
fn wide_line_at_the_left_edge() {
    let mut data = vec![1u8; 6 * 1 * 4];
    draw_vertical_lines(&mut data, 6, 1, style(100, 2, true));
    let o = [1u8, 1, 1, 1];
    assert_eq!(pixels(&data), vec![C, S, o, o, o, o]);
}

#[test]
fn dashed_lines_skip_gap_rows() {
    let mut data = vec![1u8; 2 * 27 * 4];
    draw_vertical_lines(&mut data, 2, 27, style(100, 1, true));
    let px = pixels(&data);
    let o = [1u8, 1, 1, 1];
    for y in 0..27 {
        let drawn = y % 26 < 16;
        assert_eq!(px[y * 2], if drawn { C } else { o }, "row {}", y);
        assert_eq!(px[y * 2 + 1], if drawn { S } else { o }, "row {}", y);
    }
}

#[test]
fn tile_parts() {
    let c = tile_content(true, "abc", false, "text");
    assert!(c.text && !c.icon);
    let c = tile_content(true, "", false, "image");
    assert!(!c.text && c.icon);
    let c = tile_content(false, "abc", false, "both");
    assert!(!c.text && c.icon);
    let c = tile_content(true, "abc", true, "text");
    assert!(c.text && c.icon);
}

#[test]
fn glyph_core_only() {
    let g = GlyphPlacement { width: 2, height: 1, x: 0, y: 0, tile_width: 4, tile_height: 4 };
    let p = glyph_paints(&vec![255, 20], g, [1, 2, 3, 200], [0, 0, 0, 100], false);
    let got: Vec<(i32, i32, [u8; 4])> = p.iter().map(|q| (q.x, q.y, q.color)).collect();
    assert_eq!(got, vec![(0, 0, [1, 2, 3, 200]), (1, 0, [1, 2, 3, 15])]);
}

#[test]
fn glyph_with_outline() {
    let g = GlyphPlacement { width: 2, height: 1, x: 0, y: 0, tile_width: 4, tile_height: 4 };
    let p = glyph_paints(&vec![255, 20], g, [1, 2, 3, 200], [0, 0, 0, 100], true);
    let got: Vec<(i32, i32, [u8; 4])> = p.iter().map(|q| (q.x, q.y, q.color)).collect();
    assert_eq!(
        got,
        vec![
            (1, 0, [0, 0, 0, 100]),
            (0, 1, [0, 0, 0, 100]),
            (1, 1, [0, 0, 0, 100]),
            (0, 0, [1, 2, 3, 200]),
            (1, 0, [1, 2, 3, 15]),
        ]
    );
}

#[test]
fn glyph_clipped_to_tile() {
    let g = GlyphPlacement { width: 2, height: 2, x: 3, y: -1, tile_width: 4, tile_height: 4 };
    let p = glyph_paints(&vec![1, 1, 1, 1], g, [1, 2, 3, 255], [0, 0, 0, 255], false);
    let got: Vec<(i32, i32)> = p.iter().map(|q| (q.x, q.y)).collect();
    assert_eq!(got, vec![(3, 0)]);
}
