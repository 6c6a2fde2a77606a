//! Pixel-level work on RGBA images: decoding PNG files, tinting a logo, the
//! byte order the tray expects, and the tile layout of the watermark.
use crate::text::str_is;
use vstd::prelude::*;

verus! {

/// An image of `width` x `height` premultiplied RGBA pixels, row by row.
#[derive(Clone, Debug)]
pub struct RgbaImage {
    pub width: u32,
    pub height: u32,
    pub data: Vec<u8>,
}

/// What tiny-skia's `Pixmap::decode_png` gives for a file: width, height and
/// premultiplied RGBA bytes, or `None` where it rejects the file.
pub uninterp spec fn png_decoding(file: Seq<u8>) -> Option<(u32, u32, Seq<u8>)>;

/// Decodes a PNG file with `tiny_skia::Pixmap::decode_png`. A decoded pixmap has
/// a non-zero width and height and four bytes per pixel (tiny-skia's `IntSize` and
/// `data_len_for_size`).
#[verifier::external_body]
pub(crate) fn decode_png(file: &[u8]) -> (r: Option<RgbaImage>)
    ensures
        match r {
            Some(img) => png_decoding(file@) == Some((img.width, img.height, img.data@)),
            None => png_decoding(file@) is None,
        },
        r matches Some(img) ==> img.width > 0 && img.height > 0 && img.data@.len() == img.width
            * img.height * 4,
{
    match tiny_skia::Pixmap::decode_png(file) {
        Ok(p) => Some(RgbaImage { width: p.width(), height: p.height(), data: p.data().to_vec() }),
        Err(_) => None,
    }
}

/// The application icon decoded from its PNG file, as the window expects it.
pub fn load_app_icon(png: &[u8]) -> (r: Option<RgbaImage>)
    ensures
        match r {
            Some(img) => png_decoding(png@) == Some((img.width, img.height, img.data@)),
            None => png_decoding(png@) is None,
        },
{
    decode_png(png)
}

/// A logo or image tile decoded from a PNG file; `None` where it does not decode.
pub fn decode_image(png: &[u8]) -> (r: Option<RgbaImage>)
    ensures
        match r {
            Some(img) => png_decoding(png@) == Some((img.width, img.height, img.data@))
                && img.width > 0 && img.height > 0 && img.data@.len() == img.width * img.height * 4,
            None => png_decoding(png@) is None,
        },
{
    decode_png(png)
}

/// The pixel at index `p` of an RGBA byte sequence.
pub open spec fn pixel(s: Seq<u8>, p: int) -> (u8, u8, u8, u8) {
    (s[4 * p], s[4 * p + 1], s[4 * p + 2], s[4 * p + 3])
}

/// tiny-skia's `PremultipliedColorU8::from_rgba`: a premultiplied color has no
/// channel above its alpha.
pub open spec fn premultiplied(r: u8, g: u8, b: u8, a: u8) -> Option<[u8; 4]> {
    if r <= a && g <= a && b <= a {
        Some([r, g, b, a])
    } else {
        None
    }
}

/// A premultiplied color from its channels, where they are valid.
pub fn premultiplied_from_rgba(r: u8, g: u8, b: u8, a: u8) -> (c: Option<[u8; 4]>)
    ensures
        c == premultiplied(r, g, b, a),
{
    if r <= a && g <= a && b <= a {
        Some([r, g, b, a])
    } else {
        None
    }
}

/// A color channel scaled by an alpha, rounding down.
pub open spec fn scale_channel(c: u8, a: u8) -> u8 {
    ((c as int * a as int) / 255) as u8
}

/// `scale_channel` never exceeds the alpha.
pub proof fn lemma_scale_channel_bound(c: u8, a: u8)
    ensures
        (c as int * a as int) / 255 <= a,
        scale_channel(c, a) <= a,
{
    assert((c as int * a as int) <= 255 * (a as int)) by (nonlinear_arith)
        requires
            c <= 255,
            a >= 0,
    ;
    assert((c as int * a as int) / 255 <= a) by (nonlinear_arith)
        requires
            (c as int * a as int) <= 255 * (a as int),
            c as int * a as int >= 0,
    ;
}

/// `c` scaled by `a`.
fn scale(c: u8, a: u8) -> (r: u8)
    ensures
        r == scale_channel(c, a),
        r <= a,
{
    proof {
        lemma_scale_channel_bound(c, a);
        assert(c as int * a as int <= 255 * 255) by (nonlinear_arith)
            requires
                c <= 255,
                a <= 255,
        ;
    }
    ((c as u32 * a as u32) / 255) as u8
}

/// The whole pixels of `len` bytes fit in them.
proof fn lemma_whole_pixels(len: nat)
    ensures
        4 * (len / 4) <= len,
        len < 4 * (len / 4) + 4,
{
    assert(4 * (len / 4) <= len && len < 4 * (len / 4) + 4) by (nonlinear_arith);
}

/// A pixel of a monochrome logo: every visible pixel takes the tint's color,
/// premultiplied by the pixel's own alpha; transparent pixels stay.
pub open spec fn tinted(px: (u8, u8, u8, u8), tint: [u8; 4]) -> (u8, u8, u8, u8) {
    if px.3 > 0 {
        (scale_channel(tint[0], px.3), scale_channel(tint[1], px.3), scale_channel(tint[2], px.3), px.3)
    } else {
        px
    }
}

/// Tints the pixels of `data` (RGBA, premultiplied) with the color `tint`; bytes
/// past the last whole pixel stay as they are.
pub fn tint_monochrome(data: &mut [u8], tint: [u8; 4])
    ensures
        final(data)@.len() == old(data)@.len(),
        forall|p: int|
            0 <= p < old(data)@.len() / 4 ==> #[trigger] pixel(final(data)@, p) == tinted(
                pixel(old(data)@, p),
                tint,
            ),
        forall|k: int| 4 * (old(data)@.len() / 4) <= k < old(data)@.len() ==> final(data)@[k] == old(
            data,
        )@[k],
        forall|p: int|
            0 <= p < old(data)@.len() / 4 && old(data)@[4 * p + 3] > 0 ==> {
                let q = #[trigger] pixel(final(data)@, p);
                q.0 <= q.3 && q.1 <= q.3 && q.2 <= q.3
            },
{
    let ghost start = data@;
    let len = data.len();
    let n = len / 4;
    proof {
        lemma_whole_pixels(start.len());
    }
    let mut p: usize = 0;
    while p < n
        invariant
            n == start.len() / 4,
            len == start.len(),
            4 * n <= start.len(),
            p <= n,
            data@.len() == start.len(),
            forall|q: int| 0 <= q < p ==> #[trigger] pixel(data@, q) == tinted(pixel(start, q), tint),
            forall|k: int| 4 * p <= k < start.len() ==> data@[k] == start[k],
        decreases n - p,
    {
        let ghost before = data@;
        let i = 4 * p;
        let a = data[i + 3];
        if a > 0 {
            let r = scale(tint[0], a);
            let g = scale(tint[1], a);
            let b = scale(tint[2], a);
            let c = match premultiplied_from_rgba(r, g, b, a) {
                Some(c) => c,
                None => [0, 0, 0, 0],
            };
            data[i] = c[0];
            data[i + 1] = c[1];
            data[i + 2] = c[2];
            data[i + 3] = c[3];
        }
        assert forall|q: int| 0 <= q < p + 1 implies #[trigger] pixel(data@, q) == tinted(
            pixel(start, q),
            tint,
        ) by {
            if q < p {
                assert(pixel(data@, q) == pixel(before, q));
            }
        }
        p = p + 1;
    }
    proof {
        assert forall|q: int| 0 <= q < n && start[4 * q + 3] > 0 implies {
            let t = #[trigger] pixel(data@, q);
            t.0 <= t.3 && t.1 <= t.3 && t.2 <= t.3
        } by {
            assert(pixel(data@, q) == tinted(pixel(start, q), tint));
            lemma_scale_channel_bound(tint[0], start[4 * q + 3]);
            lemma_scale_channel_bound(tint[1], start[4 * q + 3]);
            lemma_scale_channel_bound(tint[2], start[4 * q + 3]);
        }
    }
}

/// The pixels of `rgba` in the byte order of a tray icon (ARGB: each four-byte
/// pixel rotated right by one); bytes past the last whole pixel stay as they are.
pub fn rgba_to_argb(rgba: &Vec<u8>) -> (argb: Vec<u8>)
    ensures
        argb@.len() == rgba@.len(),
        forall|p: int|
            0 <= p < rgba@.len() / 4 ==> #[trigger] pixel(argb@, p) == (
                pixel(rgba@, p).3,
                pixel(rgba@, p).0,
                pixel(rgba@, p).1,
                pixel(rgba@, p).2,
            ),
        forall|k: int| 4 * (rgba@.len() / 4) <= k < rgba@.len() ==> argb@[k] == rgba@[k],
{
    let mut out: Vec<u8> = Vec::new();
    let len = rgba.len();
    let n = len / 4;
    proof {
        lemma_whole_pixels(rgba@.len());
    }
    let mut p: usize = 0;
    while p < n
        invariant
            n == rgba@.len() / 4,
            len == rgba@.len(),
            4 * n <= rgba@.len(),
            p <= n,
            out@.len() == 4 * p,
            forall|q: int|
                0 <= q < p ==> #[trigger] pixel(out@, q) == (
                    pixel(rgba@, q).3,
                    pixel(rgba@, q).0,
                    pixel(rgba@, q).1,
                    pixel(rgba@, q).2,
                ),
        decreases n - p,
    {
        let i = 4 * p;
        let ghost before = out@;
        out.push(rgba[i + 3]);
        out.push(rgba[i]);
        out.push(rgba[i + 1]);
        out.push(rgba[i + 2]);
        assert forall|q: int| 0 <= q < p implies #[trigger] pixel(out@, q) == pixel(before, q) by {
        }
        p = p + 1;
    }
    let mut k: usize = 4 * n;
    while k < rgba.len()
        invariant
            n == rgba@.len() / 4,
            4 * n <= k <= rgba@.len(),
            out@.len() == k,
            forall|q: int|
                0 <= q < n ==> #[trigger] pixel(out@, q) == (
                    pixel(rgba@, q).3,
                    pixel(rgba@, q).0,
                    pixel(rgba@, q).1,
                    pixel(rgba@, q).2,
                ),
            forall|j: int| 4 * n <= j < k ==> out@[j] == rgba@[j],
        decreases rgba.len() - k,
    {
        let ghost before = out@;
        out.push(rgba[k]);
        assert forall|q: int| 0 <= q < n implies #[trigger] pixel(out@, q) == pixel(before, q) by {
        }
        k = k + 1;
    }
    out
}

/// A color's channels.
pub open spec fn rgba(c: [u8; 4]) -> (u8, u8, u8, u8) {
    (c[0], c[1], c[2], c[3])
}

/// The colors of the vertical lines for a line color and the alpha that the
/// opacity gives it: a black shadow at half that alpha (at least 1) and the line
/// color premultiplied by the alpha; a color that is not a valid premultiplied
/// color becomes transparent.
pub open spec fn line_colors_spec(line_color: [u8; 4], alpha: u8) -> ([u8; 4], [u8; 4]) {
    let half = if alpha / 2 >= 1 { (alpha / 2) as u8 } else { 1u8 };
    let shadow = match premultiplied(0, 0, 0, half) {
        Some(c) => c,
        None => [0u8, 0u8, 0u8, 0u8],
    };
    let core = match premultiplied(
        scale_channel(line_color[0], alpha),
        scale_channel(line_color[1], alpha),
        scale_channel(line_color[2], alpha),
        alpha,
    ) {
        Some(c) => c,
        None => [0u8, 0u8, 0u8, 0u8],
    };
    (shadow, core)
}

/// The shadow and core colors of the vertical lines.
pub fn line_colors(line_color: [u8; 4], alpha: u8) -> (r: ([u8; 4], [u8; 4]))
    ensures
        r == line_colors_spec(line_color, alpha),
        rgba(r.1) == (
            scale_channel(line_color[0], alpha),
            scale_channel(line_color[1], alpha),
            scale_channel(line_color[2], alpha),
            alpha,
        ),
        rgba(r.0) == (0u8, 0u8, 0u8, if alpha / 2 >= 1 { (alpha / 2) as u8 } else { 1u8 }),
{
    let half = if alpha / 2 >= 1 {
        alpha / 2
    } else {
        1
    };
    let shadow = match premultiplied_from_rgba(0, 0, 0, half) {
        Some(c) => c,
        None => [0, 0, 0, 0],
    };
    let core = match premultiplied_from_rgba(
        scale(line_color[0], alpha),
        scale(line_color[1], alpha),
        scale(line_color[2], alpha),
        alpha,
    ) {
        Some(c) => c,
        None => [0, 0, 0, 0],
    };
    (shadow, core)
}

/// How the vertical lines are drawn: one every `step` pixels from the left
/// edge, `width` pixels wide with a one-pixel shadow on each side, dashed (16
/// pixels drawn, 10 skipped) or solid.
#[derive(Clone, Copy, Debug)]
pub struct LineStyle {
    pub step: i32,
    pub width: i32,
    pub dashed: bool,
    pub shadow: [u8; 4],
    pub core: [u8; 4],
}

/// Whether row `y` is drawn: every row of a solid line, the first 16 of every 26
/// rows of a dashed one.
pub open spec fn row_drawn(y: int, dashed: bool) -> bool {
    !dashed || y % 26 < 16
}

/// A pixel at column `x` of a drawn row, after the line at `col` was drawn over
/// it, with the core drawn only up to `drawn` of its pixels: the core covers
/// `col - width/2` up to (not including) `col - width/2 + width`, the shadow the
/// pixel on each side of the core.
pub open spec fn row_stage(
    px: (u8, u8, u8, u8),
    x: int,
    col: int,
    drawn: int,
    style: LineStyle,
) -> (u8, u8, u8, u8) {
    let start = col - style.width / 2;
    if start <= x < start + drawn {
        rgba(style.core)
    } else if x == start - 1 || x == start + style.width {
        rgba(style.shadow)
    } else {
        px
    }
}

/// The pixel at (`x`, `y`) after the line at `col` was drawn over it.
pub open spec fn column_painted(px: (u8, u8, u8, u8), x: int, y: int, col: int, style: LineStyle) -> (
    u8,
    u8,
    u8,
    u8,
) {
    if row_drawn(y, style.dashed) {
        row_stage(px, x, col, style.width as int, style)
    } else {
        px
    }
}

/// The pixel at (`x`, `y`) after the lines at `col`, `col + step`, ... below
/// `end` were drawn over it, in that order.
pub open spec fn lines_painted(
    px: (u8, u8, u8, u8),
    x: int,
    y: int,
    col: int,
    end: int,
    style: LineStyle,
) -> (u8, u8, u8, u8)
    decreases (if end > col {
        end - col
    } else {
        0
    }),
{
    if style.step <= 0 || col >= end {
        px
    } else {
        lines_painted(column_painted(px, x, y, col, style), x, y, col + style.step, end, style)
    }
}

/// Writes color `c` over pixel `i`.
fn put_pixel(data: &mut [u8], i: usize, c: [u8; 4])
    requires
        4 * i + 4 <= old(data)@.len(),
    ensures
        final(data)@.len() == old(data)@.len(),
        pixel(final(data)@, i as int) == rgba(c),
        forall|j: int|
            0 <= j && j != i && 4 * j + 4 <= old(data)@.len() ==> #[trigger] pixel(final(data)@, j)
                == pixel(old(data)@, j),
{
    let n = data.len();
    assert(4 * i + 4 <= n);
    data[4 * i] = c[0];
    data[4 * i + 1] = c[1];
    data[4 * i + 2] = c[2];
    data[4 * i + 3] = c[3];
}

/// The pixel index of (`x`, `y`) in rows of `w` pixels, and back.
proof fn lemma_index_of(w: int, h: int, x: int, y: int)
    requires
        0 <= x < w,
        0 <= y < h,
    ensures
        0 <= y * w + x < w * h,
        (y * w + x) / w == y,
        (y * w + x) % w == x,
{
    assert(0 <= y * w && y * w + x < w * h) by (nonlinear_arith)
        requires
            0 <= x < w,
            0 <= y < h,
    ;
    vstd::arithmetic::div_mod::lemma_fundamental_div_mod_converse(y * w + x, w, y, x);
}

/// A pixel index names one column and row.
proof fn lemma_index_split(w: int, h: int, j: int)
    requires
        0 < w,
        0 <= j < w * h,
    ensures
        j == (j / w) * w + j % w,
        0 <= j % w < w,
        0 <= j / w < h,
{
    let q = j / w;
    let r = j % w;
    vstd::arithmetic::div_mod::lemma_fundamental_div_mod(j, w);
    vstd::arithmetic::div_mod::lemma_mod_pos_bound(j, w);
    vstd::arithmetic::div_mod::lemma_div_pos_is_pos(j, w);
    assert(w * q == q * w) by (nonlinear_arith);
    assert(q < h) by (nonlinear_arith)
        requires
            j == q * w + r,
            0 <= r,
            j < w * h,
            w > 0,
    ;
}

/// Writes color `c` at column `x` of row `y`, where `x` lies inside the image.
fn put_row_pixel(data: &mut [u8], w: usize, h: usize, y: usize, x: i64, c: [u8; 4])
    requires
        old(data)@.len() == 4 * w * h,
        w * h <= i32::MAX,
        0 < w,
        y < h,
        -(i32::MAX as i64) <= x <= i32::MAX,
    ensures
        final(data)@.len() == old(data)@.len(),
        forall|j: int|
            0 <= j < w * h ==> #[trigger] pixel(final(data)@, j) == if j / (w as int) == y && j % (
            w as int) == x {
                rgba(c)
            } else {
                pixel(old(data)@, j)
            },
{
    proof {
        assert(w <= w * h) by (nonlinear_arith)
            requires
                y < h,
                0 < w,
        ;
    }
    if x >= 0 && x < w as i64 {
        let xi = x as usize;
        proof {
            lemma_index_of(w as int, h as int, x as int, y as int);
        }
        let idx = y * w + xi;
        if idx < w * h {
            proof {
                assert(4 * idx + 4 <= 4 * w * h) by (nonlinear_arith)
                    requires
                        idx < w * h,
                ;
            }
            put_pixel(data, idx, c);
            proof {
                assert forall|j: int| 0 <= j < w * h implies #[trigger] pixel(data@, j) == if j / (
                w as int) == y && j % (w as int) == x {
                    rgba(c)
                } else {
                    pixel(old(data)@, j)
                } by {
                    lemma_index_split(w as int, h as int, j);
                    if j != idx {
                        assert(4 * j + 4 <= 4 * w * h) by (nonlinear_arith)
                            requires
                                j < w * h,
                        ;
                    }
                }
            }
        }
    } else {
        proof {
            assert forall|j: int| 0 <= j < w * h implies #[trigger] pixel(data@, j) == if j / (
            w as int) == y && j % (w as int) == x {
                rgba(c)
            } else {
                pixel(old(data)@, j)
            } by {
                lemma_index_split(w as int, h as int, j);
            }
        }
    }
}

/// Draws the line at `col` over row `y`.
fn paint_row(data: &mut [u8], w: usize, h: usize, y: usize, col: i64, style: LineStyle)
    requires
        old(data)@.len() == 4 * w * h,
        w * h <= i32::MAX,
        0 < w,
        y < h,
        0 <= col <= i32::MAX,
        1 <= style.width,
        col + style.width <= i32::MAX,
    ensures
        final(data)@.len() == old(data)@.len(),
        forall|j: int|
            0 <= j < w * h ==> #[trigger] pixel(final(data)@, j) == if j / (w as int) == y {
                row_stage(pixel(old(data)@, j), j % (w as int), col as int, style.width as int, style)
            } else {
                pixel(old(data)@, j)
            },
{
    let ghost base = data@;
    let lw = style.width as i64;
    let start = col - lw / 2;
    put_row_pixel(data, w, h, y, start - 1, style.shadow);
    put_row_pixel(data, w, h, y, start + lw, style.shadow);
    let mut off: i64 = 0;
    while off < lw
        invariant
            data@.len() == base.len(),
            base.len() == 4 * w * h,
            w * h <= i32::MAX,
            0 < w,
            y < h,
            0 <= col <= i32::MAX,
            lw == style.width,
            1 <= lw,
            col + lw <= i32::MAX,
            start == col - lw / 2,
            0 <= off <= lw,
            forall|j: int|
                0 <= j < w * h ==> #[trigger] pixel(data@, j) == if j / (w as int) == y {
                    row_stage(pixel(base, j), j % (w as int), col as int, off as int, style)
                } else {
                    pixel(base, j)
                },
        decreases lw - off,
    {
        put_row_pixel(data, w, h, y, start + off, style.core);
        off = off + 1;
    }
}

/// Draws the vertical lines over an image of `width` x `height` RGBA pixels: one
/// every `style.step` pixels, from the left edge up to 50 pixels past the right
/// edge, each over every drawn row, in order from left to right.
pub fn draw_vertical_lines(data: &mut [u8], width: u32, height: u32, style: LineStyle)
    requires
        old(data)@.len() == 4 * width * height,
        0 < width,
        0 < height,
        width * height <= i32::MAX,
        1 <= style.step,
        1 <= style.width,
        width + 50 + style.step + style.width <= i32::MAX,
    ensures
        final(data)@.len() == old(data)@.len(),
        forall|j: int|
            0 <= j < width * height ==> #[trigger] pixel(final(data)@, j) == lines_painted(
                pixel(old(data)@, j),
                j % (width as int),
                j / (width as int),
                0,
                width + 50,
                style,
            ),
        !style.dashed ==> forall|j: int|
            0 <= j < width * height ==> #[trigger] pixel(final(data)@, j) == lines_painted(
                pixel(old(data)@, j),
                j % (width as int),
                0,
                0,
                width + 50,
                style,
            ),
{
    let ghost base = data@;
    let w = width as usize;
    let h = height as usize;
    let end = width as i64 + 50;
    let step = style.step as i64;
    let mut col: i64 = 0;
    while col < end
        invariant
            data@.len() == base.len(),
            base.len() == 4 * w * h,
            w == width,
            h == height,
            0 < w,
            0 < h,
            w * h <= i32::MAX,
            end == width + 50,
            step == style.step,
            1 <= style.step,
            1 <= style.width,
            width + 50 + style.step + style.width <= i32::MAX,
            0 <= col < end + step,
            forall|j: int|
                0 <= j < w * h ==> lines_painted(
                    #[trigger] pixel(data@, j),
                    j % (w as int),
                    j / (w as int),
                    col as int,
                    end as int,
                    style,
                ) == lines_painted(pixel(base, j), j % (w as int), j / (w as int), 0, end as int, style),
        decreases end + step - col,
    {
        let ghost before = data@;
        let mut y: usize = 0;
        while y < h
            invariant
                data@.len() == base.len(),
                base.len() == 4 * w * h,
                0 < w,
                w * h <= i32::MAX,
                y <= h,
                0 <= col < end,
                end == width + 50,
                1 <= style.step,
                1 <= style.width,
                width + 50 + style.step + style.width <= i32::MAX,
                forall|j: int|
                    0 <= j < w * h ==> #[trigger] pixel(data@, j) == if j / (w as int) < y {
                        column_painted(pixel(before, j), j % (w as int), j / (w as int), col as int, style)
                    } else {
                        pixel(before, j)
                    },
            decreases h - y,
        {
            let ghost row_start = data@;
            if !style.dashed || (y as i64) % 26 < 16 {
                paint_row(data, w, h, y, col, style);
            }
            assert forall|j: int| 0 <= j < w * h implies #[trigger] pixel(data@, j) == if j / (
            w as int) < y + 1 {
                column_painted(pixel(before, j), j % (w as int), j / (w as int), col as int, style)
            } else {
                pixel(before, j)
            } by {
                assert(pixel(row_start, j) == if j / (w as int) < y {
                    column_painted(pixel(before, j), j % (w as int), j / (w as int), col as int, style)
                } else {
                    pixel(before, j)
                });
            }
            y = y + 1;
        }
        assert forall|j: int| 0 <= j < w * h implies lines_painted(
            #[trigger] pixel(data@, j),
            j % (w as int),
            j / (w as int),
            col + step,
            end as int,
            style,
        ) == lines_painted(pixel(base, j), j % (w as int), j / (w as int), 0, end as int, style) by {
            lemma_index_split(w as int, h as int, j);
            assert(pixel(data@, j) == column_painted(
                pixel(before, j),
                j % (w as int),
                j / (w as int),
                col as int,
                style,
            ));
            assert(lines_painted(pixel(before, j), j % (w as int), j / (w as int), col as int, end as int, style)
                == lines_painted(pixel(data@, j), j % (w as int), j / (w as int), col + step, end as int, style));
        }
        col = col + step;
    }
    proof {
        if !style.dashed {
            assert forall|j: int| 0 <= j < width * height implies #[trigger] pixel(data@, j)
                == lines_painted(pixel(base, j), j % (width as int), 0, 0, width + 50, style) by {
                assert(lines_painted(pixel(data@, j), j % (w as int), j / (w as int), col as int, end as int, style) == pixel(data@, j));
                lemma_solid_lines_fill_every_row(pixel(base, j), j % (width as int), j / (width as int), 0, width + 50, style);
            }
        }
    }
}

/// A row in a gap of dashed lines keeps its pixels.
pub proof fn lemma_dash_gap_untouched(
    px: (u8, u8, u8, u8),
    x: int,
    y: int,
    col: int,
    end: int,
    style: LineStyle,
)
    requires
        !row_drawn(y, style.dashed),
    ensures
        lines_painted(px, x, y, col, end, style) == px,
    decreases (if end > col {
        end - col
    } else {
        0
    }),
{
    if style.step > 0 && col < end {
        lemma_dash_gap_untouched(px, x, y, col + style.step, end, style);
    }
}

/// Rows drawn alike look alike after the lines are drawn.
proof fn lemma_rows_alike(
    px: (u8, u8, u8, u8),
    x: int,
    y1: int,
    y2: int,
    col: int,
    end: int,
    style: LineStyle,
)
    requires
        row_drawn(y1, style.dashed) == row_drawn(y2, style.dashed),
    ensures
        lines_painted(px, x, y1, col, end, style) == lines_painted(px, x, y2, col, end, style),
    decreases (if end > col {
        end - col
    } else {
        0
    }),
{
    if style.step > 0 && col < end {
        assert(column_painted(px, x, y1, col, style) == column_painted(px, x, y2, col, style));
        lemma_rows_alike(column_painted(px, x, y1, col, style), x, y1, y2, col + style.step, end, style);
    }
}

/// Solid lines are drawn over every row: each row of the image ends up as the
/// first row does.
pub proof fn lemma_solid_lines_fill_every_row(
    px: (u8, u8, u8, u8),
    x: int,
    y: int,
    col: int,
    end: int,
    style: LineStyle,
)
    requires
        !style.dashed,
    ensures
        lines_painted(px, x, y, col, end, style) == lines_painted(px, x, 0, col, end, style),
{
    lemma_rows_alike(px, x, y, 0, col, end, style);
}

/// Dashed lines repeat every 26 rows: the first 16 rows of each period are drawn
/// as the image's first row, the other 10 keep their pixels.
pub proof fn lemma_dashed_lines_pattern(
    px: (u8, u8, u8, u8),
    x: int,
    y: int,
    col: int,
    end: int,
    style: LineStyle,
)
    requires
        style.dashed,
    ensures
        y % 26 < 16 ==> lines_painted(px, x, y, col, end, style) == lines_painted(
            px,
            x,
            0,
            col,
            end,
            style,
        ),
        y % 26 >= 16 ==> lines_painted(px, x, y, col, end, style) == px,
{
    if y % 26 < 16 {
        lemma_rows_alike(px, x, y, 0, col, end, style);
    } else {
        lemma_dash_gap_untouched(px, x, y, col, end, style);
    }
}

/// On a drawn row, the pixels of the core of the line at `col` take the core
/// color; its two shadow pixels take the shadow color.
pub proof fn lemma_line_core_and_shadow(px: (u8, u8, u8, u8), x: int, y: int, col: int, style: LineStyle)
    requires
        !style.dashed || y % 26 < 16,
    ensures
        col - style.width / 2 <= x < col - style.width / 2 + style.width ==> column_painted(
            px,
            x,
            y,
            col,
            style,
        ) == rgba(style.core),
        (x == col - style.width / 2 - 1 || x == col - style.width / 2 + style.width) && !(col
            - style.width / 2 <= x < col - style.width / 2 + style.width) ==> column_painted(
            px,
            x,
            y,
            col,
            style,
        ) == rgba(style.shadow),
{
}

/// Column `x` lies outside the line at `col` and its shadow.
pub open spec fn clear_of_line(x: int, col: int, style: LineStyle) -> bool {
    x < col - style.width / 2 - 1 || x > col - style.width / 2 + style.width
}

/// A pixel outside every line and its shadows (the lines stand at `col`,
/// `col + step`, ... below `end`) keeps its color.
pub proof fn lemma_far_from_lines_untouched(
    px: (u8, u8, u8, u8),
    x: int,
    y: int,
    col: int,
    end: int,
    style: LineStyle,
)
    requires
        1 <= style.width,
        forall|k: int|
            0 <= k && col + k * style.step < end ==> #[trigger] clear_of_line(
                x,
                col + k * style.step,
                style,
            ),
    ensures
        lines_painted(px, x, y, col, end, style) == px,
    decreases (if end > col {
        end - col
    } else {
        0
    }),
{
    if style.step > 0 && col < end {
        assert(clear_of_line(x, col + 0 * style.step, style));
        assert(column_painted(px, x, y, col, style) == px);
        assert forall|k: int|
            0 <= k && (col + style.step) + k * style.step < end implies #[trigger] clear_of_line(
            x,
            (col + style.step) + k * style.step,
            style,
        ) by {
            assert((col + style.step) + k * style.step == col + (k + 1) * style.step)
                by (nonlinear_arith);
            assert(clear_of_line(x, col + (k + 1) * style.step, style));
        }
        lemma_far_from_lines_untouched(px, x, y, col + style.step, end, style);
    }
}

/// Which parts a watermark tile holds.
#[derive(Clone, Copy, Debug, PartialEq, Eq, Structural)]
pub struct TileContent {
    pub text: bool,
    pub icon: bool,
}

/// The tile shows its text where text is switched on and the resolved text is
/// not empty, and its icon where the icon is switched on or the mode is `image`
/// or `both`.
pub fn tile_content(show_text: bool, resolved_text: &str, show_icon: bool, mode: &str) -> (c:
    TileContent)
    ensures
        c.text == (show_text && resolved_text@.len() > 0),
        c.icon == (show_icon || mode@ == "image"@ || mode@ == "both"@),
{
    let text = show_text && !resolved_text.is_empty();
    let icon = show_icon || str_is(mode, "image") || str_is(mode, "both");
    TileContent { text, icon }
}

/// One pixel of a glyph drawn onto a tile: its position and its color
/// (not premultiplied).
#[derive(Clone, Copy, Debug)]
pub struct PixelPaint {
    pub x: i32,
    pub y: i32,
    pub color: [u8; 4],
}

/// Where a glyph's coverage bitmap (`width` x `height`, row by row) lands on a tile
/// of `tile_width` x `tile_height` pixels: its top-left pixel goes to (`x`, `y`).
#[derive(Clone, Copy, Debug)]
pub struct GlyphPlacement {
    pub width: usize,
    pub height: usize,
    pub x: i32,
    pub y: i32,
    pub tile_width: u32,
    pub tile_height: u32,
}

/// The paint for bitmap entry `k` shifted by (`dx`, `dy`): drawn where its coverage
/// exceeds `threshold` and it lands on the tile, with the color's alpha scaled by
/// the coverage.
pub open spec fn glyph_dot(
    bitmap: Seq<u8>,
    g: GlyphPlacement,
    k: int,
    dx: int,
    dy: int,
    threshold: u8,
    color: [u8; 4],
) -> Seq<PixelPaint> {
    let coverage = bitmap[k];
    let px = g.x + dx + k % (g.width as int);
    let py = g.y + dy + k / (g.width as int);
    if coverage > threshold && 0 <= px < g.tile_width && 0 <= py < g.tile_height {
        seq![
            PixelPaint {
                x: px as i32,
                y: py as i32,
                color: [color[0], color[1], color[2], scale_channel(color[3], coverage)],
            },
        ]
    } else {
        seq![]
    }
}

/// The paints of the first `n` bitmap entries, shifted by (`dx`, `dy`).
pub open spec fn glyph_pass(
    bitmap: Seq<u8>,
    g: GlyphPlacement,
    n: int,
    dx: int,
    dy: int,
    threshold: u8,
    color: [u8; 4],
) -> Seq<PixelPaint>
    decreases n,
{
    if n <= 0 {
        seq![]
    } else {
        glyph_pass(bitmap, g, n - 1, dx, dy, threshold, color) + glyph_dot(
            bitmap,
            g,
            n - 1,
            dx,
            dy,
            threshold,
            color,
        )
    }
}

/// The outline passes among the first `n` of the nine shifts (dy, dx) in
/// {-1, 0, 1}², row by row, the unshifted one left out; only coverage above 30
/// is drawn.
pub open spec fn outline_passes(bitmap: Seq<u8>, g: GlyphPlacement, n: int, color: [u8; 4]) -> Seq<
    PixelPaint,
>
    decreases n,
{
    if n <= 0 {
        seq![]
    } else {
        outline_passes(bitmap, g, n - 1, color) + if n - 1 == 4 {
            seq![]
        } else {
            glyph_pass(
                bitmap,
                g,
                g.width * g.height,
                (n - 1) % 3 - 1,
                (n - 1) / 3 - 1,
                30,
                color,
            )
        }
    }
}

/// The pixels drawn for one glyph, in drawing order: the outline (when `stroke`)
/// in the stroke color, then every covered pixel in the text color.
pub open spec fn glyph_paints_spec(
    bitmap: Seq<u8>,
    g: GlyphPlacement,
    color: [u8; 4],
    stroke_color: [u8; 4],
    stroke: bool,
) -> Seq<PixelPaint> {
    (if stroke {
        outline_passes(bitmap, g, 9, stroke_color)
    } else {
        seq![]
    }) + glyph_pass(bitmap, g, g.width * g.height, 0, 0, 0, color)
}

/// A paint lands on a tile of `g`'s size.
pub open spec fn on_tile(p: PixelPaint, g: GlyphPlacement) -> bool {
    0 <= p.x < g.tile_width && 0 <= p.y < g.tile_height
}

/// Every paint of a pass lands on the tile.
proof fn lemma_pass_on_tile(
    bitmap: Seq<u8>,
    g: GlyphPlacement,
    n: int,
    dx: int,
    dy: int,
    threshold: u8,
    color: [u8; 4],
)
    requires
        g.tile_width <= i32::MAX,
        g.tile_height <= i32::MAX,
    ensures
        forall|i: int|
            0 <= i < glyph_pass(bitmap, g, n, dx, dy, threshold, color).len() ==> on_tile(
                #[trigger] glyph_pass(bitmap, g, n, dx, dy, threshold, color)[i],
                g,
            ),
    decreases n,
{
    if n > 0 {
        lemma_pass_on_tile(bitmap, g, n - 1, dx, dy, threshold, color);
        let a = glyph_pass(bitmap, g, n - 1, dx, dy, threshold, color);
        let b = glyph_dot(bitmap, g, n - 1, dx, dy, threshold, color);
        assert forall|i: int| 0 <= i < (a + b).len() implies on_tile(#[trigger] (a + b)[i], g) by {
            if i >= a.len() {
                assert((a + b)[i] == b[i - a.len()]);
            } else {
                assert((a + b)[i] == a[i]);
            }
        }
    }
}

/// Every outline paint lands on the tile.
proof fn lemma_outline_on_tile(bitmap: Seq<u8>, g: GlyphPlacement, n: int, color: [u8; 4])
    requires
        g.tile_width <= i32::MAX,
        g.tile_height <= i32::MAX,
    ensures
        forall|i: int|
            0 <= i < outline_passes(bitmap, g, n, color).len() ==> on_tile(
                #[trigger] outline_passes(bitmap, g, n, color)[i],
                g,
            ),
    decreases n,
{
    if n > 0 {
        lemma_outline_on_tile(bitmap, g, n - 1, color);
        let a = outline_passes(bitmap, g, n - 1, color);
        let b = if n - 1 == 4 {
            Seq::<PixelPaint>::empty()
        } else {
            glyph_pass(bitmap, g, g.width * g.height, (n - 1) % 3 - 1, (n - 1) / 3 - 1, 30, color)
        };
        if n - 1 != 4 {
            lemma_pass_on_tile(bitmap, g, g.width * g.height, (n - 1) % 3 - 1, (n - 1) / 3 - 1, 30, color);
        }
        assert forall|i: int| 0 <= i < (a + b).len() implies on_tile(#[trigger] (a + b)[i], g) by {
            if i >= a.len() {
                assert((a + b)[i] == b[i - a.len()]);
            } else {
                assert((a + b)[i] == a[i]);
            }
        }
    }
}

/// A list of paints holds paint `p`.
pub open spec fn holds_paint(ps: Seq<PixelPaint>, p: PixelPaint) -> bool {
    exists|i: int| 0 <= i < ps.len() && ps[i] == p
}

/// What a list holds, its extensions on either side hold too.
proof fn lemma_holds_in_concat(a: Seq<PixelPaint>, b: Seq<PixelPaint>, p: PixelPaint)
    ensures
        holds_paint(a, p) ==> holds_paint(a + b, p),
        holds_paint(b, p) ==> holds_paint(a + b, p),
{
    if holds_paint(a, p) {
        let i = choose|i: int| 0 <= i < a.len() && a[i] == p;
        assert((a + b)[i] == a[i]);
    }
    if holds_paint(b, p) {
        let i = choose|i: int| 0 <= i < b.len() && b[i] == p;
        assert((a + b)[a.len() + i] == b[i]);
    }
}

/// A pass over the first `n` entries holds the paint of every entry below `n`
/// that is drawn.
proof fn lemma_pass_holds(
    bitmap: Seq<u8>,
    g: GlyphPlacement,
    n: int,
    dx: int,
    dy: int,
    threshold: u8,
    color: [u8; 4],
    k: int,
)
    requires
        0 <= k < n,
        glyph_dot(bitmap, g, k, dx, dy, threshold, color).len() == 1,
    ensures
        holds_paint(
            glyph_pass(bitmap, g, n, dx, dy, threshold, color),
            glyph_dot(bitmap, g, k, dx, dy, threshold, color)[0],
        ),
    decreases n,
{
    let a = glyph_pass(bitmap, g, n - 1, dx, dy, threshold, color);
    let b = glyph_dot(bitmap, g, n - 1, dx, dy, threshold, color);
    let p = glyph_dot(bitmap, g, k, dx, dy, threshold, color)[0];
    if k == n - 1 {
        assert(b[0] == p);
        assert(holds_paint(b, p));
    } else {
        lemma_pass_holds(bitmap, g, n - 1, dx, dy, threshold, color, k);
    }
    lemma_holds_in_concat(a, b, p);
}

/// The first `n` outline passes hold every paint of pass `s`, for `s` below `n`
/// other than the unshifted one.
proof fn lemma_outline_holds(bitmap: Seq<u8>, g: GlyphPlacement, n: int, color: [u8; 4], s: int, p: PixelPaint)
    requires
        0 <= s < n,
        s != 4,
        holds_paint(glyph_pass(bitmap, g, g.width * g.height, s % 3 - 1, s / 3 - 1, 30, color), p),
    ensures
        holds_paint(outline_passes(bitmap, g, n, color), p),
    decreases n,
{
    let earlier = outline_passes(bitmap, g, n - 1, color);
    let last = if n - 1 == 4 {
        Seq::<PixelPaint>::empty()
    } else {
        glyph_pass(bitmap, g, g.width * g.height, (n - 1) % 3 - 1, (n - 1) / 3 - 1, 30, color)
    };
    if s < n - 1 {
        lemma_outline_holds(bitmap, g, n - 1, color, s, p);
    }
    lemma_holds_in_concat(earlier, last, p);
}

/// With the outline on, every bitmap entry with coverage above 30 draws, for each
/// of the eight one-pixel shifts (`dx`, `dy`), an outline pixel where the shifted
/// position lies on the tile: in the stroke color, its alpha scaled by the coverage.
pub proof fn lemma_outline_surrounds_glyph(
    bitmap: Seq<u8>,
    g: GlyphPlacement,
    color: [u8; 4],
    stroke_color: [u8; 4],
    dx: int,
    dy: int,
    col: int,
    row: int,
)
    requires
        bitmap.len() == g.width * g.height,
        -1 <= dx <= 1,
        -1 <= dy <= 1,
        !(dx == 0 && dy == 0),
        0 <= col < g.width,
        0 <= row < g.height,
        bitmap[row * g.width + col] > 30,
        0 <= g.x + dx + col < g.tile_width,
        0 <= g.y + dy + row < g.tile_height,
        g.tile_width <= i32::MAX,
        g.tile_height <= i32::MAX,
    ensures
        holds_paint(
            glyph_paints_spec(bitmap, g, color, stroke_color, true),
            PixelPaint {
                x: (g.x + dx + col) as i32,
                y: (g.y + dy + row) as i32,
                color: [
                    stroke_color[0],
                    stroke_color[1],
                    stroke_color[2],
                    scale_channel(stroke_color[3], bitmap[row * g.width + col]),
                ],
            },
        ),
{
    let w = g.width as int;
    let k = row * w + col;
    lemma_index_of(w, g.height as int, col, row);
    let s = (dy + 1) * 3 + (dx + 1);
    assert(s % 3 - 1 == dx && s / 3 - 1 == dy && s != 4 && 0 <= s < 9) by {
        if dy == -1 {
            assert(s == dx + 1);
        } else if dy == 0 {
            assert(s == 3 + dx + 1);
        } else {
            assert(s == 6 + dx + 1);
        }
    }
    let dot = glyph_dot(bitmap, g, k, dx, dy, 30, stroke_color);
    assert(dot.len() == 1);
    lemma_pass_holds(bitmap, g, w * g.height, dx, dy, 30, stroke_color, k);
    lemma_outline_holds(bitmap, g, 9, stroke_color, s, dot[0]);
    lemma_holds_in_concat(
        outline_passes(bitmap, g, 9, stroke_color),
        glyph_pass(bitmap, g, w * g.height, 0, 0, 0, color),
        dot[0],
    );
}

/// Every covered bitmap entry whose position lies on the tile is drawn there in
/// the text color, its alpha scaled by the coverage, with or without the outline.
pub proof fn lemma_glyph_covers_its_pixels(
    bitmap: Seq<u8>,
    g: GlyphPlacement,
    color: [u8; 4],
    stroke_color: [u8; 4],
    stroke: bool,
    col: int,
    row: int,
)
    requires
        bitmap.len() == g.width * g.height,
        0 <= col < g.width,
        0 <= row < g.height,
        bitmap[row * g.width + col] > 0,
        0 <= g.x + col < g.tile_width,
        0 <= g.y + row < g.tile_height,
        g.tile_width <= i32::MAX,
        g.tile_height <= i32::MAX,
    ensures
        holds_paint(
            glyph_paints_spec(bitmap, g, color, stroke_color, stroke),
            PixelPaint {
                x: (g.x + col) as i32,
                y: (g.y + row) as i32,
                color: [color[0], color[1], color[2], scale_channel(color[3], bitmap[row * g.width + col])],
            },
        ),
{
    let w = g.width as int;
    let k = row * w + col;
    lemma_index_of(w, g.height as int, col, row);
    let dot = glyph_dot(bitmap, g, k, 0, 0, 0, color);
    assert(dot.len() == 1);
    lemma_pass_holds(bitmap, g, w * g.height, 0, 0, 0, color, k);
    let outline = if stroke {
        outline_passes(bitmap, g, 9, stroke_color)
    } else {
        Seq::<PixelPaint>::empty()
    };
    lemma_holds_in_concat(outline, glyph_pass(bitmap, g, w * g.height, 0, 0, 0, color), dot[0]);
}

/// Appends the paints of every bitmap entry shifted by (`dx`, `dy`).
fn append_glyph_pass(
    out: &mut Vec<PixelPaint>,
    bitmap: &Vec<u8>,
    g: GlyphPlacement,
    dx: i64,
    dy: i64,
    threshold: u8,
    color: [u8; 4],
)
    requires
        bitmap@.len() == g.width * g.height,
        g.width <= i32::MAX,
        g.height <= i32::MAX,
        -1 <= dx <= 1,
        -1 <= dy <= 1,
    ensures
        final(out)@ == old(out)@ + glyph_pass(
            bitmap@,
            g,
            g.width * g.height,
            dx as int,
            dy as int,
            threshold,
            color,
        ),
{
    let ghost start = old(out)@;
    assert(start + glyph_pass(bitmap@, g, 0, dx as int, dy as int, threshold, color) =~= start);
    let blen = bitmap.len();
    let mut row: usize = 0;
    while row < g.height
        invariant
            blen == bitmap@.len(),
            bitmap@.len() == g.width * g.height,
            g.width <= i32::MAX,
            g.height <= i32::MAX,
            -1 <= dx <= 1,
            -1 <= dy <= 1,
            row <= g.height,
            out@ == start + glyph_pass(
                bitmap@,
                g,
                row * g.width,
                dx as int,
                dy as int,
                threshold,
                color,
            ),
        decreases g.height - row,
    {
        let mut col: usize = 0;
        while col < g.width
            invariant
                blen == bitmap@.len(),
                bitmap@.len() == g.width * g.height,
                g.width <= i32::MAX,
                g.height <= i32::MAX,
                -1 <= dx <= 1,
                -1 <= dy <= 1,
                row < g.height,
                col <= g.width,
                out@ == start + glyph_pass(
                    bitmap@,
                    g,
                    row * g.width + col,
                    dx as int,
                    dy as int,
                    threshold,
                    color,
                ),
            decreases g.width - col,
        {
            proof {
                lemma_index_of(g.width as int, g.height as int, col as int, row as int);
                assert((row * g.width + col) * 4 + 4 <= 4 * g.width * g.height) by (nonlinear_arith)
                    requires
                        row * g.width + col < g.width * g.height,
                ;
            }
            let k = row * g.width + col;
            let coverage = bitmap[k];
            let px = g.x as i64 + dx + col as i64;
            let py = g.y as i64 + dy + row as i64;
            let ghost before = out@;
            if coverage > threshold && px >= 0 && px < g.tile_width as i64 && py >= 0 && py
                < g.tile_height as i64 {
                let a = scale(color[3], coverage);
                out.push(
                    PixelPaint { x: px as i32, y: py as i32, color: [color[0], color[1], color[2], a] },
                );
            }
            proof {
                let d = glyph_dot(bitmap@, g, k as int, dx as int, dy as int, threshold, color);
                assert(out@ =~= before + d);
            }
            col = col + 1;
        }
        proof {
            assert(row * g.width + g.width == (row + 1) * g.width) by (nonlinear_arith);
        }
        row = row + 1;
    }
    assert(row * g.width == g.width * g.height) by (nonlinear_arith)
        requires
            row == g.height,
    ;
}

/// The pixels to draw for one glyph, in drawing order: with `stroke`, eight
/// outline passes (the bitmap shifted one pixel in every direction, coverage above
/// 30, in the stroke color), then the glyph itself (every covered pixel, in the
/// text color); each pixel's alpha is the color's alpha scaled by the coverage,
/// and pixels off the tile are left out.
pub fn glyph_paints(
    bitmap: &Vec<u8>,
    g: GlyphPlacement,
    color: [u8; 4],
    stroke_color: [u8; 4],
    stroke: bool,
) -> (paints: Vec<PixelPaint>)
    requires
        bitmap@.len() == g.width * g.height,
        g.width <= i32::MAX,
        g.height <= i32::MAX,
        i32::MIN <= g.x - 1,
        g.x + g.width + 1 <= i32::MAX,
        i32::MIN <= g.y - 1,
        g.y + g.height + 1 <= i32::MAX,
    ensures
        paints@ == glyph_paints_spec(bitmap@, g, color, stroke_color, stroke),
        g.tile_width <= i32::MAX && g.tile_height <= i32::MAX ==> forall|i: int|
            0 <= i < paints@.len() ==> on_tile(#[trigger] paints@[i], g),
{
    let mut out: Vec<PixelPaint> = Vec::new();
    if stroke {
        let mut i: i64 = 0;
        while i < 9
            invariant
                bitmap@.len() == g.width * g.height,
                g.width <= i32::MAX,
                g.height <= i32::MAX,
                0 <= i <= 9,
                out@ == outline_passes(bitmap@, g, i as int, stroke_color),
            decreases 9 - i,
        {
            let ghost before = out@;
            if i != 4 {
                append_glyph_pass(&mut out, bitmap, g, i % 3 - 1, i / 3 - 1, 30, stroke_color);
            }
            proof {
                if i == 4 {
                    assert(out@ =~= before + Seq::<PixelPaint>::empty());
                }
            }
            i = i + 1;
        }
    }
    let ghost outline = out@;
    append_glyph_pass(&mut out, bitmap, g, 0, 0, 0, color);
    proof {
        if !stroke {
            assert(outline =~= Seq::<PixelPaint>::empty());
        }
        if g.tile_width <= i32::MAX && g.tile_height <= i32::MAX {
            lemma_outline_on_tile(bitmap@, g, 9, stroke_color);
            lemma_pass_on_tile(bitmap@, g, g.width * g.height, 0, 0, 0, color);
            let a = if stroke {
                outline_passes(bitmap@, g, 9, stroke_color)
            } else {
                Seq::<PixelPaint>::empty()
            };
            let b = glyph_pass(bitmap@, g, g.width * g.height, 0, 0, 0, color);
            assert forall|i: int| 0 <= i < out@.len() implies on_tile(#[trigger] out@[i], g) by {
                assert(out@ == a + b);
                if i >= a.len() {
                    assert(out@[i] == b[i - a.len()]);
                } else {
                    assert(out@[i] == a[i]);
                }
            }
        }
    }
    out
}

} // verus!
