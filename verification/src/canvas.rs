//! Software rendering onto a 32-bit BGRA pixel buffer: pixels with alpha
//! blending, rectangles, lines, circles and copies, all clipped.
use vstd::prelude::*;

use crate::color::Color;
use crate::rect::{Rect, lemma_overlap_is_common_part};
use vstd::arithmetic::div_mod::{lemma_fundamental_div_mod, lemma_fundamental_div_mod_converse};

verus! {

/// A drawing surface over a pixel buffer: `width` x `height` pixels, rows
/// `pitch` bytes apart, each pixel stored as blue, green, red, alpha.
pub struct Canvas<'a> {
    pub buffer: &'a mut [u8],
    pub width: u32,
    pub height: u32,
    pub pitch: u32,
    pub clip_rect: Rect,
}

// ---------------------------------------------------------------------
// Pixel model
// ---------------------------------------------------------------------

/// Alpha blending of one channel: `src` over `dst` with opacity `alpha`
/// (out of 255), rounded.
pub open spec fn blend(src: u8, dst: u8, alpha: u8) -> u8 {
    ((src * alpha + dst * (255 - alpha) + 127) / 255) as u8
}

/// The new value of channel `k` (0 blue, 1 green, 2 red, 3 alpha) of a
/// destination pixel holding `dst` when `c` is drawn over it: a transparent
/// colour changes nothing, an opaque one replaces the pixel, anything else
/// is blended; the destination stays opaque.
pub open spec fn blend_channel(dst: u8, k: int, c: Color) -> u8 {
    if c.a == 0 {
        dst
    } else if k == 3 {
        255
    } else if c.a == 255 {
        if k == 0 { c.b } else if k == 1 { c.g } else { c.r }
    } else {
        if k == 0 { blend(c.b, dst, c.a) } else if k == 1 { blend(c.g, dst, c.a) } else { blend(c.r, dst, c.a) }
    }
}

/// Column, row and channel of byte `i` of a buffer with the given pitch.
pub open spec fn px(i: int, pitch: int) -> int {
    (i % pitch) / 4
}

pub open spec fn py(i: int, pitch: int) -> int {
    i / pitch
}

pub open spec fn ch(i: int, pitch: int) -> int {
    (i % pitch) % 4
}

/// `buf` with `c` drawn on every pixel `(x, y)` for which `pred` holds.
pub open spec fn paint_where(buf: Seq<u8>, pitch: int, pred: spec_fn(int, int) -> bool, c: Color) -> Seq<u8> {
    Seq::new(
        buf.len(),
        |i: int|
            if pred(px(i, pitch), py(i, pitch)) {
                blend_channel(buf[i], ch(i, pitch), c)
            } else {
                buf[i]
            },
    )
}

/// `buf` after `put_pixel(x, y, c)` with the clip rectangle `clip`.
pub open spec fn paint_pixel(buf: Seq<u8>, pitch: int, clip: Rect, x: int, y: int, c: Color) -> Seq<u8> {
    if clip.has(x, y) {
        paint_where(buf, pitch, |a: int, b: int| a == x && b == y, c)
    } else {
        buf
    }
}

/// `buf` after drawing `c` at each point of `pts` in turn.
pub open spec fn paint_points(buf: Seq<u8>, pitch: int, clip: Rect, pts: Seq<(int, int)>, c: Color) -> Seq<u8>
    decreases pts.len(),
{
    if pts.len() == 0 {
        buf
    } else {
        paint_points(paint_pixel(buf, pitch, clip, pts[0].0, pts[0].1, c), pitch, clip, pts.drop_first(), c)
    }
}

/// The points visited by the line-drawing loop from `(x, y)` towards
/// `(x2, y2)` with error term `err`, for at most `fuel` points.
pub open spec fn line_steps(x: int, y: int, x2: int, y2: int, err: int, dx: int, dy: int, sx: int, sy: int, fuel: nat) -> Seq<(int, int)>
    decreases fuel,
{
    if fuel == 0 {
        Seq::empty()
    } else if x == x2 && y == y2 {
        seq![(x, y)]
    } else {
        let e2 = 2 * err;
        let err1 = if e2 > -dy { err - dy } else { err };
        let nx = if e2 > -dy { x + sx } else { x };
        let err2 = if e2 < dx { err1 + dx } else { err1 };
        let ny = if e2 < dx { y + sy } else { y };
        seq![(x, y)] + line_steps(nx, ny, x2, y2, err2, dx, dy, sx, sy, (fuel - 1) as nat)
    }
}

/// The error term of the line-drawing loop from `(x, y)` towards
/// `(x2, y2)`, doubled and after each update, stays within `i32` for at
/// most `fuel` points: the loop then computes without overflow.
pub open spec fn line_fits(x: int, y: int, x2: int, y2: int, err: int, dx: int, dy: int, sx: int, sy: int, fuel: nat) -> bool
    decreases fuel,
{
    if fuel == 0 || (x == x2 && y == y2) {
        true
    } else {
        let e2 = 2 * err;
        let err1 = if e2 > -dy { err - dy } else { err };
        let nx = if e2 > -dy { x + sx } else { x };
        let err2 = if e2 < dx { err1 + dx } else { err1 };
        let ny = if e2 < dx { y + sy } else { y };
        &&& i32::MIN <= e2 <= i32::MAX
        &&& i32::MIN <= err1 <= i32::MAX
        &&& i32::MIN <= err2 <= i32::MAX
        &&& line_fits(nx, ny, x2, y2, err2, dx, dy, sx, sy, (fuel - 1) as nat)
    }
}

/// The line from `(x1, y1)` to `(x2, y2)` can be drawn in `i32`
/// arithmetic: both distances are representable and the error term never
/// overflows.
pub open spec fn line_drawable(x1: int, y1: int, x2: int, y2: int) -> bool {
    let dx = abs(x2 - x1);
    let dy = abs(y2 - y1);
    let sx = if x1 < x2 { 1int } else { -1int };
    let sy = if y1 < y2 { 1int } else { -1int };
    &&& dx <= i32::MAX
    &&& dy <= i32::MAX
    &&& line_fits(x1, y1, x2, y2, dx - dy, dx, dy, sx, sy, (dx + dy + 1) as nat)
}

proof fn lemma_line_fits_bounded(x: int, y: int, x2: int, y2: int, err: int, dx: int, dy: int, sx: int, sy: int, fuel: nat)
    requires
        0 <= dx,
        0 <= dy,
        3 * dx + 2 <= i32::MAX,
        3 * dy + 2 <= i32::MAX,
        -3 * dy - 2 <= 2 * err <= 3 * dx + 2,
    ensures
        line_fits(x, y, x2, y2, err, dx, dy, sx, sy, fuel),
    decreases fuel,
{
    if fuel > 0 && !(x == x2 && y == y2) {
        let e2 = 2 * err;
        let err1 = if e2 > -dy { err - dy } else { err };
        let nx = if e2 > -dy { x + sx } else { x };
        let err2 = if e2 < dx { err1 + dx } else { err1 };
        let ny = if e2 < dx { y + sy } else { y };
        lemma_line_fits_bounded(nx, ny, x2, y2, err2, dx, dy, sx, sy, (fuel - 1) as nat);
    }
}

proof fn lemma_line_fits_level(x: int, y: int, x2: int, y2: int, dx: int, sx: int, sy: int, fuel: nat)
    requires
        0 <= dx,
        2 * dx <= i32::MAX,
    ensures
        line_fits(x, y, x2, y2, dx, dx, 0, sx, sy, fuel),
    decreases fuel,
{
    if fuel > 0 && !(x == x2 && y == y2) {
        let nx = if 2 * dx > 0 { x + sx } else { x };
        lemma_line_fits_level(nx, y, x2, y2, dx, sx, sy, (fuel - 1) as nat);
    }
}

proof fn lemma_line_fits_upright(x: int, y: int, x2: int, y2: int, dy: int, sx: int, sy: int, fuel: nat)
    requires
        0 <= dy,
        2 * dy <= i32::MAX + 1,
    ensures
        line_fits(x, y, x2, y2, -dy, 0, dy, sx, sy, fuel),
    decreases fuel,
{
    if fuel > 0 && !(x == x2 && y == y2) {
        let ny = if -2 * dy < 0 { y + sy } else { y };
        lemma_line_fits_upright(x, ny, x2, y2, dy, sx, sy, (fuel - 1) as nat);
    }
}

/// A line whose extents `3 * |dx| + 2` and `3 * |dy| + 2` fit in an `i32`
/// can be drawn.
pub proof fn lemma_short_lines_drawable(x1: int, y1: int, x2: int, y2: int)
    requires
        3 * abs(x2 - x1) + 2 <= i32::MAX,
        3 * abs(y2 - y1) + 2 <= i32::MAX,
    ensures
        line_drawable(x1, y1, x2, y2),
{
    let dx = abs(x2 - x1);
    let dy = abs(y2 - y1);
    lemma_line_fits_bounded(x1, y1, x2, y2, dx - dy, dx, dy, if x1 < x2 { 1int } else { -1int },
        if y1 < y2 { 1int } else { -1int }, (dx + dy + 1) as nat);
}

/// A horizontal line of extent `d` with `2 * d` in `i32`, and a vertical
/// one with `2 * d <= 2^31`, can be drawn.
pub proof fn lemma_straight_lines_drawable(x1: int, y1: int, x2: int, y2: int)
    requires
        y1 == y2 && 2 * abs(x2 - x1) <= i32::MAX || x1 == x2 && 2 * abs(y2 - y1) <= i32::MAX + 1,
    ensures
        line_drawable(x1, y1, x2, y2),
{
    let dx = abs(x2 - x1);
    let dy = abs(y2 - y1);
    let sx = if x1 < x2 { 1int } else { -1int };
    let sy = if y1 < y2 { 1int } else { -1int };
    if y1 == y2 && 2 * dx <= i32::MAX {
        lemma_line_fits_level(x1, y1, x2, y2, dx, sx, sy, (dx + dy + 1) as nat);
        assert(dx - dy == dx);
    } else {
        lemma_line_fits_upright(x1, y1, x2, y2, dy, sx, sy, (dx + dy + 1) as nat);
        assert(dx - dy == -dy);
    }
}

pub open spec fn abs(v: int) -> int {
    if v >= 0 { v } else { -v }
}

/// The pixels of the line from `(x1, y1)` to `(x2, y2)` (both ends
/// included), in drawing order, as Bresenham's algorithm chooses them.
pub open spec fn line_points(x1: int, y1: int, x2: int, y2: int) -> Seq<(int, int)> {
    let dx = abs(x2 - x1);
    let dy = abs(y2 - y1);
    let sx = if x1 < x2 { 1int } else { -1int };
    let sy = if y1 < y2 { 1int } else { -1int };
    line_steps(x1, y1, x2, y2, dx - dy, dx, dy, sx, sy, (dx + dy + 1) as nat)
}

/// The outline of `rect` as `draw_rect` draws it: top edge left to right,
/// right edge downwards, bottom edge right to left, left edge upwards.
pub open spec fn rect_outline(rect: Rect) -> Seq<(int, int)> {
    let x2 = rect.x + rect.width - 1;
    let y2 = rect.y + rect.height - 1;
    line_points(rect.x as int, rect.y as int, x2, rect.y as int)
        + line_points(x2, rect.y as int, x2, y2)
        + line_points(x2, y2, rect.x as int, y2)
        + line_points(rect.x as int, y2, rect.x as int, rect.y as int)
}

/// The eight points symmetric to `(x, y)` about the centre `(xc, yc)`, in
/// the order `draw_circle` draws them.
pub open spec fn octant_points(xc: int, yc: int, x: int, y: int) -> Seq<(int, int)> {
    seq![
        (xc + x, yc + y), (xc - x, yc + y), (xc + x, yc - y), (xc - x, yc - y),
        (xc + y, yc + x), (xc - y, yc + x), (xc + y, yc - x), (xc - y, yc - x),
    ]
}

/// The midpoint circle steps from `(x, y)` with decision value `d`: while
/// `y >= x`, step `x` and, when `d > 0`, step `y` down, then emit the eight
/// symmetric points.
pub open spec fn circle_steps(xc: int, yc: int, x: int, y: int, d: int) -> Seq<(int, int)>
    decreases y - x + 3,
{
    if y < x {
        Seq::empty()
    } else {
        let nx = x + 1;
        let ny = if d > 0 { y - 1 } else { y };
        let nd = if d > 0 { d + 4 * (nx - ny) + 10 } else { d + 4 * nx + 6 };
        octant_points(xc, yc, nx, ny) + circle_steps(xc, yc, nx, ny, nd)
    }
}

/// The points of the circle of radius `r` about `(xc, yc)`, in drawing order.
pub open spec fn circle_points(xc: int, yc: int, r: int) -> Seq<(int, int)> {
    octant_points(xc, yc, 0, r) + circle_steps(xc, yc, 0, r, 3 - 2 * r)
}

/// How far the decision value may run above `4r + 10` once the gap
/// `y - x` between the coordinates is small: it can grow by at most 18 a
/// step only while the gap is below 5.
pub open spec fn circle_slack(gap: int) -> int {
    if gap >= 7 { 0 } else { 7 - gap }
}

/// `buf` with, at every pixel `(x, y)` for which `pred` holds, the colour
/// `colors(x, y)` drawn over it.
pub open spec fn paint_each(buf: Seq<u8>, pitch: int, pred: spec_fn(int, int) -> bool, colors: spec_fn(int, int) -> Color) -> Seq<u8> {
    Seq::new(
        buf.len(),
        |i: int|
            if pred(px(i, pitch), py(i, pitch)) {
                blend_channel(buf[i], ch(i, pitch), colors(px(i, pitch), py(i, pitch)))
            } else {
                buf[i]
            },
    )
}

/// The colour of pixel `(sx, sy)` of a BGRA buffer whose rows are `sp`
/// bytes apart.
pub open spec fn pixel_color(src: Seq<u8>, sp: int, sx: int, sy: int) -> Color {
    let o = sy * sp + 4 * sx;
    Color { r: src[o + 2], g: src[o + 1], b: src[o], a: src[o + 3] }
}

/// The byte of a BGRA source buffer (rows `sp` bytes apart, placed with its
/// top-left pixel at `(x, y)`) that lands on byte `i` of the destination.
pub open spec fn source_index(i: int, pitch: int, sp: int, x: int, y: int) -> int {
    (py(i, pitch) - y) * sp + 4 * (px(i, pitch) - x) + ch(i, pitch)
}

/// `buf` with every byte `i` for which `pred` holds replaced by the source
/// byte that lands on it.
pub open spec fn copy_where(buf: Seq<u8>, pitch: int, pred: spec_fn(int) -> bool, src: Seq<u8>, sp: int, x: int, y: int) -> Seq<u8> {
    Seq::new(buf.len(), |i: int| if pred(i) { src[source_index(i, pitch, sp, x, y)] } else { buf[i] })
}

/// `buf` with the pixels of `area` copied byte for byte from the source
/// placed at `(x, y)`.
pub open spec fn copy_area(buf: Seq<u8>, pitch: int, area: Rect, src: Seq<u8>, sp: int, x: int, y: int) -> Seq<u8> {
    copy_where(buf, pitch, |i: int| area.has(px(i, pitch), py(i, pitch)), src, sp, x, y)
}

/// `buf` after copying a `src_w` x `src_h` image (rows `sp` bytes apart)
/// to `(x, y)` within the clip rectangle: byte for byte, or blending each
/// pixel by its alpha.
pub open spec fn blitted(buf: Seq<u8>, pitch: int, clip: Rect, x: i32, y: i32, src: Seq<u8>, src_w: u32, src_h: u32, sp: int, has_alpha: bool) -> Seq<u8> {
    match (Rect { x, y, width: src_w, height: src_h }).overlap(clip) {
        None => buf,
        Some(r) => if has_alpha {
            paint_each(buf, pitch, |a: int, b: int| r.has(a, b), |a: int, b: int| pixel_color(src, sp, a - x, b - y))
        } else {
            copy_area(buf, pitch, r, src, sp, x as int, y as int)
        },
    }
}

/// Whether pixel `(a, b)` is covered by a glyph bitmap `w` x `h` (row by
/// row, one coverage byte per pixel) whose left edge is at column `left`
/// and whose bottom row lies just above row `base`.
pub open spec fn glyph_covers(bitmap: Seq<u8>, w: int, h: int, left: int, base: int, a: int, b: int) -> bool {
    let col = a - left;
    let row = b - base + h;
    0 <= col < w && 0 <= row < h && bitmap[row * w + col] != 0
}

/// The colour drawn at `(a, b)` for a glyph: `color` with its alpha scaled
/// by the coverage.
pub open spec fn glyph_color(bitmap: Seq<u8>, w: int, h: int, left: int, base: int, color: Color, a: int, b: int) -> Color {
    let cov = bitmap[(b - base + h) * w + (a - left)];
    Color { r: color.r, g: color.g, b: color.b, a: ((color.a * cov) / 255) as u8 }
}

/// Drawing points never changes a byte of a pixel outside the clip
/// rectangle (lines, rectangle outlines, circles and single pixels are all
/// drawn as points).
pub proof fn lemma_points_stay_in_clip(buf: Seq<u8>, pitch: int, clip: Rect, pts: Seq<(int, int)>, c: Color, i: int)
    requires
        0 <= i < buf.len(),
        !clip.has(px(i, pitch), py(i, pitch)),
    ensures
        paint_points(buf, pitch, clip, pts, c).len() == buf.len(),
        paint_points(buf, pitch, clip, pts, c)[i] == buf[i],
    decreases pts.len(),
{
    if pts.len() > 0 {
        let b1 = paint_pixel(buf, pitch, clip, pts[0].0, pts[0].1, c);
        assert(b1.len() == buf.len() && b1[i] == buf[i]);
        lemma_points_stay_in_clip(b1, pitch, clip, pts.drop_first(), c, i);
    }
}

/// Copying an image never changes a byte of a pixel outside the clip
/// rectangle, whether it is copied or blended.
pub proof fn lemma_blit_stays_in_clip(buf: Seq<u8>, pitch: int, clip: Rect, x: i32, y: i32, src: Seq<u8>, src_w: u32, src_h: u32, sp: int, has_alpha: bool, i: int)
    requires
        clip.fits(),
        (Rect { x, y, width: src_w, height: src_h }).fits(),
        clip.width <= i32::MAX && clip.height <= i32::MAX,
        0 <= i < buf.len(),
        !clip.has(px(i, pitch), py(i, pitch)),
    ensures
        blitted(buf, pitch, clip, x, y, src, src_w, src_h, sp, has_alpha).len() == buf.len(),
        blitted(buf, pitch, clip, x, y, src, src_w, src_h, sp, has_alpha)[i] == buf[i],
{
    crate::rect::lemma_overlap_is_common_part(Rect { x, y, width: src_w, height: src_h }, clip, px(i, pitch), py(i, pitch));
}

pub(crate) proof fn lemma_paint_each_step(buf: Seq<u8>, pitch: int, pred: spec_fn(int, int) -> bool, colors: spec_fn(int, int) -> Color, x: int, y: int)
    requires
        !pred(x, y),
    ensures
        paint_where(paint_each(buf, pitch, pred, colors), pitch, |a: int, b: int| a == x && b == y, colors(x, y))
            == paint_each(buf, pitch, |a: int, b: int| pred(a, b) || (a == x && b == y), colors),
{
    assert(paint_where(paint_each(buf, pitch, pred, colors), pitch, |a: int, b: int| a == x && b == y, colors(x, y))
        =~= paint_each(buf, pitch, |a: int, b: int| pred(a, b) || (a == x && b == y), colors));
}

pub(crate) proof fn lemma_paint_each_same(buf: Seq<u8>, pitch: int, p: spec_fn(int, int) -> bool, q: spec_fn(int, int) -> bool, colors: spec_fn(int, int) -> Color)
    requires
        forall|a: int, b: int| #[trigger] p(a, b) == q(a, b),
    ensures
        paint_each(buf, pitch, p, colors) == paint_each(buf, pitch, q, colors),
{
    assert(paint_each(buf, pitch, p, colors) =~= paint_each(buf, pitch, q, colors));
}

proof fn lemma_copy_same(buf: Seq<u8>, pitch: int, p: spec_fn(int) -> bool, q: spec_fn(int) -> bool, src: Seq<u8>, sp: int, x: int, y: int)
    requires
        forall|i: int| 0 <= i < buf.len() ==> #[trigger] p(i) == q(i),
    ensures
        copy_where(buf, pitch, p, src, sp, x, y) == copy_where(buf, pitch, q, src, sp, x, y),
{
    assert(copy_where(buf, pitch, p, src, sp, x, y) =~= copy_where(buf, pitch, q, src, sp, x, y));
}

/// Byte `col` of row `row` lies in that row, at that byte of the row.
proof fn lemma_offset_in_row(pitch: int, row: int, col: int)
    requires
        0 <= col < pitch,
        row >= 0,
    ensures
        py(row * pitch + col, pitch) == row,
        4 * px(row * pitch + col, pitch) + ch(row * pitch + col, pitch) == col,
        0 <= ch(row * pitch + col, pitch) < 4,
{
    lemma_fundamental_div_mod_converse(row * pitch + col, pitch, row, col);
    lemma_fundamental_div_mod(col, 4);
}

/// Painting one more point after a sequence of points.
proof fn lemma_paint_points_push(buf: Seq<u8>, pitch: int, clip: Rect, pts: Seq<(int, int)>, q: (int, int), c: Color)
    ensures
        paint_points(buf, pitch, clip, pts.push(q), c) == paint_pixel(paint_points(buf, pitch, clip, pts, c), pitch, clip, q.0, q.1, c),
    decreases pts.len(),
{
    if pts.len() > 0 {
        let b1 = paint_pixel(buf, pitch, clip, pts[0].0, pts[0].1, c);
        assert(pts.push(q)[0] == pts[0]);
        assert(pts.push(q).drop_first() =~= pts.drop_first().push(q));
        lemma_paint_points_push(b1, pitch, clip, pts.drop_first(), q, c);
    } else {
        let b1 = paint_pixel(buf, pitch, clip, q.0, q.1, c);
        assert(pts.push(q)[0] == q);
        assert(pts.push(q).drop_first() =~= Seq::<(int, int)>::empty());
        assert(paint_points(b1, pitch, clip, Seq::<(int, int)>::empty(), c) == b1);
    }
}

/// Painting two sequences of points one after the other.
pub proof fn lemma_paint_points_concat(buf: Seq<u8>, pitch: int, clip: Rect, a: Seq<(int, int)>, b: Seq<(int, int)>, c: Color)
    ensures
        paint_points(buf, pitch, clip, a + b, c) == paint_points(paint_points(buf, pitch, clip, a, c), pitch, clip, b, c),
    decreases a.len(),
{
    if a.len() > 0 {
        let b1 = paint_pixel(buf, pitch, clip, a[0].0, a[0].1, c);
        assert((a + b).drop_first() =~= a.drop_first() + b);
        lemma_paint_points_concat(b1, pitch, clip, a.drop_first(), b, c);
    } else {
        assert(a + b =~= b);
    }
}

proof fn lemma_index_of_pixel(pitch: int, x: int, y: int, k: int)
    requires
        pitch > 0,
        0 <= k < 4,
        0 <= x,
        4 * x + k < pitch,
        0 <= y,
    ensures
        py(y * pitch + 4 * x + k, pitch) == y,
        px(y * pitch + 4 * x + k, pitch) == x,
        ch(y * pitch + 4 * x + k, pitch) == k,
{
    let i = y * pitch + 4 * x + k;
    lemma_fundamental_div_mod_converse(i, pitch, y, 4 * x + k);
    lemma_fundamental_div_mod_converse(4 * x + k, 4, x, k);
}

proof fn lemma_pixel_of_index(i: int, pitch: int)
    requires
        pitch > 0,
        i >= 0,
    ensures
        i == py(i, pitch) * pitch + 4 * px(i, pitch) + ch(i, pitch),
        0 <= ch(i, pitch) < 4,
        0 <= px(i, pitch),
        4 * px(i, pitch) + ch(i, pitch) < pitch,
        py(i, pitch) >= 0,
{
    lemma_fundamental_div_mod(i, pitch);
    lemma_fundamental_div_mod(i % pitch, 4);
    assert(i / pitch * pitch == pitch * (i / pitch)) by (nonlinear_arith);
    assert(i / pitch >= 0) by (nonlinear_arith)
        requires
            i >= 0,
            pitch > 0,
    ;
}

/// Drawing at one more pixel extends the painted set by that pixel.
proof fn lemma_paint_step(buf: Seq<u8>, pitch: int, pred: spec_fn(int, int) -> bool, x: int, y: int, c: Color)
    requires
        !pred(x, y),
    ensures
        paint_where(paint_where(buf, pitch, pred, c), pitch, |a: int, b: int| a == x && b == y, c)
            == paint_where(buf, pitch, |a: int, b: int| pred(a, b) || (a == x && b == y), c),
{
    assert(paint_where(paint_where(buf, pitch, pred, c), pitch, |a: int, b: int| a == x && b == y, c)
        =~= paint_where(buf, pitch, |a: int, b: int| pred(a, b) || (a == x && b == y), c));
}

proof fn lemma_paint_nothing(buf: Seq<u8>, pitch: int, pred: spec_fn(int, int) -> bool, c: Color)
    requires
        forall|a: int, b: int| !#[trigger] pred(a, b),
    ensures
        paint_where(buf, pitch, pred, c) == buf,
{
    assert(paint_where(buf, pitch, pred, c) =~= buf);
}

proof fn lemma_paint_same(buf: Seq<u8>, pitch: int, p: spec_fn(int, int) -> bool, q: spec_fn(int, int) -> bool, c: Color)
    requires
        forall|a: int, b: int| #[trigger] p(a, b) == q(a, b),
    ensures
        paint_where(buf, pitch, p, c) == paint_where(buf, pitch, q, c),
{
    assert(paint_where(buf, pitch, p, c) =~= paint_where(buf, pitch, q, c));
}

/// An opaque colour replaces the destination channel, as blending with
/// full opacity does.
pub proof fn lemma_opaque_blend_is_copy(src: u8, dst: u8)
    ensures
        blend(src, dst, 255) == src,
{
    assert((src * 255 + dst * 0 + 127) / 255 == src) by (nonlinear_arith)
        requires
            0 <= src <= 255,
    ;
}

/// A transparent colour leaves the buffer unchanged wherever it is drawn.
pub proof fn lemma_transparent_paint_is_noop(buf: Seq<u8>, pitch: int, pred: spec_fn(int, int) -> bool, c: Color)
    requires
        c.a == 0,
    ensures
        paint_where(buf, pitch, pred, c) == buf,
{
    assert(paint_where(buf, pitch, pred, c) =~= buf);
}

// ---------------------------------------------------------------------
// The canvas
// ---------------------------------------------------------------------

/// The clip rectangle lies within the surface.
pub open spec fn clip_inside(clip: Rect, width: int, height: int) -> bool {
    &&& clip.width <= i32::MAX
    &&& clip.height <= i32::MAX
    &&& clip.x >= 0
    &&& clip.y >= 0
    &&& clip.x + clip.width <= width
    &&& clip.y + clip.height <= height
}

impl<'a> Canvas<'a> {
    /// The surface is consistent: rows hold the pixels, the buffer holds
    /// the rows, byte offsets fit in 32 bits, and clipping stays inside.
    pub open spec fn wf(&self) -> bool {
        &&& self.width <= i32::MAX
        &&& self.height <= i32::MAX
        &&& 4 * self.width <= self.pitch
        &&& self.pitch * self.height <= self.buffer@.len()
        &&& self.pitch * self.height <= u32::MAX
        &&& clip_inside(self.clip_rect, self.width as int, self.height as int)
    }

    /// A canvas over `buffer`, clipped to the whole surface.
    pub fn new(buffer: &'a mut [u8], width: u32, height: u32, pitch: u32) -> (c: Canvas<'a>)
        ensures
            c.buffer@ == old(buffer)@,
            c.width == width,
            c.height == height,
            c.pitch == pitch,
            c.clip_rect == (Rect { x: 0, y: 0, width, height }),
    {
        Canvas { buffer, width, height, pitch, clip_rect: Rect::new(0, 0, width, height) }
    }

    /// Clips drawing to `rect` within the surface (to nothing if they do
    /// not overlap).
    pub fn set_clip(&mut self, rect: Rect)
        requires
            old(self).wf(),
            rect.fits(),
        ensures
            final(self).wf(),
            final(self).buffer@ == old(self).buffer@,
            final(self).width == old(self).width,
            final(self).height == old(self).height,
            final(self).pitch == old(self).pitch,
            final(self).clip_rect == match rect.overlap(Rect { x: 0, y: 0, width: old(self).width, height: old(self).height }) {
                Some(r) => r,
                None => Rect { x: 0, y: 0, width: 0, height: 0 },
            },
    {
        let full = Rect::new(0, 0, self.width, self.height);
        self.clip_rect = match rect.intersection(&full) {
            Some(r) => r,
            None => Rect::new(0, 0, 0, 0),
        };
    }

    /// Draws one pixel, if it lies in the clip rectangle: an opaque colour
    /// replaces the pixel, a translucent one is blended over it, a
    /// transparent one changes nothing.
    pub fn put_pixel(&mut self, x: i32, y: i32, color: Color)
        requires
            old(self).wf(),
        ensures
            final(self).buffer@ == paint_pixel(old(self).buffer@, old(self).pitch as int, old(self).clip_rect, x as int, y as int, color),
            final(self).width == old(self).width,
            final(self).height == old(self).height,
            final(self).pitch == old(self).pitch,
            final(self).clip_rect == old(self).clip_rect,
    {
        if !self.clip_rect.contains(x, y) {
            return;
        }
        let ghost old_buf = self.buffer@;
        let ghost p = self.pitch as int;
        proof {
            assert(0 <= y < self.height && 0 <= x < self.width);
            assert(y * p + 4 * x + 3 < p * self.height) by (nonlinear_arith)
                requires
                    0 <= y < self.height,
                    0 <= x,
                    4 * x + 4 <= p,
            ;
        }
        let offset = (y as u32 * self.pitch + x as u32 * 4) as usize;
        if color.a == 255 {
            self.buffer[offset] = color.b;
            self.buffer[offset + 1] = color.g;
            self.buffer[offset + 2] = color.r;
            self.buffer[offset + 3] = 255;
        } else if color.a > 0 {
            let alpha = color.a as u32;
            let inv_alpha = 255 - alpha;
            let ob = self.buffer[offset] as u32;
            let og = self.buffer[offset + 1] as u32;
            let or = self.buffer[offset + 2] as u32;
            assert(color.b * alpha + ob * inv_alpha + 127 <= 255 * 255 + 127) by (nonlinear_arith)
                requires
                    color.b <= 255,
                    ob <= 255,
                    alpha + inv_alpha == 255,
            ;
            assert(color.g * alpha + og * inv_alpha + 127 <= 255 * 255 + 127) by (nonlinear_arith)
                requires
                    color.g <= 255,
                    og <= 255,
                    alpha + inv_alpha == 255,
            ;
            assert(color.r * alpha + or * inv_alpha + 127 <= 255 * 255 + 127) by (nonlinear_arith)
                requires
                    color.r <= 255,
                    or <= 255,
                    alpha + inv_alpha == 255,
            ;
            let b = ((color.b as u32 * alpha + ob * inv_alpha + 127) / 255) as u8;
            let g = ((color.g as u32 * alpha + og * inv_alpha + 127) / 255) as u8;
            let r = ((color.r as u32 * alpha + or * inv_alpha + 127) / 255) as u8;
            self.buffer[offset] = b;
            self.buffer[offset + 1] = g;
            self.buffer[offset + 2] = r;
            self.buffer[offset + 3] = 255;
        }
        proof {
            let target = paint_where(old_buf, p, |a: int, b: int| a == x && b == y, color);
            let off = y * p + 4 * x;
            assert forall|i: int| 0 <= i < old_buf.len() implies self.buffer@[i] == target[i] by {
                lemma_pixel_of_index(i, p);
                if off <= i < off + 4 {
                    lemma_index_of_pixel(p, x as int, y as int, i - off);
                } else {
                    if px(i, p) == x && py(i, p) == y {
                        assert(i == off + ch(i, p));
                    }
                }
            }
            assert(self.buffer@ =~= target);
        }
    }

    /// Copies a `src_w` x `src_h` BGRA image, rows `src_pitch` bytes apart,
    /// to `(x, y)`, clipped: byte for byte, or, with `has_alpha`, blending
    /// each pixel by its alpha.
    #[verifier::rlimit(80)]
    pub fn blit(&mut self, x: i32, y: i32, src_buffer: &[u8], src_w: u32, src_h: u32, src_pitch: u32, has_alpha: bool)
        requires
            old(self).wf(),
            (Rect { x, y, width: src_w, height: src_h }).fits(),
            4 * src_w <= src_pitch,
            src_pitch * src_h <= src_buffer@.len(),
            src_pitch * src_h <= u32::MAX,
        ensures
            final(self).wf(),
            final(self).width == old(self).width,
            final(self).height == old(self).height,
            final(self).pitch == old(self).pitch,
            final(self).clip_rect == old(self).clip_rect,
            final(self).buffer@ == blitted(old(self).buffer@, old(self).pitch as int, old(self).clip_rect, x, y,
                src_buffer@, src_w, src_h, src_pitch as int, has_alpha),
    {
        let dest_rect = Rect::new(x, y, src_w, src_h);
        let clip = self.clip_rect;
        let r = match dest_rect.intersection(&clip) {
            Some(r) => r,
            None => {
                return;
            },
        };
        let ghost b0 = self.buffer@;
        let ghost p = self.pitch as int;
        let ghost sp = src_pitch as int;
        let ghost src = src_buffer@;
        let ghost colors = |a: int, b: int| pixel_color(src, sp, a - x, b - y);
        proof {
            lemma_overlap_is_common_part(dest_rect, clip, 0, 0);
            assert(r.x >= clip.x && r.y >= clip.y && r.x + r.width <= clip.x + clip.width && r.y + r.height <= clip.y + clip.height);
            assert(r.x >= x && r.y >= y && r.x + r.width <= x + src_w && r.y + r.height <= y + src_h);
            assert(p >= 4);
            assert(src_pitch >= 4);
            assert(src_h < 0x4000_0000) by (nonlinear_arith)
                requires
                    src_pitch >= 4,
                    src_pitch * src_h <= u32::MAX,
            ;
            assert(copy_where(b0, p, |i: int| r.has(px(i, p), py(i, p)) && py(i, p) < r.y, src, sp, x as int, y as int) =~= b0);
            assert(paint_each(b0, p, |a: int, b: int| r.has(a, b) && b < r.y, colors) =~= b0);
        }
        let start_x = r.x - x;
        let start_y = r.y - y;
        let h = r.height as i32;
        let mut row: i32 = 0;
        while row < h
            invariant
                self.wf(),
                self.clip_rect == clip,
                self.pitch as int == p,
                old(self).width == self.width && old(self).height == self.height,
                p >= 4,
                src == src_buffer@,
                sp == src_pitch,
                colors == (|a: int, b: int| pixel_color(src, sp, a - x, b - y)),
                clip_inside(r, self.width as int, self.height as int),
                r.x >= clip.x && r.y >= clip.y && r.x + r.width <= clip.x + clip.width && r.y + r.height <= clip.y + clip.height,
                r.x >= x && r.y >= y && r.x + r.width <= x + src_w && r.y + r.height <= y + src_h,
                start_x == r.x - x,
                start_y == r.y - y,
                h == r.height,
                4 * src_w <= src_pitch,
                src_pitch * src_h <= src_buffer@.len(),
                src_pitch * src_h <= u32::MAX,
                src_h < 0x4000_0000,
                0 <= row <= h,
                has_alpha ==> self.buffer@ == paint_each(b0, p, |a: int, b: int| r.has(a, b) && b < r.y + row, colors),
                !has_alpha ==> self.buffer@ == copy_where(b0, p, |i: int| r.has(px(i, p), py(i, p)) && py(i, p) < r.y + row, src, sp, x as int, y as int),
            decreases h - row,
        {
            let src_row = start_y + row;
            let dest_row = r.y + row;
            proof {
                assert(src_row * sp + sp <= sp * src_h) by (nonlinear_arith)
                    requires
                        0 <= src_row < src_h,
                        sp >= 0,
                ;
                assert(dest_row * p + p <= p * self.height) by (nonlinear_arith)
                    requires
                        0 <= dest_row < self.height,
                        p >= 0,
                ;
            }
            let src_offset = (src_row as u32 * src_pitch + start_x as u32 * 4) as usize;
            let dest_offset = (dest_row as u32 * self.pitch + r.x as u32 * 4) as usize;
            if !has_alpha {
                let copy_len = (r.width * 4) as usize;
                let mut k: usize = 0;
                while k < copy_len
                    invariant
                        self.wf(),
                        self.clip_rect == clip,
                        self.pitch as int == p,
                        old(self).width == self.width && old(self).height == self.height,
                        p >= 4,
                        src == src_buffer@,
                        sp == src_pitch,
                        r.x >= clip.x && r.y >= clip.y && r.x + r.width <= clip.x + clip.width && r.y + r.height <= clip.y + clip.height,
                        r.x >= x && r.y >= y && r.x + r.width <= x + src_w,
                        4 * src_w <= src_pitch,
                        src_row * sp + sp <= sp * src_h,
                        src_pitch * src_h <= src_buffer@.len(),
                        src_pitch * src_h <= u32::MAX,
                        dest_row * p + p <= p * self.height,
                        src_offset == src_row * sp + 4 * (r.x - x),
                        dest_offset == dest_row * p + 4 * r.x,
                        src_row == dest_row - y,
                        r.y <= dest_row < r.y + r.height,
                        copy_len == 4 * r.width,
                        0 <= k <= copy_len,
                        self.buffer@ == copy_where(b0, p, |i: int| r.has(px(i, p), py(i, p)) && (py(i, p) < dest_row
                            || (py(i, p) == dest_row && 4 * (px(i, p) - r.x) + ch(i, p) < k)), src, sp, x as int, y as int),
                    decreases copy_len - k,
                {
                    let ghost before = self.buffer@;
                    let ghost i0 = dest_offset + k;
                    assert(4 * (r.x - x) + k < sp);
                    assert(src_offset + k < sp * src_h);
                    let v = src_buffer[src_offset + k];
                    self.buffer[dest_offset + k] = v;
                    proof {
                        lemma_offset_in_row(p, dest_row as int, 4 * r.x + k);
                        assert(i0 == dest_row * p + (4 * r.x + k));
                        assert(source_index(i0, p, sp, x as int, y as int) == src_offset + k);
                        let pk = |i: int| r.has(px(i, p), py(i, p)) && (py(i, p) < dest_row
                            || (py(i, p) == dest_row && 4 * (px(i, p) - r.x) + ch(i, p) < k));
                        let pk1 = |i: int| r.has(px(i, p), py(i, p)) && (py(i, p) < dest_row
                            || (py(i, p) == dest_row && 4 * (px(i, p) - r.x) + ch(i, p) < k + 1));
                        assert(pk1(i0));
                        assert forall|j: int| 0 <= j < b0.len() && j != i0 implies #[trigger] pk(j) == pk1(j) by {
                            lemma_pixel_of_index(j, p);
                        }
                        assert(self.buffer@ =~= copy_where(b0, p, pk1, src, sp, x as int, y as int));
                    }
                    k = k + 1;
                }
                proof {
                    let pk = |i: int| r.has(px(i, p), py(i, p)) && (py(i, p) < dest_row
                        || (py(i, p) == dest_row && 4 * (px(i, p) - r.x) + ch(i, p) < k));
                    let pr = |i: int| r.has(px(i, p), py(i, p)) && py(i, p) < r.y + row + 1;
                    assert forall|j: int| 0 <= j < b0.len() implies #[trigger] pk(j) == pr(j) by {
                        lemma_pixel_of_index(j, p);
                    }
                    lemma_copy_same(b0, p, pk, pr, src, sp, x as int, y as int);
                }
            } else {
                let w = r.width as i32;
                let mut col: i32 = 0;
                proof {
                    lemma_paint_each_same(b0, p, |a: int, b: int| r.has(a, b) && b < r.y + row,
                        |a: int, b: int| r.has(a, b) && (b < dest_row || (b == dest_row && a < r.x)), colors);
                }
                while col < w
                    invariant
                        self.wf(),
                        self.clip_rect == clip,
                        self.pitch as int == p,
                        old(self).width == self.width && old(self).height == self.height,
                        src == src_buffer@,
                        sp == src_pitch,
                        colors == (|a: int, b: int| pixel_color(src, sp, a - x, b - y)),
                        r.x >= clip.x && r.y >= clip.y && r.x + r.width <= clip.x + clip.width && r.y + r.height <= clip.y + clip.height,
                        r.x >= x && r.y >= y && r.x + r.width <= x + src_w,
                        4 * src_w <= src_pitch,
                        src_row * sp + sp <= sp * src_h,
                        src_pitch * src_h <= src_buffer@.len(),
                        src_pitch * src_h <= u32::MAX,
                        src_offset == src_row * sp + 4 * (r.x - x),
                        src_row == dest_row - y,
                        r.y <= dest_row < r.y + r.height,
                        w == r.width,
                        0 <= col <= w,
                        self.buffer@ == paint_each(b0, p, |a: int, b: int| r.has(a, b) && (b < dest_row || (b == dest_row && a < r.x + col)), colors),
                    decreases w - col,
                {
                    assert(4 * (r.x - x) + 4 * col + 4 <= sp);
                    assert(src_offset + 4 * col + 4 <= sp * src_h);
                    let s_off = src_offset + (col as usize * 4);
                    let b = src_buffer[s_off];
                    let g = src_buffer[s_off + 1];
                    let rr = src_buffer[s_off + 2];
                    let a = src_buffer[s_off + 3];
                    let c = Color::rgba(rr, g, b, a);
                    proof {
                        assert(c == colors(r.x + col, dest_row as int));
                        assert(clip.has(r.x + col, dest_row as int));
                        lemma_paint_each_step(b0, p, |a: int, b: int| r.has(a, b) && (b < dest_row || (b == dest_row && a < r.x + col)),
                            colors, r.x + col, dest_row as int);
                        lemma_paint_each_same(b0, p,
                            |a: int, b: int| (r.has(a, b) && (b < dest_row || (b == dest_row && a < r.x + col))) || (a == r.x + col && b == dest_row),
                            |a: int, b: int| r.has(a, b) && (b < dest_row || (b == dest_row && a < r.x + col + 1)), colors);
                    }
                    self.put_pixel(r.x + col, dest_row, c);
                    col = col + 1;
                }
                proof {
                    lemma_paint_each_same(b0, p, |a: int, b: int| r.has(a, b) && (b < dest_row || (b == dest_row && a < r.x + col)),
                        |a: int, b: int| r.has(a, b) && b < r.y + row + 1, colors);
                }
            }
            row = row + 1;
        }
        proof {
            lemma_paint_each_same(b0, p, |a: int, b: int| r.has(a, b) && b < r.y + row, |a: int, b: int| r.has(a, b), colors);
            lemma_copy_same(b0, p, |i: int| r.has(px(i, p), py(i, p)) && py(i, p) < r.y + row,
                |i: int| r.has(px(i, p), py(i, p)), src, sp, x as int, y as int);
        }
    }

    /// Fills the part of `rect` inside the clip rectangle with `color`.
    pub fn fill_rect(&mut self, rect: Rect, color: Color)
        requires
            old(self).wf(),
            rect.fits(),
        ensures
            final(self).width == old(self).width,
            final(self).height == old(self).height,
            final(self).pitch == old(self).pitch,
            final(self).clip_rect == old(self).clip_rect,
            final(self).buffer@ == match rect.overlap(old(self).clip_rect) {
                Some(r) => paint_where(old(self).buffer@, old(self).pitch as int, |a: int, b: int| r.has(a, b), color),
                None => old(self).buffer@,
            },
    {
        let clip = self.clip_rect;
        let r = match rect.intersection(&clip) {
            Some(r) => r,
            None => {
                return;
            },
        };
        let ghost old_buf = self.buffer@;
        let ghost p = self.pitch as int;
        let y_end = r.y + r.height as i32;
        let x_end = r.x + r.width as i32;
        let mut y = r.y;
        proof {
            lemma_paint_nothing(old_buf, p, |a: int, b: int| r.has(a, b) && b < r.y, color);
        }
        while y < y_end
            invariant
                self.wf(),
                self.clip_rect == clip,
                self.pitch as int == p,
                old(self).width == self.width && old(self).height == self.height,
                clip_inside(r, self.width as int, self.height as int),
                r.x >= clip.x && r.y >= clip.y && r.x + r.width <= clip.x + clip.width && r.y + r.height <= clip.y + clip.height,
                y_end == r.y + r.height,
                x_end == r.x + r.width,
                r.y <= y <= y_end,
                self.buffer@ == paint_where(old_buf, p, |a: int, b: int| r.has(a, b) && b < y, color),
            decreases y_end - y,
        {
            let mut x = r.x;
            proof {
                lemma_paint_same(old_buf, p, |a: int, b: int| r.has(a, b) && b < y,
                    |a: int, b: int| r.has(a, b) && (b < y || (b == y && a < r.x)), color);
            }
            while x < x_end
                invariant
                    self.wf(),
                    self.clip_rect == clip,
                    self.pitch as int == p,
                    old(self).width == self.width && old(self).height == self.height,
                    r.x >= clip.x && r.y >= clip.y && r.x + r.width <= clip.x + clip.width && r.y + r.height <= clip.y + clip.height,
                    y_end == r.y + r.height,
                    x_end == r.x + r.width,
                    r.y <= y < y_end,
                    r.x <= x <= x_end,
                    self.buffer@ == paint_where(old_buf, p, |a: int, b: int| r.has(a, b) && (b < y || (b == y && a < x)), color),
                decreases x_end - x,
            {
                let ghost before = self.buffer@;
                self.put_pixel(x, y, color);
                proof {
                    assert(clip.has(x as int, y as int));
                    lemma_paint_step(old_buf, p, |a: int, b: int| r.has(a, b) && (b < y || (b == y && a < x)), x as int, y as int, color);
                    lemma_paint_same(old_buf, p,
                        |a: int, b: int| (r.has(a, b) && (b < y || (b == y && a < x))) || (a == x && b == y),
                        |a: int, b: int| r.has(a, b) && (b < y || (b == y && a < x + 1)), color);
                }
                x = x + 1;
            }
            proof {
                lemma_paint_same(old_buf, p, |a: int, b: int| r.has(a, b) && (b < y || (b == y && a < x)),
                    |a: int, b: int| r.has(a, b) && b < y + 1, color);
            }
            y = y + 1;
        }
        proof {
            lemma_paint_same(old_buf, p, |a: int, b: int| r.has(a, b) && b < y, |a: int, b: int| r.has(a, b), color);
        }
    }

    /// Draws the line from `(x1, y1)` to `(x2, y2)`, both ends included.
    #[verifier::rlimit(60)]
    pub fn draw_line(&mut self, x1: i32, y1: i32, x2: i32, y2: i32, color: Color)
        requires
            old(self).wf(),
            line_drawable(x1 as int, y1 as int, x2 as int, y2 as int),
        ensures
            final(self).wf(),
            final(self).width == old(self).width,
            final(self).height == old(self).height,
            final(self).pitch == old(self).pitch,
            final(self).clip_rect == old(self).clip_rect,
            final(self).buffer@ == paint_points(old(self).buffer@, old(self).pitch as int, old(self).clip_rect,
                line_points(x1 as int, y1 as int, x2 as int, y2 as int), color),
    {
        let dx: i32 = if x2 >= x1 { x2 - x1 } else { x1 - x2 };
        let dy: i32 = if y2 >= y1 { y2 - y1 } else { y1 - y2 };
        let sx: i32 = if x1 < x2 { 1 } else { -1 };
        let sy: i32 = if y1 < y2 { 1 } else { -1 };
        let mut err = dx - dy;
        let mut x = x1;
        let mut y = y1;
        let ghost old_buf = self.buffer@;
        let ghost p = self.pitch as int;
        let ghost clip = self.clip_rect;
        let ghost all = line_points(x1 as int, y1 as int, x2 as int, y2 as int);
        let ghost mut done: Seq<(int, int)> = Seq::empty();
        let ghost mut fuel: nat = (dx + dy + 1) as nat;
        let ghost mut cx: int = 0;
        let ghost mut cy: int = 0;
        assert(all == done + line_steps(x as int, y as int, x2 as int, y2 as int, err as int, dx as int, dy as int, sx as int, sy as int, fuel));
        loop
            invariant_except_break
                self.wf(),
                self.pitch as int == p,
                self.clip_rect == clip,
                old(self).width == self.width && old(self).height == self.height,
                dx == abs(x2 - x1),
                dy == abs(y2 - y1),
                dx <= i32::MAX,
                dy <= i32::MAX,
                sx == (if x1 < x2 { 1int } else { -1int }),
                sy == (if y1 < y2 { 1int } else { -1int }),
                0 <= cx <= dx,
                0 <= cy <= dy,
                x == x1 + (if x1 < x2 { cx } else { -cx }),
                y == y1 + (if y1 < y2 { cy } else { -cy }),
                err == dx - dy - cx * dy + cy * dx,
                line_fits(x as int, y as int, x2 as int, y2 as int, err as int, dx as int, dy as int, sx as int, sy as int, fuel),
                fuel >= (dx - cx) + (dy - cy) + 1,
                all == done + line_steps(x as int, y as int, x2 as int, y2 as int, err as int, dx as int, dy as int, sx as int, sy as int, fuel),
                self.buffer@ == paint_points(old_buf, p, clip, done, color),
            ensures
                self.wf(),
                self.pitch as int == p,
                self.clip_rect == clip,
                old(self).width == self.width && old(self).height == self.height,
                self.buffer@ == paint_points(old_buf, p, clip, all, color),
            decreases (dx - cx) + (dy - cy),
        {
            self.put_pixel(x, y, color);
            proof {
                lemma_paint_points_push(old_buf, p, clip, done, (x as int, y as int), color);
            }
            if x == x2 && y == y2 {
                proof {
                    assert(line_steps(x as int, y as int, x2 as int, y2 as int, err as int, dx as int, dy as int, sx as int, sy as int, fuel) == seq![(x as int, y as int)]);
                    assert(all =~= done.push((x as int, y as int)));
                }
                break;
            }
            proof {
                // Progress and staying within the line's extent.
                if cx == dx && cy < dy {
                    assert(err <= -dy) by (nonlinear_arith)
                        requires
                            err == dx - dy - cx * dy + cy * dx,
                            cx == dx,
                            cy < dy,
                            dx >= 0,
                    ;
                }
                if cy == dy && cx < dx {
                    assert(err >= dx) by (nonlinear_arith)
                        requires
                            err == dx - dy - cx * dy + cy * dx,
                            cy == dy,
                            cx < dx,
                            dy >= 0,
                    ;
                }
                if cx == dx && cy == dy {
                    assert(x == x2 && y == y2);
                }
                let ghost rest = line_steps(x as int, y as int, x2 as int, y2 as int, err as int, dx as int, dy as int, sx as int, sy as int, fuel);
                assert(fuel > 0);
                done = done.push((x as int, y as int));
            }
            let e2 = 2 * err;
            let ghost step_x = e2 > -dy;
            let ghost step_y = e2 < dx;
            if e2 > -dy {
                assert(cx < dx);
                err = err - dy;
                x = x + sx;
            }
            if e2 < dx {
                assert(cy < dy);
                err = err + dx;
                y = y + sy;
            }
            proof {
                if step_x {
                    assert((cx + 1) * dy == cx * dy + dy) by (nonlinear_arith);
                    cx = cx + 1;
                }
                if step_y {
                    assert((cy + 1) * dx == cy * dx + dx) by (nonlinear_arith);
                    cy = cy + 1;
                }
                assert(step_x || step_y);
                assert(all =~= done + line_steps(x as int, y as int, x2 as int, y2 as int, err as int, dx as int, dy as int, sx as int, sy as int, (fuel - 1) as nat));
                fuel = (fuel - 1) as nat;
            }
        }
    }

    /// Draws the outline of `rect`: its four edges as lines.
    pub fn draw_rect(&mut self, rect: Rect, color: Color)
        requires
            old(self).wf(),
            rect.width <= i32::MAX,
            rect.height <= i32::MAX,
            rect.fits(),
            i32::MIN <= rect.x + rect.width - 1,
            i32::MIN <= rect.y + rect.height - 1,
            2 * abs(rect.width - 1) <= i32::MAX,
            2 * abs(rect.height - 1) <= i32::MAX + 1,
        ensures
            final(self).wf(),
            final(self).width == old(self).width,
            final(self).height == old(self).height,
            final(self).pitch == old(self).pitch,
            final(self).clip_rect == old(self).clip_rect,
            final(self).buffer@ == paint_points(old(self).buffer@, old(self).pitch as int, old(self).clip_rect,
                rect_outline(rect), color),
    {
        let ghost b0 = self.buffer@;
        let ghost p = self.pitch as int;
        let ghost clip = self.clip_rect;
        let x2 = rect.x + rect.width as i32 - 1;
        let y2 = rect.y + rect.height as i32 - 1;
        let ghost l1 = line_points(rect.x as int, rect.y as int, x2 as int, rect.y as int);
        let ghost l2 = line_points(x2 as int, rect.y as int, x2 as int, y2 as int);
        let ghost l3 = line_points(x2 as int, y2 as int, rect.x as int, y2 as int);
        let ghost l4 = line_points(rect.x as int, y2 as int, rect.x as int, rect.y as int);
        proof {
            lemma_straight_lines_drawable(rect.x as int, rect.y as int, x2 as int, rect.y as int);
            lemma_straight_lines_drawable(x2 as int, rect.y as int, x2 as int, y2 as int);
            lemma_straight_lines_drawable(x2 as int, y2 as int, rect.x as int, y2 as int);
            lemma_straight_lines_drawable(rect.x as int, y2 as int, rect.x as int, rect.y as int);
        }
        self.draw_line(rect.x, rect.y, x2, rect.y, color);
        self.draw_line(x2, rect.y, x2, y2, color);
        self.draw_line(x2, y2, rect.x, y2, color);
        self.draw_line(rect.x, y2, rect.x, rect.y, color);
        proof {
            lemma_paint_points_concat(b0, p, clip, l1, l2, color);
            lemma_paint_points_concat(b0, p, clip, l1 + l2, l3, color);
            lemma_paint_points_concat(b0, p, clip, l1 + l2 + l3, l4, color);
        }
    }

    /// Draws the eight points symmetric to `(x, y)` about `(xc, yc)`.
    pub fn draw_circle_points(&mut self, xc: i32, yc: i32, x: i32, y: i32, color: Color)
        requires
            old(self).wf(),
            i32::MIN <= xc - x && xc + x <= i32::MAX && i32::MIN <= xc + x && xc - x <= i32::MAX,
            i32::MIN <= xc - y && xc + y <= i32::MAX && i32::MIN <= xc + y && xc - y <= i32::MAX,
            i32::MIN <= yc - x && yc + x <= i32::MAX && i32::MIN <= yc + x && yc - x <= i32::MAX,
            i32::MIN <= yc - y && yc + y <= i32::MAX && i32::MIN <= yc + y && yc - y <= i32::MAX,
        ensures
            final(self).wf(),
            final(self).width == old(self).width,
            final(self).height == old(self).height,
            final(self).pitch == old(self).pitch,
            final(self).clip_rect == old(self).clip_rect,
            final(self).buffer@ == paint_points(old(self).buffer@, old(self).pitch as int, old(self).clip_rect,
                octant_points(xc as int, yc as int, x as int, y as int), color),
    {
        let ghost b0 = self.buffer@;
        let ghost p = self.pitch as int;
        let ghost clip = self.clip_rect;
        let ghost pts = octant_points(xc as int, yc as int, x as int, y as int);
        self.put_pixel(xc + x, yc + y, color);
        self.put_pixel(xc - x, yc + y, color);
        self.put_pixel(xc + x, yc - y, color);
        self.put_pixel(xc - x, yc - y, color);
        self.put_pixel(xc + y, yc + x, color);
        self.put_pixel(xc - y, yc + x, color);
        self.put_pixel(xc + y, yc - x, color);
        self.put_pixel(xc - y, yc - x, color);
        proof {
            let e = Seq::<(int, int)>::empty();
            lemma_paint_points_push(b0, p, clip, e, pts[0], color);
            lemma_paint_points_push(b0, p, clip, e.push(pts[0]), pts[1], color);
            lemma_paint_points_push(b0, p, clip, e.push(pts[0]).push(pts[1]), pts[2], color);
            lemma_paint_points_push(b0, p, clip, e.push(pts[0]).push(pts[1]).push(pts[2]), pts[3], color);
            lemma_paint_points_push(b0, p, clip, e.push(pts[0]).push(pts[1]).push(pts[2]).push(pts[3]), pts[4], color);
            lemma_paint_points_push(b0, p, clip, e.push(pts[0]).push(pts[1]).push(pts[2]).push(pts[3]).push(pts[4]), pts[5], color);
            lemma_paint_points_push(b0, p, clip, e.push(pts[0]).push(pts[1]).push(pts[2]).push(pts[3]).push(pts[4]).push(pts[5]), pts[6], color);
            lemma_paint_points_push(b0, p, clip, e.push(pts[0]).push(pts[1]).push(pts[2]).push(pts[3]).push(pts[4]).push(pts[5]).push(pts[6]), pts[7], color);
            assert(e.push(pts[0]).push(pts[1]).push(pts[2]).push(pts[3]).push(pts[4]).push(pts[5]).push(pts[6]).push(pts[7]) =~= pts);
        }
    }

    /// Draws the circle of radius `r` about `(xc, yc)` with the midpoint
    /// algorithm.
    #[verifier::rlimit(40)]
    pub fn draw_circle(&mut self, xc: i32, yc: i32, r: i32, color: Color)
        requires
            old(self).wf(),
            -1_073_741_822 <= r <= 536_870_000,
            i32::MIN <= xc - abs(r as int) - 1,
            xc + abs(r as int) + 1 <= i32::MAX,
            i32::MIN <= yc - abs(r as int) - 1,
            yc + abs(r as int) + 1 <= i32::MAX,
        ensures
            final(self).wf(),
            final(self).width == old(self).width,
            final(self).height == old(self).height,
            final(self).pitch == old(self).pitch,
            final(self).clip_rect == old(self).clip_rect,
            final(self).buffer@ == paint_points(old(self).buffer@, old(self).pitch as int, old(self).clip_rect,
                circle_points(xc as int, yc as int, r as int), color),
    {
        let ghost b0 = self.buffer@;
        let ghost p = self.pitch as int;
        let ghost clip = self.clip_rect;
        let ghost all = circle_points(xc as int, yc as int, r as int);
        let mut x: i32 = 0;
        let mut y: i32 = r;
        let mut d: i32 = 3 - 2 * r;
        self.draw_circle_points(xc, yc, x, y, color);
        let ghost mut done = octant_points(xc as int, yc as int, 0, r as int);
        while y >= x
            invariant
                self.wf(),
                self.pitch as int == p,
                self.clip_rect == clip,
                old(self).width == self.width && old(self).height == self.height,
                -1_073_741_822 <= r <= 536_870_000,
                i32::MIN <= xc - abs(r as int) - 1,
                xc + abs(r as int) + 1 <= i32::MAX,
                i32::MIN <= yc - abs(r as int) - 1,
                yc + abs(r as int) + 1 <= i32::MAX,
                r < 0 ==> x == 0 && y == r,
                r >= 0 ==> 0 <= x <= r + 1 && -1 <= y <= r,
                r >= 0 ==> -4 * r - 8 <= d <= 4 * r + 10 + 18 * circle_slack(y - x),
                r >= 0 ==> y - x >= -2,
                all == done + circle_steps(xc as int, yc as int, x as int, y as int, d as int),
                self.buffer@ == paint_points(b0, p, clip, done, color),
            decreases y - x + 2,
        {
            x += 1;
            if d > 0 {
                y -= 1;
                d = d + 4 * (x - y) + 10;
            } else {
                d = d + 4 * x + 6;
            }
            let ghost oct = octant_points(xc as int, yc as int, x as int, y as int);
            self.draw_circle_points(xc, yc, x, y, color);
            proof {
                lemma_paint_points_concat(b0, p, clip, done, oct, color);
                assert(all == (done + oct) + circle_steps(xc as int, yc as int, x as int, y as int, d as int));
                done = done + oct;
            }
        }
        proof {
            assert(circle_steps(xc as int, yc as int, x as int, y as int, d as int) =~= Seq::<(int, int)>::empty());
            assert(all =~= done);
        }
    }

    /// Draws a glyph: a `width` x `height` coverage bitmap, row by row,
    /// whose left edge is `xmin` pixels right of the pen at `x` and whose
    /// bottom edge lies `ymin` pixels above the baseline `y` (that is, on
    /// row `y - ymin`); each covered pixel is drawn in `color` with its
    /// alpha scaled by the coverage.
    #[verifier::rlimit(40)]
    pub fn draw_glyph(&mut self, x: i32, y: i32, xmin: i32, ymin: i32, width: usize, height: usize, bitmap: &[u8], color: Color)
        requires
            old(self).wf(),
            bitmap@.len() >= width * height,
            width <= i32::MAX,
            height <= i32::MAX,
            i32::MIN <= x + xmin,
            x + xmin + width <= i32::MAX,
            y - ymin <= i32::MAX,
            i32::MIN <= y - ymin - height,
        ensures
            final(self).wf(),
            final(self).width == old(self).width,
            final(self).height == old(self).height,
            final(self).pitch == old(self).pitch,
            final(self).clip_rect == old(self).clip_rect,
            final(self).buffer@ == paint_each(old(self).buffer@, old(self).pitch as int,
                |a: int, b: int| old(self).clip_rect.has(a, b)
                    && glyph_covers(bitmap@, width as int, height as int, x + xmin, y - ymin, a, b),
                |a: int, b: int| glyph_color(bitmap@, width as int, height as int, x + xmin, y - ymin, color, a, b)),
    {
        let ghost b0 = self.buffer@;
        let ghost p = self.pitch as int;
        let ghost clip = self.clip_rect;
        let ghost w = width as int;
        let ghost h = height as int;
        let ghost left = x + xmin;
        let ghost base = y - ymin;
        let ghost colors = |a: int, b: int| glyph_color(bitmap@, w, h, left, base, color, a, b);
        let ghost cov = |a: int, b: int| glyph_covers(bitmap@, w, h, left, base, a, b);
        let n = bitmap.len();
        proof {
            assert(paint_each(b0, p, |a: int, b: int| clip.has(a, b) && cov(a, b) && b - base + h < 0, colors) =~= b0);
        }
        let mut row: usize = 0;
        while row < height
            invariant
                self.wf(),
                self.pitch as int == p,
                self.clip_rect == clip,
                old(self).width == self.width && old(self).height == self.height,
                bitmap@.len() >= width * height,
                n == bitmap@.len(),
                width <= i32::MAX,
                height <= i32::MAX,
                i32::MIN <= x + xmin,
                x + xmin + width <= i32::MAX,
                y - ymin <= i32::MAX,
                i32::MIN <= y - ymin - height,
                w == width && h == height && left == x + xmin && base == y - ymin,
                colors == (|a: int, b: int| glyph_color(bitmap@, w, h, left, base, color, a, b)),
                cov == (|a: int, b: int| glyph_covers(bitmap@, w, h, left, base, a, b)),
                row <= height,
                self.buffer@ == paint_each(b0, p, |a: int, b: int| clip.has(a, b) && cov(a, b) && b - base + h < row, colors),
            decreases height - row,
        {
            let mut col: usize = 0;
            proof {
                lemma_paint_each_same(b0, p, |a: int, b: int| clip.has(a, b) && cov(a, b) && b - base + h < row,
                    |a: int, b: int| clip.has(a, b) && cov(a, b) && (b - base + h < row || (b - base + h == row && a - left < 0)), colors);
            }
            while col < width
                invariant
                    self.wf(),
                    self.pitch as int == p,
                    self.clip_rect == clip,
                    old(self).width == self.width && old(self).height == self.height,
                    bitmap@.len() >= width * height,
                    n == bitmap@.len(),
                    width <= i32::MAX,
                    height <= i32::MAX,
                    i32::MIN <= x + xmin,
                    x + xmin + width <= i32::MAX,
                    y - ymin <= i32::MAX,
                    i32::MIN <= y - ymin - height,
                    w == width && h == height && left == x + xmin && base == y - ymin,
                    colors == (|a: int, b: int| glyph_color(bitmap@, w, h, left, base, color, a, b)),
                    cov == (|a: int, b: int| glyph_covers(bitmap@, w, h, left, base, a, b)),
                    row < height,
                    col <= width,
                    self.buffer@ == paint_each(b0, p,
                        |a: int, b: int| clip.has(a, b) && cov(a, b) && (b - base + h < row || (b - base + h == row && a - left < col)), colors),
                decreases width - col,
            {
                proof {
                    assert(row * width + col < width * height) by (nonlinear_arith)
                        requires
                            row < height,
                            col < width,
                    ;
                }
                let coverage = bitmap[row * width + col];
                let px_x = x + xmin + col as i32;
                let px_y = y - ymin + (row as i32 - height as i32);
                let ghost cur = |a: int, b: int| clip.has(a, b) && cov(a, b) && (b - base + h < row || (b - base + h == row && a - left < col));
                let ghost next = |a: int, b: int| clip.has(a, b) && cov(a, b) && (b - base + h < row || (b - base + h == row && a - left < col + 1));
                proof {
                    assert(px_x - left == col);
                    assert(px_y - base + h == row);
                }
                if coverage != 0 {
                    assert(color.a as u32 * coverage as u32 <= 255 * 255) by (nonlinear_arith)
                        requires
                            color.a <= 255,
                            coverage <= 255,
                    ;
                    let c = Color::rgba(color.r, color.g, color.b, ((color.a as u32 * coverage as u32) / 255) as u8);
                    proof {
                        assert(c == colors(px_x as int, px_y as int));
                    }
                    self.put_pixel(px_x, px_y, c);
                    proof {
                        if clip.has(px_x as int, px_y as int) {
                            lemma_paint_each_step(b0, p, cur, colors, px_x as int, px_y as int);
                            lemma_paint_each_same(b0, p, |a: int, b: int| cur(a, b) || (a == px_x && b == px_y), next, colors);
                        } else {
                            lemma_paint_each_same(b0, p, cur, next, colors);
                        }
                    }
                } else {
                    proof {
                        assert(!cov(px_x as int, px_y as int));
                        lemma_paint_each_same(b0, p, cur, next, colors);
                    }
                }
                col = col + 1;
            }
            proof {
                lemma_paint_each_same(b0, p,
                    |a: int, b: int| clip.has(a, b) && cov(a, b) && (b - base + h < row || (b - base + h == row && a - left < col)),
                    |a: int, b: int| clip.has(a, b) && cov(a, b) && b - base + h < row + 1, colors);
            }
            row = row + 1;
        }
        proof {
            lemma_paint_each_same(b0, p, |a: int, b: int| clip.has(a, b) && cov(a, b) && b - base + h < row,
                |a: int, b: int| clip.has(a, b) && glyph_covers(bitmap@, width as int, height as int, x + xmin, y - ymin, a, b), colors);
        }
    }

    /// Fills the clip rectangle with `color`.
    pub fn clear(&mut self, color: Color)
        requires
            old(self).wf(),
        ensures
            final(self).clip_rect == old(self).clip_rect,
            final(self).pitch == old(self).pitch,
            final(self).width == old(self).width,
            final(self).height == old(self).height,
            final(self).buffer@ == match old(self).clip_rect.overlap(old(self).clip_rect) {
                Some(r) => paint_where(old(self).buffer@, old(self).pitch as int, |a: int, b: int| r.has(a, b), color),
                None => old(self).buffer@,
            },
    {
        let clip = self.clip_rect;
        self.fill_rect(clip, color);
    }
}

/// Consecutive points of `pts` are neighbours, each one step from the one
/// before towards the end: by 0 or `sx` along x and 0 or `sy` along y,
/// never standing still.
pub open spec fn steps_towards(pts: Seq<(int, int)>, sx: int, sy: int) -> bool {
    forall|i: int| 0 <= i < pts.len() - 1 ==> {
        let (a, b) = #[trigger] pts[i];
        let (c, d) = pts[i + 1];
        &&& c - a == 0 || c - a == sx
        &&& d - b == 0 || d - b == sy
        &&& c != a || d != b
    }
}

proof fn lemma_line_steps_shape(
    x1: int, y1: int, x2: int, y2: int, dx: int, dy: int, sx: int, sy: int, cx: int, cy: int, err: int, fuel: nat,
)
    requires
        dx == abs(x2 - x1),
        dy == abs(y2 - y1),
        sx == (if x1 < x2 { 1int } else { -1int }),
        sy == (if y1 < y2 { 1int } else { -1int }),
        0 <= cx <= dx,
        0 <= cy <= dy,
        err == dx - dy - cx * dy + cy * dx,
        fuel >= (dx - cx) + (dy - cy) + 1,
    ensures
        ({
            let st = line_steps(x1 + sx * cx, y1 + sy * cy, x2, y2, err, dx, dy, sx, sy, fuel);
            &&& st.len() >= 1
            &&& st[0] == (x1 + sx * cx, y1 + sy * cy)
            &&& st.last() == (x2, y2)
            &&& steps_towards(st, sx, sy)
        }),
    decreases (dx - cx) + (dy - cy),
{
    let x = x1 + sx * cx;
    let y = y1 + sy * cy;
    assert(x == x1 + (if x1 < x2 { cx } else { -cx })) by (nonlinear_arith)
        requires
            sx == (if x1 < x2 { 1int } else { -1int }),
            x == x1 + sx * cx,
    ;
    assert(y == y1 + (if y1 < y2 { cy } else { -cy })) by (nonlinear_arith)
        requires
            sy == (if y1 < y2 { 1int } else { -1int }),
            y == y1 + sy * cy,
    ;
    if x == x2 && y == y2 {
        let st = line_steps(x, y, x2, y2, err, dx, dy, sx, sy, fuel);
        assert(st == seq![(x, y)]);
    } else {
        if cx == dx && cy < dy {
            assert(err <= -dy) by (nonlinear_arith)
                requires
                    err == dx - dy - cx * dy + cy * dx,
                    cx == dx,
                    cy < dy,
                    dx >= 0,
            ;
        }
        if cy == dy && cx < dx {
            assert(err >= dx) by (nonlinear_arith)
                requires
                    err == dx - dy - cx * dy + cy * dx,
                    cy == dy,
                    cx < dx,
                    dy >= 0,
            ;
        }
        let e2 = 2 * err;
        let step_x = e2 > -dy;
        let step_y = e2 < dx;
        assert(step_x ==> cx < dx);
        assert(step_y ==> cy < dy);
        assert(step_x || step_y);
        let ncx = if step_x { cx + 1 } else { cx };
        let ncy = if step_y { cy + 1 } else { cy };
        let err1 = if step_x { err - dy } else { err };
        let err2 = if step_y { err1 + dx } else { err1 };
        assert(err2 == dx - dy - ncx * dy + ncy * dx) by (nonlinear_arith)
            requires
                err == dx - dy - cx * dy + cy * dx,
                ncx == (if step_x { cx + 1 } else { cx }),
                ncy == (if step_y { cy + 1 } else { cy }),
                err1 == (if step_x { err - dy } else { err }),
                err2 == (if step_y { err1 + dx } else { err1 }),
        ;
        let nx = x1 + sx * ncx;
        let ny = y1 + sy * ncy;
        assert(nx == (if step_x { x + sx } else { x })) by (nonlinear_arith)
            requires
                nx == x1 + sx * ncx,
                x == x1 + sx * cx,
                ncx == (if step_x { cx + 1 } else { cx }),
        ;
        assert(ny == (if step_y { y + sy } else { y })) by (nonlinear_arith)
            requires
                ny == y1 + sy * ncy,
                y == y1 + sy * cy,
                ncy == (if step_y { cy + 1 } else { cy }),
        ;
        lemma_line_steps_shape(x1, y1, x2, y2, dx, dy, sx, sy, ncx, ncy, err2, (fuel - 1) as nat);
        let rest = line_steps(nx, ny, x2, y2, err2, dx, dy, sx, sy, (fuel - 1) as nat);
        let st = line_steps(x, y, x2, y2, err, dx, dy, sx, sy, fuel);
        assert(st == seq![(x, y)] + rest);
        assert(st.last() == rest.last());
        assert forall|i: int| 0 <= i < st.len() - 1 implies {
            let (a, b) = #[trigger] st[i];
            let (c, d) = st[i + 1];
            &&& c - a == 0 || c - a == sx
            &&& d - b == 0 || d - b == sy
            &&& c != a || d != b
        } by {
            if i == 0 {
                assert(st[1] == rest[0]);
            } else {
                assert(st[i] == rest[i - 1]);
                assert(st[i + 1] == rest[i]);
            }
        }
    }
}

/// A line is a connected run of pixels from one end to the other: it
/// starts at `(x1, y1)`, ends at `(x2, y2)`, and each pixel is a neighbour
/// of the one before it, one step towards `(x2, y2)` along x, along y, or
/// both.
pub proof fn lemma_line_is_connected(x1: int, y1: int, x2: int, y2: int)
    ensures
        line_points(x1, y1, x2, y2).len() >= 1,
        line_points(x1, y1, x2, y2)[0] == (x1, y1),
        line_points(x1, y1, x2, y2).last() == (x2, y2),
        steps_towards(line_points(x1, y1, x2, y2), if x1 < x2 { 1int } else { -1int }, if y1 < y2 { 1int } else { -1int }),
{
    let dx = abs(x2 - x1);
    let dy = abs(y2 - y1);
    let sx = if x1 < x2 { 1int } else { -1int };
    let sy = if y1 < y2 { 1int } else { -1int };
    lemma_line_steps_shape(x1, y1, x2, y2, dx, dy, sx, sy, 0, 0, dx - dy, (dx + dy + 1) as nat);
    assert(x1 + sx * 0 == x1 && y1 + sy * 0 == y1);
}

} // verus!
