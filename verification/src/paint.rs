//! Painting into pixel buffers.
//!
//! A pixel is four bytes: blue, green, red, alpha. A buffer is a run of rows
//! `stride` bytes apart.

use crate::font::{glyph, glyph_rows, row_bit};
use crate::zoom::{label, lemma_label_len, zoom_label};
use vstd::prelude::*;

verus! {

/// One channel of a color laid over a pixel with opacity `alpha` out of 255.
pub open spec fn mix(under: u8, over: u8, alpha: u8) -> u8 {
    ((over * alpha + under * (255 - alpha)) / 255) as u8
}

/// What a color (red, green, blue, alpha) leaves of the pixel byte `under` in
/// `channel` (blue, green, red, alpha). The pixel becomes opaque.
pub open spec fn mix_channel(under: u8, color: Seq<u8>, channel: int) -> u8 {
    if channel == 3 {
        255
    } else {
        mix(under, color[2 - channel], color[3])
    }
}

/// `buf` with a color laid over the pixel at byte `at`.
pub open spec fn blended(buf: Seq<u8>, at: int, color: Seq<u8>) -> Seq<u8> {
    Seq::new(
        buf.len(),
        |k: int|
            if at <= k < at + 4 {
                mix_channel(buf[k], color, k - at)
            } else {
                buf[k]
            },
    )
}

proof fn lemma_mix_fits(under: u8, over: u8, alpha: u8)
    ensures
        0 <= over * alpha + under * (255 - alpha) <= 255 * 255,
        0 <= over * alpha <= 255 * 255,
        0 <= under * (255 - alpha) <= 255 * 255,
{
    assert(0 <= over * alpha <= 255 * alpha) by (nonlinear_arith)
        requires
            0 <= over <= 255,
            0 <= alpha,
    ;
    assert(0 <= under * (255 - alpha) <= 255 * (255 - alpha)) by (nonlinear_arith)
        requires
            0 <= under <= 255,
            0 <= alpha <= 255,
    ;
}

/// Lays a color (red, green, blue, alpha) over a pixel (blue, green, red,
/// alpha), which becomes opaque. Only the first four bytes are touched.
pub fn blend(pixel: &mut [u8], color: [u8; 4])
    requires
        old(pixel)@.len() >= 4,
    ensures
        final(pixel)@ == blended(old(pixel)@, 0, color@),
{
    let a: u32 = color[3] as u32;
    let inv: u32 = 255 - a;
    proof {
        lemma_mix_fits(pixel@[0], color@[2], color@[3]);
        lemma_mix_fits(pixel@[1], color@[1], color@[3]);
        lemma_mix_fits(pixel@[2], color@[0], color@[3]);
    }
    pixel[0] = ((color[2] as u32 * a + pixel[0] as u32 * inv) / 255) as u8;
    pixel[1] = ((color[1] as u32 * a + pixel[1] as u32 * inv) / 255) as u8;
    pixel[2] = ((color[0] as u32 * a + pixel[2] as u32 * inv) / 255) as u8;
    pixel[3] = 255;
}

/// Lays a color over the pixel at byte `at`.
fn blend_at(dst: &mut [u8], at: usize, color: [u8; 4])
    requires
        at + 4 <= old(dst)@.len(),
    ensures
        final(dst)@ == blended(old(dst)@, at as int, color@),
{
    let (_, tail) = dst.split_at_mut(at);
    let (pixel, _) = tail.split_at_mut(4);
    blend(pixel, color);
}

/// `buf` with a color laid over the `width` pixels from byte `at` on.
pub open spec fn painted_row(buf: Seq<u8>, at: int, width: nat, color: Seq<u8>) -> Seq<u8> {
    Seq::new(
        buf.len(),
        |k: int|
            if at <= k < at + 4 * width {
                mix_channel(buf[k], color, (k - at) % 4)
            } else {
                buf[k]
            },
    )
}

/// The byte at which the pixel in column `x` of row `y` starts.
pub open spec fn pixel_at(stride: int, x: int, y: int) -> int {
    y * stride + 4 * x
}

/// `buf` with a color laid over a rectangle, row after row from the top.
pub open spec fn painted_rect(
    buf: Seq<u8>,
    stride: int,
    x: int,
    y: int,
    width: nat,
    height: nat,
    color: Seq<u8>,
) -> Seq<u8>
    decreases height,
{
    if height == 0 {
        buf
    } else {
        painted_row(
            painted_rect(buf, stride, x, y, width, (height - 1) as nat, color),
            pixel_at(stride, x, y + height - 1),
            width,
            color,
        )
    }
}

/// Lays a color over `width` pixels from byte `at` on.
fn paint_row(dst: &mut [u8], at: usize, width: usize, color: [u8; 4])
    requires
        at + 4 * width <= old(dst)@.len(),
    ensures
        final(dst)@ == painted_row(old(dst)@, at as int, width as nat, color@),
{
    let len: usize = dst.len();
    let mut i: usize = 0;
    while i < width
        invariant
            i <= width,
            at + 4 * width <= len == dst@.len(),
            dst@ == painted_row(old(dst)@, at as int, i as nat, color@),
        decreases width - i,
    {
        blend_at(dst, at + 4 * i, color);
        i += 1;
    }
}

/// Lays a color over a rectangle of pixels.
fn paint_rect(
    dst: &mut [u8],
    stride: usize,
    x: usize,
    y: usize,
    width: usize,
    height: usize,
    color: [u8; 4],
)
    requires
        height > 0,
        y + height <= usize::MAX,
        pixel_at(stride as int, x + width, y + height - 1) <= old(dst)@.len(),
    ensures
        final(dst)@ == painted_rect(
            old(dst)@,
            stride as int,
            x as int,
            y as int,
            width as nat,
            height as nat,
            color@,
        ),
{
    let len: usize = dst.len();
    let mut i: usize = 0;
    while i < height
        invariant
            i <= height,
            y + height <= usize::MAX,
            len == dst@.len() == old(dst)@.len(),
            pixel_at(stride as int, x + width, y + height - 1) <= len,
            dst@ == painted_rect(
                old(dst)@,
                stride as int,
                x as int,
                y as int,
                width as nat,
                i as nat,
                color@,
            ),
        decreases height - i,
    {
        proof {
            assert(0 <= (y + i) * stride <= (y + height - 1) * stride) by (nonlinear_arith)
                requires
                    0 <= y + i <= y + height - 1,
                    0 <= stride,
            ;
        }
        paint_row(dst, (y + i) * stride + 4 * x, width, color);
        i += 1;
    }
}

/// Pixels along the side of one font pixel.
pub const BLOCK: usize = 6;

/// Pixels between two glyphs, from left edge to left edge.
pub const GLYPH_ADVANCE: usize = 24;

/// Pixels of background round the text of a badge.
pub const BADGE_PADDING: usize = 12;

/// Pixels between a badge and the lower right corner of the frame.
pub const BADGE_MARGIN: i32 = 24;

/// Pixels from the top of a badge to its bottom.
pub const BADGE_HEIGHT: usize = 54;

/// The badge's background: black, two thirds opaque.
pub open spec fn shade() -> Seq<u8> {
    seq![0, 0, 0, 170]
}

/// The badge's text color: opaque white.
pub open spec fn ink() -> Seq<u8> {
    seq![255, 255, 255, 255]
}

/// `buf` with the first `cells` font pixels of a glyph painted, counted row by
/// row from the top left.
pub open spec fn painted_glyph(
    buf: Seq<u8>,
    stride: int,
    x: int,
    y: int,
    rows: Seq<u8>,
    cells: nat,
) -> Seq<u8>
    decreases cells,
{
    if cells == 0 {
        buf
    } else {
        let before = painted_glyph(buf, stride, x, y, rows, (cells - 1) as nat);
        let row = (cells - 1) / 3;
        let column = (cells - 1) % 3;
        if row_bit(rows[row], column) {
            painted_rect(
                before,
                stride,
                x + column * BLOCK,
                y + row * BLOCK,
                BLOCK as nat,
                BLOCK as nat,
                ink(),
            )
        } else {
            before
        }
    }
}

/// `buf` with a text painted from left to right, its top left corner at `x`
/// and `y`.
pub open spec fn painted_text(
    buf: Seq<u8>,
    stride: int,
    x: int,
    y: int,
    text: Seq<char>,
) -> Seq<u8>
    decreases text.len(),
{
    if text.len() == 0 {
        buf
    } else {
        painted_glyph(
            painted_text(buf, stride, x, y, text.drop_last()),
            stride,
            x + (text.len() - 1) * GLYPH_ADVANCE,
            y,
            glyph_rows(text.last()),
            15,
        )
    }
}

/// The width of the badge of a text.
pub open spec fn badge_width(text: Seq<char>) -> int {
    text.len() * GLYPH_ADVANCE - BLOCK + 2 * BADGE_PADDING
}

/// The left edge of the badge of a text in a frame `px_w` pixels wide.
pub open spec fn badge_left(px_w: int, text: Seq<char>) -> int {
    px_w - badge_width(text) - BADGE_MARGIN
}

/// The upper edge of a badge in a frame `px_h` pixels high.
pub open spec fn badge_top(px_h: int) -> int {
    px_h - BADGE_HEIGHT - BADGE_MARGIN
}

/// Whether a frame is large enough for the badge of a text.
pub open spec fn has_badge(px_w: int, px_h: int, text: Seq<char>) -> bool {
    badge_left(px_w, text) >= 0 && badge_top(px_h) >= 0
}

/// `buf`, a frame of `px_w` by `px_h` pixels, with the badge of a text in its
/// lower right corner. A frame too small for the badge stays as it is.
pub open spec fn with_badge(
    buf: Seq<u8>,
    px_w: int,
    px_h: int,
    stride: int,
    text: Seq<char>,
) -> Seq<u8> {
    if has_badge(px_w, px_h, text) {
        let x = badge_left(px_w, text);
        let y = badge_top(px_h);
        painted_text(
            painted_rect(
                buf,
                stride,
                x,
                y,
                badge_width(text) as nat,
                BADGE_HEIGHT as nat,
                shade(),
            ),
            stride,
            x + BADGE_PADDING,
            y + BADGE_PADDING,
            text,
        )
    } else {
        buf
    }
}

/// Whether a badge can be painted into a buffer of `len` bytes: the
/// coordinates of its edges and the byte offsets of its last row and column
/// are 32-bit numbers, and its last pixel lies in the buffer.
pub open spec fn badge_in_bounds(
    px_w: int,
    px_h: int,
    stride: int,
    text: Seq<char>,
    len: int,
) -> bool {
    &&& badge_left(px_w, text) >= i32::MIN
    &&& badge_top(px_h) >= i32::MIN
    &&& has_badge(px_w, px_h, text) ==> {
        let right = badge_left(px_w, text) + badge_width(text);
        let bottom = badge_top(px_h) + BADGE_HEIGHT;
        &&& stride >= 0
        &&& (bottom - 1) * stride <= i32::MAX
        &&& 4 * (right - 1) <= i32::MAX
        &&& pixel_at(stride, right, bottom - 1) <= len
    }
}

proof fn lemma_pixel_at_monotonic(stride: int, x0: int, y0: int, x1: int, y1: int)
    requires
        0 <= stride,
        x0 <= x1,
        y0 <= y1,
    ensures
        pixel_at(stride, x0, y0) <= pixel_at(stride, x1, y1),
{
    assert(y0 * stride <= y1 * stride) by (nonlinear_arith)
        requires
            0 <= stride,
            y0 <= y1,
    ;
}

proof fn lemma_painted_rect_len(
    buf: Seq<u8>,
    stride: int,
    x: int,
    y: int,
    width: nat,
    height: nat,
    color: Seq<u8>,
)
    ensures
        painted_rect(buf, stride, x, y, width, height, color).len() == buf.len(),
    decreases height,
{
    if height > 0 {
        lemma_painted_rect_len(buf, stride, x, y, width, (height - 1) as nat, color);
    }
}

/// Paints a glyph in blocks of [`BLOCK`] by [`BLOCK`] pixels.
fn paint_glyph(dst: &mut [u8], stride: usize, x: usize, y: usize, rows: [u8; 5])
    requires
        y + 30 <= usize::MAX,
        pixel_at(stride as int, x + 18, y + 29) <= old(dst)@.len(),
    ensures
        final(dst)@ == painted_glyph(old(dst)@, stride as int, x as int, y as int, rows@, 15),
        final(dst)@.len() == old(dst)@.len(),
{
    let len: usize = dst.len();
    let mut row: usize = 0;
    while row < 5
        invariant
            row <= 5,
            y + 30 <= usize::MAX,
            len == dst@.len() == old(dst)@.len(),
            pixel_at(stride as int, x + 18, y + 29) <= len,
            dst@ == painted_glyph(
                old(dst)@,
                stride as int,
                x as int,
                y as int,
                rows@,
                (3 * row) as nat,
            ),
        decreases 5 - row,
    {
        let bits: u8 = rows[row];
        let mut column: usize = 0;
        while column < 3
            invariant
                row < 5,
                column <= 3,
                bits == rows@[row as int],
                y + 30 <= usize::MAX,
                len == dst@.len() == old(dst)@.len(),
                pixel_at(stride as int, x + 18, y + 29) <= len,
                dst@ == painted_glyph(
                    old(dst)@,
                    stride as int,
                    x as int,
                    y as int,
                    rows@,
                    (3 * row + column) as nat,
                ),
            decreases 3 - column,
        {
            proof {
                let cell = 3 * row + column;
                assert(cell / 3 == row && cell % 3 == column);
                assert((bits >> 2u8) & 1 == 1 <==> bits & 4 == 4) by (bit_vector);
                assert((bits >> 1u8) & 1 == 1 <==> bits & 2 == 2) by (bit_vector);
                assert((bits >> 0u8) & 1 == 1 <==> bits & 1 == 1) by (bit_vector);
                lemma_pixel_at_monotonic(
                    stride as int,
                    x + column * BLOCK + BLOCK,
                    y + row * BLOCK + BLOCK - 1,
                    x + 18,
                    y + 29,
                );
                assert(y * stride >= 0) by (nonlinear_arith)
                    requires
                        y >= 0,
                        stride >= 0,
                ;
                lemma_pixel_at_monotonic(stride as int, x as int, y as int, x + 18, y + 29);
                lemma_painted_rect_len(
                    dst@,
                    stride as int,
                    x + column * BLOCK,
                    y + row * BLOCK,
                    BLOCK as nat,
                    BLOCK as nat,
                    ink(),
                );
            }
            if (bits >> (2 - column as u8)) & 1 == 1 {
                let white: [u8; 4] = [255, 255, 255, 255];
                assert(white@ == ink());
                paint_rect(
                    dst,
                    stride,
                    x + column * BLOCK,
                    y + row * BLOCK,
                    BLOCK,
                    BLOCK,
                    white,
                );
            }
            column += 1;
        }
        row += 1;
    }
}

/// Draws the badge of a zoom level into the lower right corner of a frame of
/// `px_w` by `px_h` pixels, unless the frame is too small for it.
pub fn draw_badge(dst: &mut [u8], px_w: i32, px_h: i32, stride: i32, zoom: u32)
    requires
        badge_in_bounds(
            px_w as int,
            px_h as int,
            stride as int,
            label(zoom),
            old(dst)@.len() as int,
        ),
    ensures
        final(dst)@ == with_badge(
            old(dst)@,
            px_w as int,
            px_h as int,
            stride as int,
            label(zoom),
        ),
        final(dst)@.len() == old(dst)@.len(),
{
    let text = zoom_label(zoom);
    proof {
        lemma_label_len(zoom);
    }
    let width: usize = text.len() * GLYPH_ADVANCE - BLOCK + 2 * BADGE_PADDING;
    let left: i32 = px_w - width as i32 - BADGE_MARGIN;
    let top: i32 = px_h - BADGE_HEIGHT as i32 - BADGE_MARGIN;
    if left < 0 || top < 0 {
        return;
    }
    let stride: usize = stride as usize;
    let left: usize = left as usize;
    let top: usize = top as usize;
    let black: [u8; 4] = [0, 0, 0, 170];
    assert(black@ == shade());
    proof {
        lemma_painted_rect_len(
            dst@,
            stride as int,
            left as int,
            top as int,
            width as nat,
            BADGE_HEIGHT as nat,
            shade(),
        );
    }
    paint_rect(dst, stride, left, top, width, BADGE_HEIGHT, black);

    let ghost ground = dst@;
    let mut i: usize = 0;
    while i < text.len()
        invariant
            i <= text.len() <= 12,
            width == text.len() * GLYPH_ADVANCE - BLOCK + 2 * BADGE_PADDING,
            left <= i32::MAX,
            top <= i32::MAX,
            dst@.len() == old(dst)@.len(),
            pixel_at(stride as int, left + width, top + BADGE_HEIGHT - 1) <= dst@.len(),
            dst@ == painted_text(
                ground,
                stride as int,
                left + BADGE_PADDING,
                top + BADGE_PADDING,
                text@.take(i as int),
            ),
        decreases text.len() - i,
    {
        proof {
            assert(text@.take(i + 1).drop_last() == text@.take(i as int));
            lemma_pixel_at_monotonic(
                stride as int,
                left + BADGE_PADDING + i * GLYPH_ADVANCE + 18,
                top + BADGE_PADDING + 29,
                left + width,
                top + BADGE_HEIGHT - 1,
            );
        }
        let rows = glyph(text[i]);
        paint_glyph(dst, stride, left + BADGE_PADDING + i * GLYPH_ADVANCE, top + BADGE_PADDING, rows);
        i += 1;
    }
    assert(text@.take(text@.len() as int) == text@);
}

} // verus!
