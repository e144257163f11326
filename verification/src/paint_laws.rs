//! What holds of painting as a whole: colors, and where a badge leaves which
//! pixel.

use crate::font::{glyph_rows, row_bit, GLYPH_COLUMNS, GLYPH_ROWS};
use crate::paint::{
    badge_in_bounds, badge_left, badge_top, badge_width, blended, has_badge, ink, mix, mix_channel, painted_glyph,
    painted_rect, painted_text, pixel_at, shade, with_badge, BADGE_HEIGHT, BADGE_PADDING, BLOCK,
    GLYPH_ADVANCE,
};
use vstd::prelude::*;

verus! {

/// A mixed channel lies between the two channels that were mixed.
pub proof fn law_mix_lies_between(under: u8, over: u8, alpha: u8)
    ensures
        under <= over ==> under <= mix(under, over, alpha) <= over,
        over <= under ==> over <= mix(under, over, alpha) <= under,
{
    let sum = over * alpha + under * (255 - alpha);
    if under <= over {
        assert(255 * under <= sum <= 255 * over) by (nonlinear_arith)
            requires
                under <= over,
                0 <= alpha <= 255,
                sum == over * alpha + under * (255 - alpha),
        ;
    } else {
        assert(255 * over <= sum <= 255 * under) by (nonlinear_arith)
            requires
                over <= under,
                0 <= alpha <= 255,
                sum == over * alpha + under * (255 - alpha),
        ;
    }
}

/// An opaque color replaces what is under it; a transparent one leaves it.
pub proof fn law_mix_at_the_ends(under: u8, over: u8)
    ensures
        mix(under, over, 255) == over,
        mix(under, over, 0) == under,
{
    law_mix_is_the_weighted_mean(under, over, 255);
    law_mix_is_the_weighted_mean(under, over, 0);
}

/// Whatever the color, the pixel it is laid over becomes opaque, and no other
/// byte changes.
pub proof fn law_blending_makes_one_pixel_opaque(buf: Seq<u8>, at: int, color: Seq<u8>)
    requires
        0 <= at,
        at + 4 <= buf.len(),
    ensures
        blended(buf, at, color).len() == buf.len(),
        blended(buf, at, color)[at + 3] == 255,
        forall|k: int|
            0 <= k < buf.len() && !(at <= k < at + 4) ==> #[trigger] blended(buf, at, color)[k]
                == buf[k],
{
}

/// The badge's background leaves a third of each channel.
pub proof fn law_shade_leaves_a_third(under: u8, channel: int)
    requires
        0 <= channel < 3,
    ensures
        mix_channel(under, shade(), channel) == under / 3,
{
    assert(shade()[2 - channel] == 0 && shade()[3] == 170);
}

/// Whether the text paints the pixel `tx` to the right of and `ty` below its
/// upper left corner.
pub open spec fn inked(text: Seq<char>, tx: int, ty: int) -> bool {
    &&& 0 <= ty < GLYPH_ROWS * BLOCK
    &&& 0 <= tx < text.len() * GLYPH_ADVANCE
    &&& tx % (GLYPH_ADVANCE as int) < GLYPH_COLUMNS * BLOCK
    &&& row_bit(
        glyph_rows(text[tx / (GLYPH_ADVANCE as int)])[ty / (BLOCK as int)],
        (tx % (GLYPH_ADVANCE as int)) / (BLOCK as int),
    )
}

/// A pixel of a buffer whose rows do not overlap: its bytes lie in its own row.
spec fn is_pixel(stride: int, x: int, y: int) -> bool {
    0 <= x && 4 * x + 4 <= stride && 0 <= y
}

proof fn lemma_rows_are_apart(stride: int, y0: int, y1: int)
    requires
        0 <= stride,
        y0 < y1,
    ensures
        y0 * stride + stride <= y1 * stride,
{
    assert((y0 + 1) * stride <= y1 * stride) by (nonlinear_arith)
        requires
            0 <= stride,
            y0 + 1 <= y1,
    ;
    assert((y0 + 1) * stride == y0 * stride + stride) by (nonlinear_arith);
}

/// What painting a rectangle leaves in one byte.
proof fn lemma_painted_rect_byte(
    buf: Seq<u8>,
    stride: int,
    left: int,
    top: int,
    width: nat,
    height: nat,
    color: Seq<u8>,
    x: int,
    y: int,
    channel: int,
)
    requires
        0 <= left,
        4 * (left + width) <= stride,
        is_pixel(stride, x, y),
        0 <= channel < 4,
        0 <= pixel_at(stride, x, y) + channel < buf.len(),
    ensures
        painted_rect(buf, stride, left, top, width, height, color).len() == buf.len(),
        painted_rect(buf, stride, left, top, width, height, color)[pixel_at(stride, x, y) + channel]
            == if left <= x < left + width && top <= y < top + height {
            mix_channel(buf[pixel_at(stride, x, y) + channel], color, channel)
        } else {
            buf[pixel_at(stride, x, y) + channel]
        },
    decreases height,
{
    if height > 0 {
        let below = (height - 1) as nat;
        lemma_painted_rect_byte(
            buf,
            stride,
            left,
            top,
            width,
            below,
            color,
            x,
            y,
            channel,
        );
        let row = top + below;
        if y < row {
            lemma_rows_are_apart(stride, y, row);
        } else if row < y {
            lemma_rows_are_apart(stride, row, y);
        }
    }
}

/// What painting a glyph leaves in one byte.
proof fn lemma_painted_glyph_byte(
    buf: Seq<u8>,
    stride: int,
    left: int,
    top: int,
    rows: Seq<u8>,
    cells: nat,
    x: int,
    y: int,
    channel: int,
)
    requires
        cells <= 15,
        0 <= left,
        4 * (left + 18) <= stride,
        is_pixel(stride, x, y),
        0 <= channel < 4,
        0 <= pixel_at(stride, x, y) + channel < buf.len(),
    ensures
        painted_glyph(buf, stride, left, top, rows, cells).len() == buf.len(),
        painted_glyph(buf, stride, left, top, rows, cells)[pixel_at(stride, x, y) + channel] == if {
            &&& 0 <= x - left < 18
            &&& 0 <= y - top < 30
            &&& 3 * ((y - top) / 6) + (x - left) / 6 < cells
            &&& row_bit(rows[(y - top) / 6], (x - left) / 6)
        } {
            255u8
        } else {
            buf[pixel_at(stride, x, y) + channel]
        },
    decreases cells,
{
    if cells > 0 {
        let before = painted_glyph(buf, stride, left, top, rows, (cells - 1) as nat);
        let row = (cells - 1) / 3;
        let column = (cells - 1) % 3;
        lemma_painted_glyph_byte(
            buf,
            stride,
            left,
            top,
            rows,
            (cells - 1) as nat,
            x,
            y,
            channel,
        );
        let k = pixel_at(stride, x, y) + channel;
        if row_bit(rows[row], column) {
            lemma_painted_rect_byte(
                before,
                stride,
                left + column * BLOCK,
                top + row * BLOCK,
                BLOCK as nat,
                BLOCK as nat,
                ink(),
                x,
                y,
                channel,
            );
            assert(ink()[3] == 255 && (channel < 3 ==> ink()[2 - channel] == 255));
            assert(mix_channel(before[k], ink(), channel) == 255);
        }
        if 0 <= x - left < 18 && 0 <= y - top < 30 {
            assert(0 <= (y - top) / 6 < 5 && 0 <= (x - left) / 6 < 3);
        }
    }
}

/// What painting a text leaves in one byte.
proof fn lemma_painted_text_byte(
    buf: Seq<u8>,
    stride: int,
    left: int,
    top: int,
    text: Seq<char>,
    x: int,
    y: int,
    channel: int,
)
    requires
        0 <= left,
        text.len() > 0 ==> 4 * (left + text.len() * GLYPH_ADVANCE - BLOCK) <= stride,
        is_pixel(stride, x, y),
        0 <= channel < 4,
        0 <= pixel_at(stride, x, y) + channel < buf.len(),
    ensures
        painted_text(buf, stride, left, top, text).len() == buf.len(),
        painted_text(buf, stride, left, top, text)[pixel_at(stride, x, y) + channel] == if inked(
            text,
            x - left,
            y - top,
        ) {
            255u8
        } else {
            buf[pixel_at(stride, x, y) + channel]
        },
    decreases text.len(),
{
    if text.len() > 0 {
        let front = text.drop_last();
        let before = painted_text(buf, stride, left, top, front);
        lemma_painted_text_byte(buf, stride, left, top, front, x, y, channel);
        let last = text.len() - 1;
        lemma_painted_glyph_byte(
            before,
            stride,
            left + last * GLYPH_ADVANCE,
            top,
            glyph_rows(text.last()),
            15,
            x,
            y,
            channel,
        );
        let tx = x - left;
        if 0 <= tx < text.len() * GLYPH_ADVANCE {
            let n = tx / 24;
            assert(0 <= n < text.len());
            if n < last {
                assert(front[n] == text[n]);
            }
        }
    }
}

/// Where the rows of a frame do not overlap, a badge changes those pixels of
/// the frame that lie in its own rectangle and no others: the pixels of the
/// text turn white, and the rest of the rectangle keeps a third of its
/// brightness. All of it becomes opaque.
pub proof fn law_badge_pixels(
    buf: Seq<u8>,
    px_w: int,
    px_h: int,
    stride: int,
    text: Seq<char>,
    x: int,
    y: int,
    channel: int,
)
    requires
        text.len() > 0,
        4 * px_w <= stride,
        0 <= x < px_w,
        0 <= y,
        0 <= channel < 4,
        0 <= pixel_at(stride, x, y) + channel < buf.len(),
    ensures
        with_badge(buf, px_w, px_h, stride, text).len() == buf.len(),
        with_badge(buf, px_w, px_h, stride, text)[pixel_at(stride, x, y) + channel] == ({
            let left = badge_left(px_w, text);
            let top = badge_top(px_h);
            let under = buf[pixel_at(stride, x, y) + channel];
            if !has_badge(px_w, px_h, text) || !(left <= x < left + badge_width(text)) || !(top <= y
                < top + BADGE_HEIGHT) {
                under
            } else if channel == 3 || inked(
                text,
                x - left - BADGE_PADDING,
                y - top - BADGE_PADDING,
            ) {
                255
            } else {
                under / 3
            }
        }),
{
    if has_badge(px_w, px_h, text) {
        let left = badge_left(px_w, text);
        let top = badge_top(px_h);
        let k = pixel_at(stride, x, y) + channel;
        let ground = painted_rect(
            buf,
            stride,
            left,
            top,
            badge_width(text) as nat,
            BADGE_HEIGHT as nat,
            shade(),
        );
        lemma_painted_rect_byte(
            buf,
            stride,
            left,
            top,
            badge_width(text) as nat,
            BADGE_HEIGHT as nat,
            shade(),
            x,
            y,
            channel,
        );
        lemma_painted_text_byte(
            ground,
            stride,
            left + BADGE_PADDING,
            top + BADGE_PADDING,
            text,
            x,
            y,
            channel,
        );
        if channel < 3 {
            law_shade_leaves_a_third(buf[k], channel);
        }
    }
}

/// Whether byte `k` belongs to one of the `width` pixels from column `left` of
/// row `y` on.
pub open spec fn in_row(stride: int, left: int, width: int, y: int, k: int) -> bool {
    pixel_at(stride, left, y) <= k < pixel_at(stride, left + width, y)
}

/// Whether byte `k` belongs to a pixel of a rectangle.
pub open spec fn in_rect(
    stride: int,
    left: int,
    top: int,
    width: int,
    height: int,
    k: int,
) -> bool {
    exists|y: int| top <= y < top + height && #[trigger] in_row(stride, left, width, y, k)
}

/// A part of a rectangle holds only bytes that the rectangle holds.
proof fn lemma_part_of_rect(
    stride: int,
    left: int,
    top: int,
    width: int,
    height: int,
    x: int,
    y: int,
    w: int,
    h: int,
    k: int,
)
    requires
        left <= x,
        x + w <= left + width,
        top <= y,
        y + h <= top + height,
        in_rect(stride, x, y, w, h, k),
    ensures
        in_rect(stride, left, top, width, height, k),
{
    let row = choose|row: int| y <= row < y + h && #[trigger] in_row(stride, x, w, row, k);
    assert(in_row(stride, left, width, row, k));
}

proof fn lemma_painted_rect_keeps(
    buf: Seq<u8>,
    stride: int,
    left: int,
    top: int,
    width: nat,
    height: nat,
    color: Seq<u8>,
    k: int,
)
    requires
        0 <= k < buf.len(),
        !in_rect(stride, left, top, width as int, height as int, k),
    ensures
        painted_rect(buf, stride, left, top, width, height, color).len() == buf.len(),
        painted_rect(buf, stride, left, top, width, height, color)[k] == buf[k],
    decreases height,
{
    if height > 0 {
        let above = (height - 1) as nat;
        if in_rect(stride, left, top, width as int, above as int, k) {
            lemma_part_of_rect(
                stride,
                left,
                top,
                width as int,
                height as int,
                left,
                top,
                width as int,
                above as int,
                k,
            );
        }
        lemma_painted_rect_keeps(buf, stride, left, top, width, above, color, k);
        assert(!in_row(stride, left, width as int, top + above, k));
    }
}

proof fn lemma_painted_glyph_keeps(
    buf: Seq<u8>,
    stride: int,
    left: int,
    top: int,
    rows: Seq<u8>,
    cells: nat,
    k: int,
)
    requires
        cells <= 15,
        0 <= k < buf.len(),
        !in_rect(stride, left, top, 18, 30, k),
    ensures
        painted_glyph(buf, stride, left, top, rows, cells).len() == buf.len(),
        painted_glyph(buf, stride, left, top, rows, cells)[k] == buf[k],
    decreases cells,
{
    if cells > 0 {
        let before = painted_glyph(buf, stride, left, top, rows, (cells - 1) as nat);
        lemma_painted_glyph_keeps(buf, stride, left, top, rows, (cells - 1) as nat, k);
        let x = left + (cells - 1) % 3 * BLOCK;
        let y = top + (cells - 1) / 3 * BLOCK;
        if in_rect(stride, x, y, BLOCK as int, BLOCK as int, k) {
            lemma_part_of_rect(
                stride,
                left,
                top,
                18,
                30,
                x,
                y,
                BLOCK as int,
                BLOCK as int,
                k,
            );
        }
        lemma_painted_rect_keeps(before, stride, x, y, BLOCK as nat, BLOCK as nat, ink(), k);
    }
}

proof fn lemma_painted_text_keeps(
    buf: Seq<u8>,
    stride: int,
    left: int,
    top: int,
    text: Seq<char>,
    k: int,
)
    requires
        0 <= k < buf.len(),
        !in_rect(stride, left, top, text.len() * GLYPH_ADVANCE - BLOCK, 30, k),
    ensures
        painted_text(buf, stride, left, top, text).len() == buf.len(),
        painted_text(buf, stride, left, top, text)[k] == buf[k],
    decreases text.len(),
{
    if text.len() > 0 {
        let width = text.len() * GLYPH_ADVANCE - BLOCK;
        let front = text.drop_last();
        let front_width = front.len() * GLYPH_ADVANCE - BLOCK;
        if in_rect(stride, left, top, front_width, 30, k) {
            lemma_part_of_rect(stride, left, top, width, 30, left, top, front_width, 30, k);
        }
        lemma_painted_text_keeps(buf, stride, left, top, front, k);
        let x = left + (text.len() - 1) * GLYPH_ADVANCE;
        if in_rect(stride, x, top, 18, 30, k) {
            lemma_part_of_rect(stride, left, top, width, 30, x, top, 18, 30, k);
        }
        lemma_painted_glyph_keeps(
            painted_text(buf, stride, left, top, front),
            stride,
            x,
            top,
            glyph_rows(text.last()),
            15,
            k,
        );
    }
}

/// A badge leaves every byte outside of its own rectangle as it was, those
/// between the rows of the frame and those after its last row among them. A
/// frame without a badge keeps all its bytes.
pub proof fn law_a_badge_keeps_to_its_rectangle(
    buf: Seq<u8>,
    px_w: int,
    px_h: int,
    stride: int,
    text: Seq<char>,
    k: int,
)
    requires
        0 <= k < buf.len(),
        has_badge(px_w, px_h, text) ==> !in_rect(
            stride,
            badge_left(px_w, text),
            badge_top(px_h),
            badge_width(text),
            BADGE_HEIGHT as int,
            k,
        ),
    ensures
        with_badge(buf, px_w, px_h, stride, text).len() == buf.len(),
        with_badge(buf, px_w, px_h, stride, text)[k] == buf[k],
{
    if has_badge(px_w, px_h, text) {
        let left = badge_left(px_w, text);
        let top = badge_top(px_h);
        let width = badge_width(text);
        let height = BADGE_HEIGHT as int;
        let x = left + BADGE_PADDING;
        let y = top + BADGE_PADDING;
        let text_width = text.len() * GLYPH_ADVANCE - BLOCK;
        lemma_painted_rect_keeps(
            buf,
            stride,
            left,
            top,
            width as nat,
            BADGE_HEIGHT as nat,
            shade(),
            k,
        );
        if in_rect(stride, x, y, text_width, 30, k) {
            lemma_part_of_rect(stride, left, top, width, height, x, y, text_width, 30, k);
        }
        lemma_painted_text_keeps(
            painted_rect(buf, stride, left, top, width as nat, BADGE_HEIGHT as nat, shade()),
            stride,
            x,
            y,
            text,
            k,
        );
    }
}

/// A mixed channel is the mean of the two, weighted by the opacity out of 255
/// and rounded down.
pub proof fn law_mix_is_the_weighted_mean(under: u8, over: u8, alpha: u8)
    ensures
        255 * mix(under, over, alpha) <= over * alpha + under * (255 - alpha) < 255 * mix(
            under,
            over,
            alpha,
        ) + 255,
{
    let sum = over * alpha + under * (255 - alpha);
    assert(0 <= sum <= 255 * 255) by (nonlinear_arith)
        requires
            0 <= alpha <= 255,
            0 <= over <= 255,
            0 <= under <= 255,
            sum == over * alpha + under * (255 - alpha),
    ;
}

/// Blending puts the red, green and blue of the color over the pixel's third,
/// second and first byte, each as the weighted mean.
pub proof fn law_blending_mixes_each_channel(buf: Seq<u8>, at: int, color: Seq<u8>, channel: int)
    requires
        0 <= at,
        at + 4 <= buf.len(),
        color.len() == 4,
        0 <= channel < 3,
    ensures
        ({
            let under = buf[at + channel];
            let over = color[2 - channel];
            let alpha = color[3];
            let mixed = blended(buf, at, color)[at + channel];
            255 * mixed <= over * alpha + under * (255 - alpha) < 255 * mixed + 255
        }),
        blended(buf, at, color)[at + 3] == 255,
{
    law_mix_is_the_weighted_mean(buf[at + channel], color[2 - channel], color[3]);
}

/// The pixel of a glyph row in a column, read off the row's binary digits.
pub open spec fn lit(row: u8, column: int) -> bool {
    if column == 0 {
        row / 4 % 2 == 1
    } else if column == 1 {
        row / 2 % 2 == 1
    } else {
        row % 2 == 1
    }
}

/// Where a badge stands, in pixels: for a text of `n` characters it is
/// `24 n + 18` pixels wide and 54 high, 24 away from the right and the lower
/// edge of the frame, and not there at all where that does not fit. Glyphs
/// start 12 pixels inside of it, every 24 pixels, each of their pixels a
/// square of 6.
pub proof fn law_where_a_badge_stands(
    buf: Seq<u8>,
    px_w: int,
    px_h: int,
    stride: int,
    text: Seq<char>,
    x: int,
    y: int,
    channel: int,
)
    requires
        text.len() > 0,
        4 * px_w <= stride,
        0 <= x < px_w,
        0 <= y,
        0 <= channel < 4,
        0 <= y * stride + 4 * x + channel < buf.len(),
    ensures
        ({
            let n = text.len() as int;
            let under = buf[y * stride + 4 * x + channel];
            let bx = x - (px_w - 24 * n - 42);
            let by = y - (px_h - 78);
            let fits = px_w >= 24 * n + 42 && px_h >= 78;
            let tx = bx - 12;
            let ty = by - 12;
            let ink = 0 <= tx < 24 * n && 0 <= ty < 30 && tx % 24 < 18 && lit(
                glyph_rows(text[tx / 24])[ty / 6],
                tx % 24 / 6,
            );
            with_badge(buf, px_w, px_h, stride, text)[y * stride + 4 * x + channel] == (if !fits
                || !(0 <= bx < 24 * n + 18) || !(0 <= by < 54) {
                under
            } else if channel == 3 || ink {
                255
            } else {
                under / 3
            })
        }),
{
    law_badge_pixels(buf, px_w, px_h, stride, text, x, y, channel);
    let n = text.len() as int;
    let tx = x - (px_w - 24 * n - 42) - 12;
    let ty = y - (px_h - 78) - 12;
    if 0 <= tx < 24 * n && 0 <= ty < 30 {
        let c = text[tx / 24];
        let row = glyph_rows(c)[ty / 6];
        crate::font::law_glyphs_fit_their_cell(c);
        vstd::arithmetic::power2::lemma2_to64();
        assert(0 <= ty / 6 < 5);
        assert(row < 8);
        crate::font::law_rows_are_read_from_the_left(row);
    }
}

/// A badge can be drawn where its edges are 32-bit numbers and, if the frame is
/// large enough for it, its last row and column have 32-bit offsets and its last
/// pixel lies in the buffer; rows that run backwards are out.
pub proof fn law_where_a_badge_can_be_drawn(
    px_w: int,
    px_h: int,
    stride: int,
    text: Seq<char>,
    len: int,
)
    ensures
        ({
            let n = text.len() as int;
            badge_in_bounds(px_w, px_h, stride, text, len) <==> {
                &&& px_w - 24 * n - 42 >= i32::MIN
                &&& px_h - 78 >= i32::MIN
                &&& px_w >= 24 * n + 42 && px_h >= 78 ==> {
                    &&& stride >= 0
                    &&& (px_h - 25) * stride <= i32::MAX
                    &&& 4 * (px_w - 25) <= i32::MAX
                    &&& (px_h - 25) * stride + 4 * (px_w - 24) <= len
                }
            }
        }),
{
}

} // verus!
