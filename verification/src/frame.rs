//! Frames of the overlay: a captured image sampled pixel by pixel, with the
//! badge of the zoom level in the corner.
//!
//! Which source column each column of the frame shows, and which source row
//! each row, comes from outside as two lists of positions. A position beyond
//! an edge of the image stands for the edge.

use crate::paint::{
    badge_in_bounds, badge_left, badge_top, badge_width, draw_badge, has_badge, pixel_at, with_badge,
    BADGE_HEIGHT, BADGE_MARGIN,
};
use crate::paint_laws::{law_badge_pixels, law_where_a_badge_stands};
use crate::zoom::{decimal, label, lemma_label_len};
use vstd::prelude::*;

verus! {

/// A captured output: rows `stride` bytes apart, four bytes to a pixel.
pub struct CapturedImage {
    /// Pixels in a row.
    pub width: i32,
    /// Rows.
    pub height: i32,
    /// Bytes from one row to the next.
    pub stride: i32,
    /// The rows.
    pub bytes: Vec<u8>,
}

/// What a [`CapturedImage`] holds.
#[verifier::ext_equal]
pub struct ImageView {
    /// Pixels in a row.
    pub width: i32,
    /// Rows.
    pub height: i32,
    /// Bytes from one row to the next.
    pub stride: i32,
    /// The rows.
    pub bytes: Seq<u8>,
}

impl View for CapturedImage {
    type V = ImageView;

    open spec fn view(&self) -> ImageView {
        ImageView {
            width: self.width,
            height: self.height,
            stride: self.stride,
            bytes: self.bytes@,
        }
    }
}

/// The position nearest to `position` on a line of `size` pixels.
pub open spec fn clamped(position: int, size: int) -> int {
    if position < 0 {
        0
    } else if position >= size {
        size - 1
    } else {
        position
    }
}

impl ImageView {
    /// The byte offset of the row that stands for the row position `row`.
    pub open spec fn row_offset(self, row: i32) -> int {
        clamped(row as int, self.height as int) * self.stride
    }

    /// The offset in its row of the pixel that stands for the column position
    /// `column`.
    pub open spec fn column_offset(self, column: i32) -> int {
        4 * clamped(column as int, self.width as int)
    }
}

/// The positions that a frame samples: a source column for each of its columns
/// and a source row for each of its rows.
#[verifier::ext_equal]
pub struct Sampling {
    /// Source columns, from left to right.
    pub columns: Seq<i32>,
    /// Source rows, from top to bottom.
    pub rows: Seq<i32>,
}

/// Whether an image holds the pixel that a frame shows in column `dx` of row
/// `dy`, at offsets that are 32-bit numbers.
pub open spec fn sample_in_bounds(image: ImageView, sampling: Sampling, dx: int, dy: int) -> bool {
    &&& 0 <= image.row_offset(sampling.rows[dy]) <= i32::MAX
    &&& image.column_offset(sampling.columns[dx]) <= i32::MAX
    &&& image.row_offset(sampling.rows[dy]) + image.column_offset(sampling.columns[dx]) + 4
        <= image.bytes.len()
}

/// Whether a frame of `px_w` by `px_h` pixels can be drawn into a buffer of
/// `len` bytes: there is a position for each column and row, the image holds
/// the pixels there, the buffer has room for the frame, and the offsets
/// involved are 32-bit numbers.
pub open spec fn frame_in_bounds(
    image: ImageView,
    sampling: Sampling,
    px_w: int,
    px_h: int,
    len: int,
) -> bool {
    &&& i32::MIN <= 4 * px_w <= i32::MAX
    &&& i32::MIN <= badge_top(px_h)
    &&& px_w > 0 && px_h > 0 ==> {
        &&& image.width >= 1
        &&& image.height >= 1
        &&& px_w <= sampling.columns.len()
        &&& px_h <= sampling.rows.len()
        &&& (px_h - 1) * (4 * px_w) <= i32::MAX
        &&& px_h * (4 * px_w) <= len
        &&& forall|dx: int, dy: int|
            0 <= dx < px_w && 0 <= dy < px_h ==> #[trigger] sample_in_bounds(
                image,
                sampling,
                dx,
                dy,
            )
    }
}

/// The byte of the image that byte `k` of a frame `px_w` pixels wide shows.
pub open spec fn sampled_byte(image: ImageView, sampling: Sampling, px_w: int, k: int) -> u8 {
    let row = k / (4 * px_w);
    let rest = k % (4 * px_w);
    image.bytes[image.row_offset(sampling.rows[row]) + image.column_offset(
        sampling.columns[rest / 4],
    ) + rest % 4]
}

/// `buf` with its first bytes replaced by a sampled frame, its rows one right
/// after the other. A frame without pixels changes nothing.
pub open spec fn resampled(
    buf: Seq<u8>,
    image: ImageView,
    sampling: Sampling,
    px_w: int,
    px_h: int,
) -> Seq<u8> {
    Seq::new(
        buf.len(),
        |k: int|
            if px_w > 0 && px_h > 0 && k < px_h * (4 * px_w) {
                sampled_byte(image, sampling, px_w, k)
            } else {
                buf[k]
            },
    )
}

/// The position nearest to `position` on a line of `size` pixels.
pub fn clamp_position(position: i32, size: i32) -> (nearest: i32)
    requires
        size >= 1,
    ensures
        nearest == clamped(position as int, size as int),
{
    if position < 0 {
        0
    } else if position >= size {
        size - 1
    } else {
        position
    }
}

/// The place of a pixel's bytes in a frame whose rows follow one another.
proof fn lemma_frame_byte(px_w: int, dx: int, dy: int, channel: int)
    requires
        0 <= dx < px_w,
        0 <= dy,
        0 <= channel < 4,
    ensures
        ({
            let k = dy * (4 * px_w) + 4 * dx + channel;
            &&& k / (4 * px_w) == dy
            &&& k % (4 * px_w) == 4 * dx + channel
            &&& (k % (4 * px_w)) / 4 == dx
            &&& (k % (4 * px_w)) % 4 == channel
        }),
{
    vstd::arithmetic::div_mod::lemma_fundamental_div_mod_converse(
        dy * (4 * px_w) + 4 * dx + channel,
        4 * px_w,
        dy,
        4 * dx + channel,
    );
}

proof fn lemma_frame_end(px_w: int, px_h: int, dx: int, dy: int)
    requires
        0 <= dx < px_w,
        0 <= dy < px_h,
    ensures
        0 <= dy * (4 * px_w),
        dy * (4 * px_w) <= (px_h - 1) * (4 * px_w),
        dy * (4 * px_w) + 4 * dx + 4 <= px_h * (4 * px_w),
{
    assert(0 <= dy * (4 * px_w) <= (px_h - 1) * (4 * px_w)) by (nonlinear_arith)
        requires
            0 <= dy <= px_h - 1,
            0 <= px_w,
    ;
    assert((px_h - 1) * (4 * px_w) + 4 * px_w == px_h * (4 * px_w)) by (nonlinear_arith);
}

/// Copies the sampled pixels of an image into a frame of `px_w` by `px_h`
/// pixels.
fn resample(
    image: &CapturedImage,
    columns: &[i32],
    rows: &[i32],
    px_w: usize,
    px_h: usize,
    dst: &mut [u8],
)
    requires
        0 < px_w <= i32::MAX,
        0 < px_h <= i32::MAX,
        frame_in_bounds(
            image@,
            (Sampling { columns: columns@, rows: rows@ }),
            px_w as int,
            px_h as int,
            old(dst)@.len() as int,
        ),
    ensures
        final(dst)@ == resampled(
            old(dst)@,
            image@,
            (Sampling { columns: columns@, rows: rows@ }),
            px_w as int,
            px_h as int,
        ),
{
    let ghost sampling = Sampling { columns: columns@, rows: rows@ };
    let stride: usize = 4 * px_w;
    let len: usize = dst.len();
    let mut dy: usize = 0;
    while dy < px_h
        invariant
            0 < px_w <= i32::MAX,
            0 < px_h <= i32::MAX,
            dy <= px_h,
            stride == 4 * px_w,
            len == dst@.len() == old(dst)@.len(),
            sampling == (Sampling { columns: columns@, rows: rows@ }),
            frame_in_bounds(image@, sampling, px_w as int, px_h as int, len as int),
            forall|k: int|
                0 <= k < len ==> #[trigger] dst@[k] == if k < dy * (4 * px_w) {
                    sampled_byte(image@, sampling, px_w as int, k)
                } else {
                    old(dst)@[k]
                },
        decreases px_h - dy,
    {
        proof {
            assert(sample_in_bounds(image@, sampling, 0, dy as int));
            lemma_frame_end(px_w as int, px_h as int, 0, dy as int);
        }
        let sy: i32 = clamp_position(rows[dy], image.height);
        let src_row: usize = (sy * image.stride) as usize;
        let dst_row: usize = dy * stride;
        let mut dx: usize = 0;
        while dx < px_w
            invariant
                0 < px_w <= i32::MAX,
                0 < px_h <= i32::MAX,
                dy < px_h,
                dx <= px_w,
                dst_row == dy * (4 * px_w),
                src_row == image@.row_offset(sampling.rows[dy as int]),
                len == dst@.len() == old(dst)@.len(),
                sampling == (Sampling { columns: columns@, rows: rows@ }),
                frame_in_bounds(image@, sampling, px_w as int, px_h as int, len as int),
                forall|k: int|
                    0 <= k < len ==> #[trigger] dst@[k] == if k < dst_row + 4 * dx {
                        sampled_byte(image@, sampling, px_w as int, k)
                    } else {
                        old(dst)@[k]
                    },
            decreases px_w - dx,
        {
            proof {
                assert(sample_in_bounds(image@, sampling, dx as int, dy as int));
                lemma_frame_end(px_w as int, px_h as int, dx as int, dy as int);
                lemma_frame_byte(px_w as int, dx as int, dy as int, 0);
                lemma_frame_byte(px_w as int, dx as int, dy as int, 1);
                lemma_frame_byte(px_w as int, dx as int, dy as int, 2);
                lemma_frame_byte(px_w as int, dx as int, dy as int, 3);
            }
            let sx: i32 = clamp_position(columns[dx], image.width);
            let from: usize = src_row + 4 * sx as usize;
            let to: usize = dst_row + 4 * dx;
            dst[to] = image.bytes[from];
            dst[to + 1] = image.bytes[from + 1];
            dst[to + 2] = image.bytes[from + 2];
            dst[to + 3] = image.bytes[from + 3];
            dx += 1;
        }
        proof {
            assert((dy + 1) * (4 * px_w) == dy * (4 * px_w) + 4 * px_w) by (nonlinear_arith);
        }
        dy += 1;
    }
}

/// A frame that can be drawn has room for its badge.
proof fn lemma_badge_in_frame(
    image: ImageView,
    sampling: Sampling,
    px_w: int,
    px_h: int,
    zoom: u32,
    len: int,
)
    requires
        frame_in_bounds(image, sampling, px_w, px_h, len),
    ensures
        badge_in_bounds(px_w, px_h, 4 * px_w, label(zoom), len),
{
    lemma_label_len(zoom);
    if has_badge(px_w, px_h, label(zoom)) {
        let right = badge_left(px_w, label(zoom)) + badge_width(label(zoom));
        let bottom = badge_top(px_h) + BADGE_HEIGHT;
        lemma_frame_end(px_w, px_h, right - 1, bottom - 1);
    }
}

/// Draws a frame of `px_w` by `px_h` pixels: the sampled pixels of an image,
/// and the badge of the zoom level over them.
pub fn draw_frame(
    image: &CapturedImage,
    columns: &[i32],
    rows: &[i32],
    px_w: i32,
    px_h: i32,
    zoom: u32,
    dst: &mut [u8],
)
    requires
        frame_in_bounds(
            image@,
            (Sampling { columns: columns@, rows: rows@ }),
            px_w as int,
            px_h as int,
            old(dst)@.len() as int,
        ),
    ensures
        final(dst)@ == with_badge(
            resampled(
                old(dst)@,
                image@,
                (Sampling { columns: columns@, rows: rows@ }),
                px_w as int,
                px_h as int,
            ),
            px_w as int,
            px_h as int,
            4 * px_w,
            label(zoom),
        ),
        final(dst)@.len() == old(dst)@.len(),
{
    let ghost sampling = Sampling { columns: columns@, rows: rows@ };
    if px_w > 0 && px_h > 0 {
        resample(image, columns, rows, px_w as usize, px_h as usize, dst);
    } else {
        assert(dst@ == resampled(dst@, image@, sampling, px_w as int, px_h as int));
    }
    proof {
        lemma_badge_in_frame(image@, sampling, px_w as int, px_h as int, zoom, dst@.len() as int);
    }
    draw_badge(dst, px_w, px_h, 4 * px_w, zoom);
}

/// The greatest offset among `count` row positions, if each is a 32-bit number
/// that is not negative.
fn last_row_offset(image: &CapturedImage, rows: &[i32], count: usize) -> (last: Option<i64>)
    requires
        0 < count <= rows@.len(),
        image.height >= 1,
    ensures
        last matches Some(m) ==> {
            &&& forall|i: int|
                0 <= i < count ==> 0 <= #[trigger] image@.row_offset(rows@[i]) <= m
            &&& exists|i: int| 0 <= i < count && #[trigger] image@.row_offset(rows@[i]) == m
            &&& m <= i32::MAX
        },
        last is None ==> exists|i: int|
            0 <= i < count && !(0 <= #[trigger] image@.row_offset(rows@[i]) <= i32::MAX),
{
    let mut last: i64 = 0;
    let ghost mut at: int = 0;
    let mut i: usize = 0;
    while i < count
        invariant
            i <= count <= rows@.len(),
            image.height >= 1,
            0 <= last <= i32::MAX,
            forall|j: int| 0 <= j < i ==> 0 <= #[trigger] image@.row_offset(rows@[j]) <= last,
            0 <= at <= i,
            i > 0 ==> at < i && image@.row_offset(rows@[at]) == last,
            i == 0 ==> last == 0,
        decreases count - i,
    {
        let sy: i32 = clamp_position(rows[i], image.height);
        proof {
            assert(i32::MAX * i32::MIN <= sy * image.stride <= i32::MAX * i32::MAX)
                by (nonlinear_arith)
                requires
                    0 <= sy <= i32::MAX,
                    i32::MIN <= image.stride <= i32::MAX,
            ;
        }
        let offset: i64 = sy as i64 * image.stride as i64;
        assert(offset == image@.row_offset(rows@[i as int]));
        if offset < 0 || offset > i32::MAX as i64 {
            return None;
        }
        if i == 0 || offset > last {
            proof {
                at = i as int;
            }
            last = offset;
        }
        i += 1;
    }
    Some(last)
}

/// The greatest offset among `count` column positions, if each is a 32-bit
/// number.
fn last_column_offset(image: &CapturedImage, columns: &[i32], count: usize) -> (last: Option<i64>)
    requires
        0 < count <= columns@.len(),
        image.width >= 1,
    ensures
        last matches Some(m) ==> {
            &&& forall|i: int|
                0 <= i < count ==> 0 <= #[trigger] image@.column_offset(columns@[i]) <= m
            &&& exists|i: int| 0 <= i < count && #[trigger] image@.column_offset(columns@[i]) == m
            &&& m <= i32::MAX
        },
        last is None ==> exists|i: int|
            0 <= i < count && #[trigger] image@.column_offset(columns@[i]) > i32::MAX,
{
    let mut last: i64 = 0;
    let ghost mut at: int = 0;
    let mut i: usize = 0;
    while i < count
        invariant
            i <= count <= columns@.len(),
            image.width >= 1,
            0 <= last <= i32::MAX,
            forall|j: int| 0 <= j < i ==> 0 <= #[trigger] image@.column_offset(columns@[j]) <= last,
            0 <= at <= i,
            i > 0 ==> at < i && image@.column_offset(columns@[at]) == last,
            i == 0 ==> last == 0,
        decreases count - i,
    {
        let sx: i32 = clamp_position(columns[i], image.width);
        let offset: i64 = 4 * sx as i64;
        assert(offset == image@.column_offset(columns@[i as int]));
        if offset > i32::MAX as i64 {
            return None;
        }
        if i == 0 || offset > last {
            proof {
                at = i as int;
            }
            last = offset;
        }
        i += 1;
    }
    Some(last)
}

/// Whether [`draw_frame`] can draw a frame of `px_w` by `px_h` pixels into a
/// buffer of `len` bytes.
pub fn frame_fits(
    image: &CapturedImage,
    columns: &[i32],
    rows: &[i32],
    px_w: i32,
    px_h: i32,
    len: usize,
) -> (fits: bool)
    ensures
        fits == frame_in_bounds(
            image@,
            (Sampling { columns: columns@, rows: rows@ }),
            px_w as int,
            px_h as int,
            len as int,
        ),
{
    let ghost sampling = Sampling { columns: columns@, rows: rows@ };
    let stride: i64 = 4 * px_w as i64;
    let top: i64 = px_h as i64 - BADGE_HEIGHT as i64 - BADGE_MARGIN as i64;
    if stride < i32::MIN as i64 || stride > i32::MAX as i64 || top < i32::MIN as i64 {
        return false;
    }
    if px_w <= 0 || px_h <= 0 {
        return true;
    }
    proof {
        assert(0 <= (px_h - 1) * stride <= px_h * stride <= i32::MAX * i32::MAX)
            by (nonlinear_arith)
            requires
                0 < px_h <= i32::MAX,
                0 <= stride <= i32::MAX,
        ;
    }
    if image.width < 1 || image.height < 1 || (px_w as usize) > columns.len() || (px_h as usize)
        > rows.len() || (px_h as i64 - 1) * stride > i32::MAX as i64 || (px_h as i64 * stride) as u64
        > len as u64 {
        return false;
    }
    let row = match last_row_offset(image, rows, px_h as usize) {
        Some(row) => row,
        None => {
            proof {
                let i = choose|i: int|
                    0 <= i < px_h && !(0 <= #[trigger] image@.row_offset(rows@[i]) <= i32::MAX);
                assert(!sample_in_bounds(image@, sampling, 0, i));
            }
            return false;
        },
    };
    let column = match last_column_offset(image, columns, px_w as usize) {
        Some(column) => column,
        None => {
            proof {
                let i = choose|i: int|
                    0 <= i < px_w && #[trigger] image@.column_offset(columns@[i]) > i32::MAX;
                assert(!sample_in_bounds(image@, sampling, i, 0));
            }
            return false;
        },
    };
    let fits = (row + column + 4) as u64 <= image.bytes.len() as u64;
    proof {
        let dy = choose|i: int| 0 <= i < px_h && #[trigger] image@.row_offset(rows@[i]) == row;
        let dx = choose|i: int|
            0 <= i < px_w && #[trigger] image@.column_offset(columns@[i]) == column;
        if !fits {
            assert(!sample_in_bounds(image@, sampling, dx, dy));
        } else {
            assert forall|dx: int, dy: int|
                0 <= dx < px_w && 0 <= dy < px_h implies #[trigger] sample_in_bounds(
                image@,
                sampling,
                dx,
                dy,
            ) by {
                assert(0 <= image@.row_offset(rows@[dy]) <= row);
                assert(0 <= image@.column_offset(columns@[dx]) <= column);
            }
        }
    }
    fits
}

/// A position is clamped into the image, and one inside it stays.
pub proof fn law_clamping_stays_inside(position: int, size: int)
    requires
        size >= 1,
    ensures
        0 <= clamped(position, size) < size,
        0 <= position < size ==> clamped(position, size) == position,
{
}

/// A frame of an image that is there in full, with offsets that are 32-bit
/// numbers, can be drawn whatever positions it samples, into any buffer that
/// has room for its pixels.
pub proof fn law_whole_images_can_be_drawn(
    image: ImageView,
    sampling: Sampling,
    px_w: int,
    px_h: int,
    len: int,
)
    requires
        1 <= image.width,
        1 <= image.height,
        4 * image.width <= image.stride,
        image.height * image.stride <= image.bytes.len(),
        image.height * image.stride <= i32::MAX,
        1 <= px_w <= sampling.columns.len(),
        1 <= px_h <= sampling.rows.len(),
        px_h * (4 * px_w) <= i32::MAX,
        px_h * (4 * px_w) <= len,
    ensures
        frame_in_bounds(image, sampling, px_w, px_h, len),
{
    lemma_frame_end(px_w, px_h, 0, px_h - 1);
    assert(4 * px_w <= px_h * (4 * px_w)) by (nonlinear_arith)
        requires
            px_w >= 1,
            px_h >= 1,
    ;
    assert forall|dx: int, dy: int| 0 <= dx < px_w && 0 <= dy < px_h implies #[trigger] sample_in_bounds(
        image,
        sampling,
        dx,
        dy,
    ) by {
        let row = clamped(sampling.rows[dy] as int, image.height as int);
        let h = image.height as int;
        let stride = image.stride as int;
        assert(0 <= row * stride && row * stride + stride <= h * stride) by (nonlinear_arith)
            requires
                0 <= row <= h - 1,
                0 <= stride,
        ;
    }
}

/// Each pixel of a frame outside the badge's rectangle shows the source pixel
/// that its column and its row sample.
pub proof fn law_frame_shows_the_sampled_pixels(
    buf: Seq<u8>,
    image: ImageView,
    sampling: Sampling,
    px_w: int,
    px_h: int,
    zoom: u32,
    x: int,
    y: int,
    channel: int,
)
    requires
        frame_in_bounds(image, sampling, px_w, px_h, buf.len() as int),
        0 <= x < px_w,
        0 <= y < px_h,
        0 <= channel < 4,
        !has_badge(px_w, px_h, label(zoom)) || x < badge_left(px_w, label(zoom)) || x >= badge_left(
            px_w,
            label(zoom),
        ) + badge_width(label(zoom)) || y < badge_top(px_h) || y >= badge_top(px_h) + BADGE_HEIGHT,
    ensures
        with_badge(
            resampled(buf, image, sampling, px_w, px_h),
            px_w,
            px_h,
            4 * px_w,
            label(zoom),
        )[pixel_at(4 * px_w, x, y) + channel] == image.bytes[image.row_offset(sampling.rows[y])
            + image.column_offset(sampling.columns[x]) + channel],
{
    lemma_label_len(zoom);
    lemma_frame_byte(px_w, x, y, channel);
    lemma_frame_end(px_w, px_h, x, y);
    law_badge_pixels(
        resampled(buf, image, sampling, px_w, px_h),
        px_w,
        px_h,
        4 * px_w,
        label(zoom),
        x,
        y,
        channel,
    );
}

/// A frame of the image's own size that samples every column and every row in
/// turn is the image itself.
pub proof fn law_sampling_every_pixel_copies_the_image(
    buf: Seq<u8>,
    image: ImageView,
    sampling: Sampling,
)
    requires
        image.width >= 1,
        image.height >= 1,
        image.stride == 4 * image.width,
        image.bytes.len() == image.height * image.stride,
        buf.len() == image.bytes.len(),
        sampling.columns.len() == image.width,
        sampling.rows.len() == image.height,
        forall|i: int| 0 <= i < image.width ==> #[trigger] sampling.columns[i] == i,
        forall|i: int| 0 <= i < image.height ==> #[trigger] sampling.rows[i] == i,
    ensures
        resampled(buf, image, sampling, image.width as int, image.height as int) == image.bytes,
{
    let w = image.width as int;
    let h = image.height as int;
    assert forall|k: int| 0 <= k < buf.len() implies #[trigger] resampled(
        buf,
        image,
        sampling,
        w,
        h,
    )[k] == image.bytes[k] by {
        let row = k / (4 * w);
        let rest = k % (4 * w);
        vstd::arithmetic::div_mod::lemma_fundamental_div_mod(k, 4 * w);
        vstd::arithmetic::div_mod::lemma_mod_bound(k, 4 * w);
        assert(0 <= row < h) by (nonlinear_arith)
            requires
                0 <= k < h * (4 * w),
                k == (4 * w) * row + rest,
                0 <= rest < 4 * w,
                w >= 1,
        ;
        assert(0 <= rest / 4 < w);
        assert(sampling.rows[row] == row && sampling.columns[rest / 4] == rest / 4);
        assert(row * (4 * w) == (4 * w) * row) by (nonlinear_arith);
    }
}

/// A clamped position is the nearest one in the image: no position of the image
/// is closer.
pub proof fn law_clamping_goes_to_the_nearest(position: int, size: int, other: int)
    requires
        0 <= other < size,
    ensures
        position <= 0 ==> clamped(position, size) == 0,
        position >= size - 1 ==> clamped(position, size) == size - 1,
        0 <= position < size ==> clamped(position, size) == position,
        position >= other ==> position - clamped(position, size) <= position - other,
        position <= other ==> clamped(position, size) - position <= other - position,
{
}

/// The pixel in column `x` and row `y` of a sampled frame is, byte for byte, the
/// pixel of the image in the column and row that are sampled there, where a
/// position beyond an edge stands for the edge. Rows of the frame follow one
/// another; those of the image lie a stride apart.
pub proof fn law_a_frame_is_sampled_pixel_by_pixel(
    buf: Seq<u8>,
    image: ImageView,
    sampling: Sampling,
    px_w: int,
    px_h: int,
    x: int,
    y: int,
    sx: int,
    sy: int,
    channel: int,
)
    requires
        frame_in_bounds(image, sampling, px_w, px_h, buf.len() as int),
        0 <= x < px_w,
        0 <= y < px_h,
        0 <= channel < 4,
        0 <= sx < image.width,
        0 <= sy < image.height,
        sampling.columns[x] == sx || (sampling.columns[x] < 0 && sx == 0) || (sampling.columns[x]
            >= image.width && sx == image.width - 1),
        sampling.rows[y] == sy || (sampling.rows[y] < 0 && sy == 0) || (sampling.rows[y]
            >= image.height && sy == image.height - 1),
    ensures
        resampled(buf, image, sampling, px_w, px_h).len() == buf.len(),
        resampled(buf, image, sampling, px_w, px_h)[y * (4 * px_w) + 4 * x + channel]
            == image.bytes[sy * image.stride + 4 * sx + channel],
{
    lemma_frame_byte(px_w, x, y, channel);
    lemma_frame_end(px_w, px_h, x, y);
}

/// Sampling touches the bytes of the frame and none after them.
pub proof fn law_sampling_stays_in_the_frame(
    buf: Seq<u8>,
    image: ImageView,
    sampling: Sampling,
    px_w: int,
    px_h: int,
    k: int,
)
    requires
        0 <= k < buf.len(),
        px_w <= 0 || px_h <= 0 || k >= px_h * (4 * px_w),
    ensures
        resampled(buf, image, sampling, px_w, px_h)[k] == buf[k],
{
}

/// A frame can be drawn wherever the image holds each sampled pixel, there is a
/// position for each column and row, and the buffer has room, as long as the
/// offsets are 32-bit numbers.
pub proof fn law_frames_can_be_drawn_where_the_pixels_are(
    image: ImageView,
    sampling: Sampling,
    px_w: int,
    px_h: int,
    len: int,
)
    requires
        1 <= image.width,
        1 <= image.height,
        0 <= image.stride,
        1 <= px_w <= sampling.columns.len(),
        1 <= px_h <= sampling.rows.len(),
        px_h * (4 * px_w) <= i32::MAX,
        px_h * (4 * px_w) <= len,
        (image.height - 1) * image.stride <= i32::MAX,
        4 * (image.width - 1) <= i32::MAX,
        (image.height - 1) * image.stride + 4 * image.width <= image.bytes.len(),
    ensures
        frame_in_bounds(image, sampling, px_w, px_h, len),
{
    lemma_frame_end(px_w, px_h, 0, px_h - 1);
    assert(4 * px_w <= px_h * (4 * px_w)) by (nonlinear_arith)
        requires
            px_w >= 1,
            px_h >= 1,
    ;
    assert forall|dx: int, dy: int|
        0 <= dx < px_w && 0 <= dy < px_h implies #[trigger] sample_in_bounds(
        image,
        sampling,
        dx,
        dy,
    ) by {
        let row = clamped(sampling.rows[dy] as int, image.height as int);
        let last = image.height - 1;
        let stride = image.stride as int;
        assert(0 <= row * stride <= last * stride) by (nonlinear_arith)
            requires
                0 <= row <= last,
                0 <= stride,
        ;
    }
}

/// A frame without pixels can always be drawn into any buffer, as long as its
/// sizes are not next to the smallest 32-bit number.
pub proof fn law_empty_frames_can_be_drawn(
    image: ImageView,
    sampling: Sampling,
    px_w: int,
    px_h: int,
    len: int,
)
    requires
        px_w <= 0 || px_h <= 0,
        -536_870_912 <= px_w <= 536_870_911,
        i32::MIN + 78 <= px_h,
    ensures
        frame_in_bounds(image, sampling, px_w, px_h, len),
{
}

/// Whether an image holds the pixel nearest to a column and row position.
pub open spec fn holds_nearest(image: ImageView, column: i32, row: i32) -> bool {
    let sx = if column < 0 {
        0
    } else if column < image.width {
        column as int
    } else {
        image.width - 1
    };
    let sy = if row < 0 {
        0
    } else if row < image.height {
        row as int
    } else {
        image.height - 1
    };
    &&& 0 <= sy * image.stride <= i32::MAX
    &&& 4 * sx <= i32::MAX
    &&& sy * image.stride + 4 * sx + 4 <= image.bytes.len()
}

/// Exactly which frames can be drawn: those without pixels; and those that have
/// a position for each column and row, room in the buffer, and an image that
/// holds the pixel nearest to each sampled position. Sizes and offsets have to
/// be 32-bit numbers throughout.
pub proof fn law_which_frames_can_be_drawn(
    image: ImageView,
    sampling: Sampling,
    px_w: int,
    px_h: int,
    len: int,
)
    ensures
        frame_in_bounds(image, sampling, px_w, px_h, len) <==> {
            &&& i32::MIN <= 4 * px_w <= i32::MAX
            &&& i32::MIN + 78 <= px_h
            &&& px_w > 0 && px_h > 0 ==> {
                &&& image.width >= 1
                &&& image.height >= 1
                &&& px_w <= sampling.columns.len()
                &&& px_h <= sampling.rows.len()
                &&& (px_h - 1) * (4 * px_w) <= i32::MAX
                &&& px_h * (4 * px_w) <= len
                &&& forall|x: int, y: int|
                    0 <= x < px_w && 0 <= y < px_h ==> #[trigger] holds_nearest(
                        image,
                        sampling.columns[x],
                        sampling.rows[y],
                    )
            }
        },
{
    assert forall|x: int, y: int| #[trigger]
        sample_in_bounds(image, sampling, x, y) == holds_nearest(
            image,
            sampling.columns[x],
            sampling.rows[y],
        ) by {
        assert(image.row_offset(sampling.rows[y]) == clamped(
            sampling.rows[y] as int,
            image.height as int,
        ) * image.stride);
    }
    assert forall|x: int, y: int| #[trigger]
        holds_nearest(image, sampling.columns[x], sampling.rows[y]) == sample_in_bounds(
            image,
            sampling,
            x,
            y,
        ) by {}
}

/// A drawn frame shows the image and, in its corner, the level: outside of the
/// badge, which is 138 by 54 pixels and 24 away from the lower right corner,
/// each pixel is the sampled one; inside of it each pixel is opaque, and either
/// white or the sampled one at a third of its brightness.
pub proof fn law_a_frame_shows_the_image_and_the_level(
    buf: Seq<u8>,
    image: ImageView,
    sampling: Sampling,
    px_w: int,
    px_h: int,
    zoom: u32,
    x: int,
    y: int,
    sx: int,
    sy: int,
    channel: int,
)
    requires
        100 <= zoom < 1000,
        frame_in_bounds(image, sampling, px_w, px_h, buf.len() as int),
        0 <= x < px_w,
        0 <= y < px_h,
        0 <= channel < 4,
        0 <= sx < image.width,
        0 <= sy < image.height,
        sampling.columns[x] == sx || (sampling.columns[x] < 0 && sx == 0) || (sampling.columns[x]
            >= image.width && sx == image.width - 1),
        sampling.rows[y] == sy || (sampling.rows[y] < 0 && sy == 0) || (sampling.rows[y]
            >= image.height && sy == image.height - 1),
    ensures
        ({
            let source = image.bytes[sy * image.stride + 4 * sx + channel];
            let shown = with_badge(
                resampled(buf, image, sampling, px_w, px_h),
                px_w,
                px_h,
                4 * px_w,
                label(zoom),
            )[y * (4 * px_w) + 4 * x + channel];
            let inside = px_w >= 162 && px_h >= 78 && px_w - 162 <= x < px_w - 24 && px_h - 78 <= y
                < px_h - 24;
            &&& !inside ==> shown == source
            &&& inside && channel == 3 ==> shown == 255
            &&& inside && channel < 3 ==> shown == 255 || shown == source / 3
        }),
{
    assert(decimal((zoom / 100) as nat).len() == 1);
    assert(label(zoom).len() == 5);
    law_a_frame_is_sampled_pixel_by_pixel(
        buf,
        image,
        sampling,
        px_w,
        px_h,
        x,
        y,
        sx,
        sy,
        channel,
    );
    lemma_frame_end(px_w, px_h, x, y);
    law_where_a_badge_stands(
        resampled(buf, image, sampling, px_w, px_h),
        px_w,
        px_h,
        4 * px_w,
        label(zoom),
        x,
        y,
        channel,
    );
}

} // verus!
