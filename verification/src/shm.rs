//! Shared memory for pixel buffers.

use vstd::prelude::*;

verus! {

/// Code of the pixel format that overlays are drawn in: blue, green, red,
/// alpha, each a byte.
pub const ARGB8888: u32 = 0;

/// How much shared memory a buffer takes.
#[derive(Clone, Copy, Debug, PartialEq, Eq, Structural)]
pub struct ShmSize {
    /// Bytes of memory.
    pub bytes: u64,
    /// The same number as the compositor is told it, in 32 bits.
    pub pool: i32,
}

/// The memory for a buffer of `height` rows that are `stride` bytes apart.
/// There is none for a buffer without bytes.
pub fn shm_size(height: i32, stride: i32) -> (size: Option<ShmSize>)
    ensures
        size is Some <==> stride * height > 0,
        size matches Some(s) ==> s.bytes == stride * height,
        size matches Some(s) ==> (stride * height - s.pool) % 0x1_0000_0000 == 0,
        size matches Some(s) ==> stride * height <= i32::MAX ==> s.pool == stride * height,
{
    proof {
        assert(-0x4000_0000_0000_0000 <= stride * height <= 0x4000_0000_0000_0000)
            by (nonlinear_arith)
            requires
                i32::MIN <= stride <= i32::MAX,
                i32::MIN <= height <= i32::MAX,
        ;
    }
    let size: i64 = stride as i64 * height as i64;
    if size <= 0 {
        return None;
    }
    let pool: i32 = size as i32;
    assert((size - pool) % 0x1_0000_0000 == 0) by (bit_vector)
        requires
            pool == size as i32,
    ;
    Some(ShmSize { bytes: size as u64, pool })
}

/// Bytes from one row to the next in a buffer whose rows, `width` pixels each,
/// follow one another, if that is a 32-bit number.
pub open spec fn packed_stride(width: i32) -> Option<i32> {
    if i32::MIN <= 4 * width <= i32::MAX {
        Some((4 * width) as i32)
    } else {
        None
    }
}

/// Bytes from one row to the next in a buffer whose rows, `width` pixels each,
/// follow one another, if that is a 32-bit number.
pub fn row_bytes(width: i32) -> (stride: Option<i32>)
    ensures
        stride == packed_stride(width),
{
    width.checked_mul(4)
}

/// Four bytes make a pixel: the rows of a buffer without gaps are four times as
/// many bytes apart as they have pixels, wherever that is a 32-bit number.
pub proof fn law_a_pixel_takes_four_bytes(width: i32)
    ensures
        packed_stride(width) matches Some(stride) ==> stride == 4 * width,
        packed_stride(width) is Some <==> -536_870_912 <= width <= 536_870_911,
{
}

} // verus!
