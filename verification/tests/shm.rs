use niri_zoom::shm::{row_bytes, shm_size, ShmSize};

#[test]
fn buffers_take_height_times_stride_bytes() {
    assert_eq!(shm_size(1080, 7680), Some(ShmSize { bytes: 8_294_400, pool: 8_294_400 }));
    assert_eq!(shm_size(1, 1), Some(ShmSize { bytes: 1, pool: 1 }));
    assert_eq!(shm_size(-2, -3), Some(ShmSize { bytes: 6, pool: 6 }));
}

#[test]
fn buffers_without_bytes_take_none() {
    assert_eq!(shm_size(0, 100), None);
    assert_eq!(shm_size(100, 0), None);
    assert_eq!(shm_size(-1, 100), None);
    assert_eq!(shm_size(100, -1), None);
}

#[test]
fn large_buffers_keep_their_size() {
    let size = shm_size(i32::MAX, i32::MAX).unwrap();
    assert_eq!(size.bytes, 4_611_686_014_132_420_609);
    assert_eq!(size.pool, 1);
    assert_eq!(shm_size(1, i32::MAX), Some(ShmSize { bytes: 2_147_483_647, pool: i32::MAX }));
}

#[test]
fn rows_take_four_bytes_a_pixel() {
    assert_eq!(row_bytes(1920), Some(7680));
    assert_eq!(row_bytes(-3), Some(-12));
    assert_eq!(row_bytes(536_870_911), Some(2_147_483_644));
    assert_eq!(row_bytes(536_870_912), None);
    assert_eq!(row_bytes(i32::MIN), None);
}
