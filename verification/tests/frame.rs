use niri_zoom::frame::{clamp_position, draw_frame, frame_fits, CapturedImage};
use niri_zoom::paint::draw_badge;

fn image(width: i32, height: i32, stride: i32) -> CapturedImage {
    CapturedImage {
        width,
        height,
        stride,
        bytes: (0..(stride * height) as usize)
            .map(|i| ((i * 31 + i / 7) % 253) as u8)
            .collect(),
    }
}

fn positions(count: i32) -> Vec<i32> {
    (0..count).collect()
}

#[test]
fn positions_are_clamped_to_the_image() {
    assert_eq!(clamp_position(-1, 10), 0);
    assert_eq!(clamp_position(i32::MIN, 10), 0);
    assert_eq!(clamp_position(0, 10), 0);
    assert_eq!(clamp_position(7, 10), 7);
    assert_eq!(clamp_position(9, 10), 9);
    assert_eq!(clamp_position(10, 10), 9);
    assert_eq!(clamp_position(i32::MAX, 1), 0);
}

#[test]
fn clamping_whole_positions_is_clamping_before_cutting_off() {
    for size in [1, 2, 10, 1920] {
        for step in -4000..8000 {
            let position = step as f64 / 3.0;
            let reference = position.clamp(0.0, (size - 1) as f64) as i32;
            assert_eq!(clamp_position(position as i32, size), reference);
        }
    }
    assert_eq!(clamp_position(f64::NAN as i32, 10), 0);
    assert_eq!(clamp_position(1.0e300 as i32, 10), 9);
}

#[test]
fn sampling_every_pixel_copies_the_image() {
    let image = image(20, 10, 80);
    let mut dst = vec![0; 800];
    draw_frame(&image, &positions(20), &positions(10), 20, 10, 100, &mut dst);
    assert_eq!(dst, image.bytes);
}

#[test]
fn frames_show_the_sampled_pixels() {
    // The image's rows are longer than its pixels.
    let image = image(13, 9, 60);
    let columns = [-3, 0, 5, 12, 13, 400, 5];
    let rows = [8, 8, -1, 4, 9];
    let mut dst = vec![1; 7 * 5 * 4 + 3];
    draw_frame(&image, &columns, &rows, 7, 5, 250, &mut dst);
    for (dy, sy) in [8, 8, 0, 4, 8].iter().enumerate() {
        for (dx, sx) in [0, 0, 5, 12, 12, 12, 5].iter().enumerate() {
            for c in 0..4 {
                assert_eq!(dst[dy * 28 + dx * 4 + c], image.bytes[sy * 60 + sx * 4 + c]);
            }
        }
    }
    assert_eq!(&dst[140..], &[1, 1, 1]);
}

#[test]
fn frames_match_the_plain_sampling() {
    let (src_w, src_h, px_w, px_h) = (240, 130, 240, 130);
    let image = image(src_w, src_h, src_w * 4);
    for (zoom, origin_x, origin_y) in [(100_u32, 0.0, 0.0), (175, 31.4, 12.7), (600, 200.0, 108.0)] {
        let win_w = src_w as f64 / (zoom as f64 / 100.0);
        let win_h = src_h as f64 / (zoom as f64 / 100.0);
        let mut reference = vec![0; (px_w * px_h * 4) as usize];
        let mut columns = Vec::new();
        let mut rows = Vec::new();
        for dy in 0..px_h {
            let y = origin_y + dy as f64 * win_h / px_h as f64;
            rows.push(y as i32);
            let sy = y.clamp(0.0, (src_h - 1) as f64) as usize;
            for dx in 0..px_w {
                let x = origin_x + dx as f64 * win_w / px_w as f64;
                if dy == 0 {
                    columns.push(x as i32);
                }
                let sx = x.clamp(0.0, (src_w - 1) as f64) as usize;
                let to = ((dy * px_w + dx) * 4) as usize;
                let from = sy * (src_w * 4) as usize + sx * 4;
                reference[to..to + 4].copy_from_slice(&image.bytes[from..from + 4]);
            }
        }
        draw_badge(&mut reference, px_w, px_h, px_w * 4, zoom);
        let mut ours = vec![0; reference.len()];
        assert!(frame_fits(&image, &columns, &rows, px_w, px_h, ours.len()));
        draw_frame(&image, &columns, &rows, px_w, px_h, zoom, &mut ours);
        assert_eq!(ours, reference);
    }
}

#[test]
fn frames_without_pixels_change_nothing() {
    let image = image(4, 4, 16);
    for (w, h) in [(0, 0), (0, 5), (5, 0), (-3, 4), (-3, -4)] {
        let mut dst = vec![7; 10];
        assert!(frame_fits(&image, &[], &[], w, h, 10));
        draw_frame(&image, &[], &[], w, h, 100, &mut dst);
        assert_eq!(dst, vec![7; 10]);
    }
}

#[test]
fn frames_have_to_fit() {
    let image = image(4, 4, 16);
    let p = positions(8);
    assert!(frame_fits(&image, &p, &p, 4, 4, 64));
    assert!(frame_fits(&image, &p, &p, 8, 8, 256));
    // No room in the buffer.
    assert!(!frame_fits(&image, &p, &p, 4, 4, 63));
    // No position for a column, or for a row.
    assert!(!frame_fits(&image, &p[..3], &p, 4, 4, 64));
    assert!(!frame_fits(&image, &p, &p[..3], 4, 4, 64));
    // Rows longer than any number allows.
    assert!(!frame_fits(&image, &p, &p, i32::MAX / 4 + 1, 1, usize::MAX));
    assert!(!frame_fits(&image, &p, &p, i32::MIN, 1, 64));
    assert!(!frame_fits(&image, &p, &p, 1, i32::MIN, 64));
}

#[test]
fn images_have_to_hold_the_samples() {
    let p = positions(4);
    // The last row of such an image is cut short.
    let mut short = image(4, 4, 16);
    short.bytes.pop();
    assert!(!frame_fits(&short, &p, &p, 4, 4, 64));
    assert!(frame_fits(&short, &p, &p, 4, 3, 64));
    assert!(frame_fits(&short, &p, &p, 3, 4, 64));
    // Rows that run backwards can only be sampled at the first.
    let mut backwards = image(4, 4, 16);
    backwards.stride = -16;
    assert!(!frame_fits(&backwards, &p, &p, 4, 2, 64));
    assert!(frame_fits(&backwards, &p, &p, 4, 1, 64));
    // An image without pixels cannot be sampled.
    let empty = CapturedImage { width: 0, height: 4, stride: 16, bytes: vec![0; 64] };
    assert!(!frame_fits(&empty, &p, &p, 1, 1, 64));
    let empty = CapturedImage { width: 4, height: 0, stride: 16, bytes: vec![0; 64] };
    assert!(!frame_fits(&empty, &p, &p, 1, 1, 64));
}
