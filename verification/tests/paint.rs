use niri_zoom::glyph;
use niri_zoom::paint::{blend, draw_badge};

/// Noise that differs from byte to byte.
fn noise(len: usize) -> Vec<u8> {
    (0..len).map(|i| ((i * 7919 + i / 13) % 251) as u8).collect()
}

/// Draws a badge the plain way, with the level as a float.
fn reference_badge(dst: &mut [u8], px_w: i32, px_h: i32, stride: i32, zoom: f32) {
    let text = format!("{:.2}x", zoom);
    let text_w = text.chars().count() as i32 * (3 * 6 + 6) - 6;
    let badge_w = text_w + 24;
    let badge_h = 5 * 6 + 24;
    let x0 = px_w - badge_w - 24;
    let y0 = px_h - badge_h - 24;
    if x0 < 0 || y0 < 0 {
        return;
    }
    for y in y0..y0 + badge_h {
        for x in x0..x0 + badge_w {
            let p = (y * stride + x * 4) as usize;
            blend(&mut dst[p..p + 4], [0, 0, 0, 170]);
        }
    }
    let mut cursor_x = x0 + 12;
    for c in text.chars() {
        for (row, bits) in glyph(c).iter().enumerate() {
            for col in 0..3 {
                if (bits >> (2 - col)) & 1 == 1 {
                    let px = cursor_x + col * 6;
                    let py = y0 + 12 + row as i32 * 6;
                    for y in py..py + 6 {
                        for x in px..px + 6 {
                            let p = (y * stride + x * 4) as usize;
                            blend(&mut dst[p..p + 4], [255, 255, 255, 255]);
                        }
                    }
                }
            }
        }
        cursor_x += 24;
    }
}

#[test]
fn blending_an_opaque_color_replaces_the_pixel() {
    let mut pixel = [1, 2, 3, 4];
    blend(&mut pixel, [255, 128, 64, 255]);
    assert_eq!(pixel, [64, 128, 255, 255]);
}

#[test]
fn blending_a_transparent_color_leaves_the_channels() {
    let mut pixel = [1, 2, 3, 4];
    blend(&mut pixel, [255, 128, 64, 0]);
    assert_eq!(pixel, [1, 2, 3, 255]);
}

#[test]
fn blending_mixes_and_rounds_down() {
    let mut pixel = [10, 20, 30, 40];
    blend(&mut pixel, [0, 0, 0, 170]);
    assert_eq!(pixel, [3, 6, 10, 255]);
    let mut pixel = [10, 20, 30, 40];
    blend(&mut pixel, [200, 100, 50, 128]);
    assert_eq!(pixel, [30, 60, 115, 255]);
    let mut pixel = [255, 255, 255, 255];
    blend(&mut pixel, [255, 255, 255, 77]);
    assert_eq!(pixel, [255, 255, 255, 255]);
}

#[test]
fn blending_touches_one_pixel() {
    let mut pixels = [9; 8];
    blend(&mut pixels, [255, 255, 255, 255]);
    assert_eq!(pixels, [255, 255, 255, 255, 9, 9, 9, 9]);
}

#[test]
fn mixed_channels_lie_between() {
    for under in 0..=255_u8 {
        for over in [0, 1, 100, 254, 255_u8] {
            for alpha in [0, 1, 127, 254, 255_u8] {
                let mut pixel = [under, under, under, 0];
                blend(&mut pixel, [over, over, over, alpha]);
                assert!(pixel[0] >= under.min(over) && pixel[0] <= under.max(over));
            }
        }
    }
}

#[test]
fn badges_match_the_plain_drawing() {
    for (w, h, extra) in [(162, 78, 0), (200, 100, 0), (321, 123, 12), (163, 79, 100)] {
        let stride = w * 4 + extra;
        for zoom in [100_u32, 125, 250, 375, 475, 600] {
            let mut ours = noise((stride * h) as usize);
            let mut reference = ours.clone();
            draw_badge(&mut ours, w, h, stride, zoom);
            reference_badge(&mut reference, w, h, stride, zoom as f32 / 100.0);
            assert_ne!(ours, noise((stride * h) as usize));
            assert_eq!(ours, reference);
        }
    }
}

#[test]
fn badges_match_where_rows_overlap() {
    for stride in [0, 4, 100, 640] {
        let mut ours = noise(80_000);
        let mut reference = ours.clone();
        draw_badge(&mut ours, 200, 100, stride, 275);
        reference_badge(&mut reference, 200, 100, stride, 2.75);
        assert_eq!(ours, reference);
    }
}

#[test]
fn small_frames_get_no_badge() {
    for (w, h) in [(161, 200), (10, 10), (0, 0), (-5, 400), (400, -5), (400, 77)] {
        let mut dst = noise(400);
        draw_badge(&mut dst, w, h, w * 4, 100);
        assert_eq!(dst, noise(400));
    }
}

#[test]
fn the_smallest_frame_with_a_badge_is_just_large_enough() {
    let (w, h) = (162, 78);
    let mut dst = vec![200; (w * 4 * h) as usize];
    draw_badge(&mut dst, w, h, w * 4, 100);
    assert_eq!(&dst[..4], &[66, 66, 66, 255]);
    let mut dst = vec![200; ((w - 1) * 4 * h) as usize];
    draw_badge(&mut dst, w - 1, h, (w - 1) * 4, 100);
    assert_eq!(dst, vec![200; ((w - 1) * 4 * h) as usize]);
}

#[test]
fn badge_pixels_are_ink_or_shade_or_untouched() {
    let (w, h) = (200, 100);
    let stride = w * 4;
    let mut dst = vec![90; (stride * h) as usize];
    draw_badge(&mut dst, w, h, stride, 100);
    let at = |x: i32, y: i32| {
        let p = (y * stride + x * 4) as usize;
        [dst[p], dst[p + 1], dst[p + 2], dst[p + 3]]
    };
    let (left, top) = (200 - 138 - 24, 100 - 54 - 24);
    assert_eq!(at(left - 1, top), [90; 4]);
    assert_eq!(at(left, top - 1), [90; 4]);
    assert_eq!(at(left + 138, top), [90; 4]);
    assert_eq!(at(left, top + 54), [90; 4]);
    assert_eq!(at(left, top), [30, 30, 30, 255]);
    assert_eq!(at(left + 137, top + 53), [30, 30, 30, 255]);
    // The glyph of "1" lights the middle column of its first row only.
    assert_eq!(at(left + 12, top + 12), [30, 30, 30, 255]);
    assert_eq!(at(left + 18, top + 12), [255; 4]);
    assert_eq!(at(left + 23, top + 17), [255; 4]);
    assert_eq!(at(left + 24, top + 12), [30, 30, 30, 255]);
}

#[test]
fn a_badge_leaves_the_padding_between_rows() {
    let (w, h, stride) = (163, 79, 163 * 4 + 40);
    let len = (stride * h) as usize + 9;
    let mut dst = noise(len);
    draw_badge(&mut dst, w, h, stride, 350);
    let (left, top) = (163 - 138 - 24, 79 - 54 - 24);
    let mut changed = 0;
    for (k, (new, old)) in dst.iter().zip(noise(len)).enumerate() {
        let (y, x) = (k as i32 / stride, k as i32 % stride / 4);
        let inside = (left..left + 138).contains(&x) && (top..top + 54).contains(&y);
        if !inside {
            assert_eq!(*new, old);
        } else if *new != old {
            changed += 1;
        }
    }
    assert!(changed > 138 * 54);
}
