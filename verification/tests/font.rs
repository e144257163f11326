use niri_zoom::glyph;
use niri_zoom::zoom::zoom_label;

#[test]
fn glyph_mask_height_is_five() {
    for c in "0123456789.xF".chars() {
        assert_eq!(glyph(c).len(), 5, "glyph for {c:?} must be 5 rows");
    }
}

#[test]
fn known_glyph_bitmaps() {
    assert_eq!(glyph('8'), [0b111, 0b101, 0b111, 0b101, 0b111]);
    assert_eq!(glyph('.'), [0b000, 0b000, 0b000, 0b000, 0b010]);
    assert_eq!(glyph('x'), [0b000, 0b101, 0b010, 0b101, 0b000]);
    assert_eq!(glyph('?'), [0, 0, 0, 0, 0]);
}

#[test]
fn glyphs_are_three_columns_wide() {
    for c in "0123456789.xF".chars() {
        for row in glyph(c) {
            assert!(row < 8);
        }
    }
}

#[test]
fn glyphs_tell_characters_apart() {
    let font: Vec<char> = "0123456789.x".chars().collect();
    for (i, a) in font.iter().enumerate() {
        assert_ne!(glyph(*a), [0; 5]);
        for b in &font[i + 1..] {
            assert_ne!(glyph(*a), glyph(*b), "{a:?} and {b:?} look alike");
        }
    }
}

#[test]
fn every_label_can_be_drawn() {
    for zoom in [0, 100, 225, 350, 475, 600, 1234567890] {
        for c in zoom_label(zoom) {
            assert_ne!(glyph(c), [0; 5]);
        }
    }
}
