//! A 3x5 bitmap font with just the glyphs that zoom badges need.

use crate::zoom::{decimal, label, ZOOM_UNIT};
use vstd::arithmetic::power2::pow2;
use vstd::prelude::*;

verus! {

/// Columns of a glyph.
pub const GLYPH_COLUMNS: usize = 3;

/// Rows of a glyph.
pub const GLYPH_ROWS: usize = 5;

/// The rows of the glyph of `c`, top row first; bit 2 is the leftmost column.
/// A character the font lacks is blank.
pub open spec fn glyph_rows(c: char) -> Seq<u8> {
    match c {
        '0' => seq![0b111, 0b101, 0b101, 0b101, 0b111],
        '1' => seq![0b010, 0b110, 0b010, 0b010, 0b111],
        '2' => seq![0b111, 0b001, 0b111, 0b100, 0b111],
        '3' => seq![0b111, 0b001, 0b111, 0b001, 0b111],
        '4' => seq![0b101, 0b101, 0b111, 0b001, 0b001],
        '5' => seq![0b111, 0b100, 0b111, 0b001, 0b111],
        '6' => seq![0b111, 0b100, 0b111, 0b101, 0b111],
        '7' => seq![0b111, 0b001, 0b001, 0b001, 0b001],
        '8' => seq![0b111, 0b101, 0b111, 0b101, 0b111],
        '9' => seq![0b111, 0b101, 0b111, 0b001, 0b111],
        '.' => seq![0b000, 0b000, 0b000, 0b000, 0b010],
        'x' => seq![0b000, 0b101, 0b010, 0b101, 0b000],
        _ => seq![0, 0, 0, 0, 0],
    }
}

/// The characters that the font draws.
pub open spec fn has_glyph(c: char) -> bool {
    ('0' <= c && c <= '9') || c == '.' || c == 'x'
}

/// Whether the pixel in `column` (0 is leftmost) of a glyph row is lit.
pub open spec fn row_bit(row: u8, column: int) -> bool {
    if column == 0 {
        row & 4 == 4
    } else if column == 1 {
        row & 2 == 2
    } else {
        row & 1 == 1
    }
}

/// The glyph of `c`: five rows of a three-bit mask, bit 2 leftmost.
pub fn glyph(c: char) -> (rows: [u8; 5])
    ensures
        rows@ == glyph_rows(c),
        c == '0' ==> rows@ == seq![7u8, 5, 5, 5, 7],
        c == '1' ==> rows@ == seq![2u8, 6, 2, 2, 7],
        c == '2' ==> rows@ == seq![7u8, 1, 7, 4, 7],
        c == '3' ==> rows@ == seq![7u8, 1, 7, 1, 7],
        c == '4' ==> rows@ == seq![5u8, 5, 7, 1, 1],
        c == '5' ==> rows@ == seq![7u8, 4, 7, 1, 7],
        c == '6' ==> rows@ == seq![7u8, 4, 7, 5, 7],
        c == '7' ==> rows@ == seq![7u8, 1, 1, 1, 1],
        c == '8' ==> rows@ == seq![7u8, 5, 7, 5, 7],
        c == '9' ==> rows@ == seq![7u8, 5, 7, 1, 7],
        c == '.' ==> rows@ == seq![0u8, 0, 0, 0, 2],
        c == 'x' ==> rows@ == seq![0u8, 5, 2, 5, 0],
        !has_glyph(c) ==> rows@ == seq![0u8, 0, 0, 0, 0],
{
    match c {
        '0' => [0b111, 0b101, 0b101, 0b101, 0b111],
        '1' => [0b010, 0b110, 0b010, 0b010, 0b111],
        '2' => [0b111, 0b001, 0b111, 0b100, 0b111],
        '3' => [0b111, 0b001, 0b111, 0b001, 0b111],
        '4' => [0b101, 0b101, 0b111, 0b001, 0b001],
        '5' => [0b111, 0b100, 0b111, 0b001, 0b111],
        '6' => [0b111, 0b100, 0b111, 0b101, 0b111],
        '7' => [0b111, 0b001, 0b001, 0b001, 0b001],
        '8' => [0b111, 0b101, 0b111, 0b101, 0b111],
        '9' => [0b111, 0b101, 0b111, 0b001, 0b111],
        '.' => [0b000, 0b000, 0b000, 0b000, 0b010],
        'x' => [0b000, 0b101, 0b010, 0b101, 0b000],
        _ => [0, 0, 0, 0, 0],
    }
}

/// Every glyph has five rows, none wider than three columns.
pub proof fn law_glyphs_fit_their_cell(c: char)
    ensures
        glyph_rows(c).len() == GLYPH_ROWS,
        forall|i: int|
            0 <= i < glyph_rows(c).len() ==> #[trigger] glyph_rows(c)[i] < pow2(GLYPH_COLUMNS as nat),
{
    vstd::arithmetic::power2::lemma2_to64();
}

/// A glyph is blank exactly when the font lacks the character.
pub proof fn law_only_missing_glyphs_are_blank(c: char)
    ensures
        has_glyph(c) <==> glyph_rows(c) != seq![0u8, 0, 0, 0, 0],
{
    let blank = seq![0u8, 0, 0, 0, 0];
    assert(blank[0] == 0 && blank[4] == 0 && blank[1] == 0);
    let rows = glyph_rows(c);
    if c == '.' {
        assert(rows[4] == 2);
    } else if c == 'x' {
        assert(rows[1] == 5);
    } else if has_glyph(c) {
        assert(rows[0] != 0);
    }
}

/// No two characters of the font look alike.
pub proof fn law_glyphs_differ(a: char, b: char)
    requires
        has_glyph(a),
        has_glyph(b),
        glyph_rows(a) == glyph_rows(b),
    ensures
        a == b,
{
    let x = glyph_rows(a);
    let y = glyph_rows(b);
    assert(x[0] == y[0] && x[1] == y[1] && x[2] == y[2] && x[3] == y[3] && x[4] == y[4]);
}

proof fn lemma_decimal_has_glyphs(n: nat)
    ensures
        forall|i: int| 0 <= i < decimal(n).len() ==> has_glyph(#[trigger] decimal(n)[i]),
    decreases n,
{
    if n >= 10 {
        lemma_decimal_has_glyphs(n / 10);
        let tens = decimal(n / 10);
        assert forall|i: int| 0 <= i < decimal(n).len() implies has_glyph(
            #[trigger] decimal(n)[i],
        ) by {
            if i < tens.len() {
                assert(decimal(n)[i] == tens[i]);
            }
        }
    }
}

/// The font has every character of every zoom label.
pub proof fn law_labels_can_be_drawn(zoom: u32)
    ensures
        forall|i: int| 0 <= i < label(zoom).len() ==> has_glyph(#[trigger] label(zoom)[i]),
{
    lemma_decimal_has_glyphs((zoom / ZOOM_UNIT) as nat);
}

/// Each character has the shape that it is read by. The digits are made of
/// bars, as on a calculator: a bar across is a full row, and the rows between
/// bars show which of the two sides are upright.
pub proof fn law_glyphs_have_their_shapes()
    ensures
        glyph_rows('0') == seq![7u8, 5, 5, 5, 7],
        glyph_rows('1') == seq![2u8, 6, 2, 2, 7],
        glyph_rows('2') == seq![7u8, 1, 7, 4, 7],
        glyph_rows('3') == seq![7u8, 1, 7, 1, 7],
        glyph_rows('4') == seq![5u8, 5, 7, 1, 1],
        glyph_rows('5') == seq![7u8, 4, 7, 1, 7],
        glyph_rows('6') == seq![7u8, 4, 7, 5, 7],
        glyph_rows('7') == seq![7u8, 1, 1, 1, 1],
        glyph_rows('8') == seq![7u8, 5, 7, 5, 7],
        glyph_rows('9') == seq![7u8, 5, 7, 1, 7],
        glyph_rows('.') == seq![0u8, 0, 0, 0, 2],
        glyph_rows('x') == seq![0u8, 5, 2, 5, 0],
        forall|c: char|
            !('0' <= c <= '9') && c != '.' && c != 'x' ==> #[trigger] glyph_rows(c) == seq![
                0u8,
                0,
                0,
                0,
                0,
            ],
{
}

/// The columns of a row, from left to right, are its binary digits.
pub proof fn law_rows_are_read_from_the_left(row: u8)
    requires
        row < 8,
    ensures
        row == (if row_bit(row, 0) {
            4int
        } else {
            0
        }) + (if row_bit(row, 1) {
            2int
        } else {
            0
        }) + (if row_bit(row, 2) {
            1int
        } else {
            0
        }),
{
    assert(row == 0 || row == 1 || row == 2 || row == 3 || row == 4 || row == 5 || row == 6 || row
        == 7);
    assert(0u8 & 4 == 0 && 0u8 & 2 == 0 && 0u8 & 1 == 0 && 1u8 & 4 == 0 && 1u8 & 2 == 0 && 1u8 & 1
        == 1 && 2u8 & 4 == 0 && 2u8 & 2 == 2 && 2u8 & 1 == 0 && 3u8 & 4 == 0 && 3u8 & 2 == 2 && 3u8
        & 1 == 1 && 4u8 & 4 == 4 && 4u8 & 2 == 0 && 4u8 & 1 == 0 && 5u8 & 4 == 4 && 5u8 & 2 == 0
        && 5u8 & 1 == 1 && 6u8 & 4 == 4 && 6u8 & 2 == 2 && 6u8 & 1 == 0 && 7u8 & 4 == 4 && 7u8 & 2
        == 2 && 7u8 & 1 == 1) by (bit_vector);
}

} // verus!
