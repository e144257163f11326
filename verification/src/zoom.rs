//! Zoom levels.
//!
//! A level is a whole number of hundredths: 100 is 1x, 275 is 2.75x. Every
//! level the magnifier can reach is a multiple of [`ZOOM_STEP`].

use vstd::prelude::*;

verus! {

/// Hundredths in a zoom factor of one.
pub const ZOOM_UNIT: u32 = 100;

/// One step of zoom: 0.25x.
pub const ZOOM_STEP: u32 = 25;

/// No magnification: 1x.
pub const MIN_ZOOM: u32 = 100;

/// The strongest magnification: 6x.
pub const MAX_ZOOM: u32 = 600;

/// The level one step above `zoom`, capped at [`MAX_ZOOM`].
pub open spec fn zoomed_in(zoom: u32) -> u32 {
    if zoom + ZOOM_STEP <= MAX_ZOOM {
        (zoom + ZOOM_STEP) as u32
    } else {
        MAX_ZOOM
    }
}

/// The level one step below `zoom`, but no lower than [`MIN_ZOOM`].
pub open spec fn zoomed_out(zoom: u32) -> u32 {
    if zoom - ZOOM_STEP >= MIN_ZOOM {
        (zoom - ZOOM_STEP) as u32
    } else {
        MIN_ZOOM
    }
}

/// A level that the steps from [`MIN_ZOOM`] to [`MAX_ZOOM`] reach.
pub open spec fn is_level(zoom: u32) -> bool {
    MIN_ZOOM <= zoom <= MAX_ZOOM && zoom % ZOOM_STEP == 0
}

/// One step in.
pub fn step_in(zoom: u32) -> (level: u32)
    ensures
        level == zoomed_in(zoom),
        level == if zoom <= 575 {
            zoom + 25
        } else {
            600
        },
{
    if zoom <= MAX_ZOOM - ZOOM_STEP {
        zoom + ZOOM_STEP
    } else {
        MAX_ZOOM
    }
}

/// One step out.
pub fn step_out(zoom: u32) -> (level: u32)
    ensures
        level == zoomed_out(zoom),
        level == if zoom >= 125 {
            zoom - 25
        } else {
            100
        },
{
    if zoom >= MIN_ZOOM + ZOOM_STEP {
        zoom - ZOOM_STEP
    } else {
        MIN_ZOOM
    }
}

/// The character of a decimal digit.
pub open spec fn digit_char(d: nat) -> char {
    (48 + d) as char
}

/// The decimal digits of `n`, most significant first, without leading zeros.
pub open spec fn decimal(n: nat) -> Seq<char>
    decreases n,
{
    if n < 10 {
        seq![digit_char(n)]
    } else {
        decimal(n / 10).push(digit_char(n % 10))
    }
}

/// The badge text of a level: the factor with two decimals, then `x`.
pub open spec fn label(zoom: u32) -> Seq<char> {
    decimal((zoom / ZOOM_UNIT) as nat) + seq![
        '.',
        digit_char((zoom / 10 % 10) as nat),
        digit_char((zoom % 10) as nat),
        'x',
    ]
}

/// Appends one decimal digit.
fn push_digit(text: &mut Vec<char>, d: u32)
    requires
        d < 10,
    ensures
        final(text)@ == old(text)@.push(digit_char(d as nat)),
{
    let byte: u8 = 48 + d as u8;
    text.push(byte as char);
}

/// Appends a number in decimal.
fn push_decimal(text: &mut Vec<char>, n: u32)
    ensures
        final(text)@ == old(text)@ + decimal(n as nat),
    decreases n,
{
    if n >= 10 {
        push_decimal(text, n / 10);
    }
    push_digit(text, n % 10);
}

/// The text that the badge shows for a level, such as `2.75x`.
pub fn zoom_label(zoom: u32) -> (text: Vec<char>)
    ensures
        text@ == label(zoom),
{
    let mut text: Vec<char> = Vec::new();
    push_decimal(&mut text, zoom / ZOOM_UNIT);
    text.push('.');
    push_digit(&mut text, zoom / 10 % 10);
    push_digit(&mut text, zoom % 10);
    text.push('x');
    text
}

/// A label has from five to twelve characters.
pub proof fn lemma_label_len(zoom: u32)
    ensures
        5 <= label(zoom).len() <= 12,
{
    reveal_with_fuel(decimal, 9);
}

/// The level after `n` steps in from `zoom`.
pub open spec fn zoomed_in_times(zoom: u32, n: nat) -> u32
    decreases n,
{
    if n == 0 {
        zoom
    } else {
        zoomed_in(zoomed_in_times(zoom, (n - 1) as nat))
    }
}

/// The level after `n` steps out from `zoom`.
pub open spec fn zoomed_out_times(zoom: u32, n: nat) -> u32
    decreases n,
{
    if n == 0 {
        zoom
    } else {
        zoomed_out(zoomed_out_times(zoom, (n - 1) as nat))
    }
}

/// Steps in either direction lead from a level to a level.
pub proof fn law_steps_keep_levels(zoom: u32)
    requires
        is_level(zoom),
    ensures
        is_level(zoomed_in(zoom)),
        is_level(zoomed_out(zoom)),
{
}

/// A step in and a step out undo each other, except at the end that stops the
/// first of the two.
pub proof fn law_steps_undo_each_other(zoom: u32)
    requires
        is_level(zoom),
    ensures
        zoom < MAX_ZOOM ==> zoomed_out(zoomed_in(zoom)) == zoom,
        zoom > MIN_ZOOM ==> zoomed_in(zoomed_out(zoom)) == zoom,
{
}

/// `n` steps in from a level add `n` times the step, up to the maximum.
pub proof fn law_steps_in_add_up(zoom: u32, n: nat)
    requires
        is_level(zoom),
    ensures
        zoomed_in_times(zoom, n) == if zoom + n * ZOOM_STEP <= MAX_ZOOM {
            zoom + n * ZOOM_STEP
        } else {
            MAX_ZOOM as int
        },
    decreases n,
{
    if n > 0 {
        law_steps_in_add_up(zoom, (n - 1) as nat);
    }
}

/// `n` steps out from a level take off `n` times the step, down to the minimum.
pub proof fn law_steps_out_add_up(zoom: u32, n: nat)
    requires
        is_level(zoom),
    ensures
        zoomed_out_times(zoom, n) == if zoom - n * ZOOM_STEP >= MIN_ZOOM {
            zoom - n * ZOOM_STEP
        } else {
            MIN_ZOOM as int
        },
    decreases n,
{
    if n > 0 {
        law_steps_out_add_up(zoom, (n - 1) as nat);
    }
}

/// Twenty steps span the whole range, in either direction, from any level.
pub proof fn law_twenty_steps_span_the_range(zoom: u32)
    requires
        is_level(zoom),
    ensures
        zoomed_in_times(zoom, 20) == MAX_ZOOM,
        zoomed_out_times(zoom, 20) == MIN_ZOOM,
{
    law_steps_in_add_up(zoom, 20);
    law_steps_out_add_up(zoom, 20);
}

/// The label of every level has five characters: `d.ddx`.
pub proof fn law_labels_have_five_characters(zoom: u32)
    requires
        is_level(zoom),
    ensures
        label(zoom).len() == 5,
        label(zoom) == seq![
            digit_char((zoom / 100) as nat),
            '.',
            digit_char((zoom / 10 % 10) as nat),
            digit_char((zoom % 10) as nat),
            'x',
        ],
{
    assert(decimal((zoom / 100) as nat) == seq![digit_char((zoom / 100) as nat)]);
}

/// Two levels with the same label are the same level.
pub proof fn law_labels_tell_levels_apart(a: u32, b: u32)
    requires
        is_level(a),
        is_level(b),
        label(a) == label(b),
    ensures
        a == b,
{
    law_labels_have_five_characters(a);
    law_labels_have_five_characters(b);
    let x = label(a);
    let y = label(b);
    assert(x[0] == y[0] && x[2] == y[2] && x[3] == y[3]);
    assert(a / 100 == b / 100 && a / 10 % 10 == b / 10 % 10 && a % 10 == b % 10);
}

/// A step in adds a quarter to the factor and stops at 6x; a step out takes a
/// quarter off and stops at 1x.
pub proof fn law_a_step_is_a_quarter(zoom: u32)
    ensures
        zoom <= 575 ==> zoomed_in(zoom) == zoom + 25,
        zoom > 575 ==> zoomed_in(zoom) == 600,
        zoom >= 125 ==> zoomed_out(zoom) == zoom - 25,
        zoom < 125 ==> zoomed_out(zoom) == 100,
{
}

/// The levels are the quarters from 1x to 6x, and nothing else.
pub proof fn law_levels_are_quarters(zoom: u32)
    ensures
        is_level(zoom) <==> exists|quarters: int|
            4 <= quarters <= 24 && zoom == #[trigger] (25 * quarters),
{
    if is_level(zoom) {
        let quarters = zoom as int / 25;
        assert(zoom == 25 * quarters);
    }
}

/// The number that decimal digits stand for.
pub open spec fn number(digits: Seq<char>) -> int
    decreases digits.len(),
{
    if digits.len() == 0 {
        0
    } else {
        10 * number(digits.drop_last()) + (digits.last() as int - '0' as int)
    }
}

/// Whether a text is a number in decimal: digits only, and no leading zero.
pub open spec fn is_number(digits: Seq<char>) -> bool {
    &&& digits.len() > 0
    &&& digits[0] == '0' ==> digits.len() == 1
    &&& forall|i: int| 0 <= i < digits.len() ==> '0' <= #[trigger] digits[i] <= '9'
}

proof fn lemma_decimal_reads_back(n: nat)
    ensures
        is_number(decimal(n)),
        number(decimal(n)) == n,
        n > 0 ==> decimal(n)[0] != '0',
    decreases n,
{
    if n < 10 {
        assert(decimal(n).drop_last() == Seq::<char>::empty());
        assert(number(Seq::<char>::empty()) == 0);
        assert(decimal(n).last() == digit_char(n));
    } else {
        let tens = decimal(n / 10);
        lemma_decimal_reads_back(n / 10);
        assert(decimal(n).drop_last() == tens);
        assert forall|i: int| 0 <= i < decimal(n).len() implies '0' <= #[trigger] decimal(n)[i]
            <= '9' by {
            if i < tens.len() {
                assert(decimal(n)[i] == tens[i]);
            }
        }
        assert(decimal(n)[0] == tens[0]);
    }
}

/// A label reads back as its level: a whole number, a point, two decimals and
/// an `x`, and the digits together are the hundredths.
pub proof fn law_labels_read_back(zoom: u32)
    ensures
        label(zoom).len() >= 5,
        is_number(label(zoom).take(label(zoom).len() - 4)),
        label(zoom)[label(zoom).len() - 4] == '.',
        '0' <= label(zoom)[label(zoom).len() - 3] <= '9',
        '0' <= label(zoom)[label(zoom).len() - 2] <= '9',
        label(zoom).last() == 'x',
        zoom == 100 * number(label(zoom).take(label(zoom).len() - 4)) + 10 * (label(
            zoom,
        )[label(zoom).len() - 3] as int - '0' as int) + (label(zoom)[label(zoom).len() - 2] as int
            - '0' as int),
{
    let whole = decimal((zoom / ZOOM_UNIT) as nat);
    lemma_decimal_reads_back((zoom / ZOOM_UNIT) as nat);
    assert(label(zoom).take(label(zoom).len() - 4) == whole);
}

} // verus!
