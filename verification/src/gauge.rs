//! The gauge quantizer: from a ratio to the glyph of one cell of a bar.
//!
//! A gauge is a vertical bar three character cells tall. Each cell is eight
//! pixel rows high, so a bar has 24 levels. The bar fills from the bottom:
//! row 2 is the lowest cell and row 0 the highest.

use vstd::prelude::*;
use crate::ratio::{ceil_div, lemma_ceil_div, lemma_ceil_div_monotonic, Ratio};

verus! {

/// Character cells in one gauge, stacked.
pub const GAUGE_ROWS: u8 = 3;

/// Pixel rows in one character cell.
pub const CELL_PIXELS: u8 = 8;

/// Levels of a whole gauge.
pub const GAUGE_LEVELS: u8 = 24;

/// The cell value of an empty cell: the space character.
pub const BLANK: u8 = 32;

/// Custom glyph slots of the display controller.
pub const GLYPH_COUNT: u8 = 8;

/// One pixel row of a glyph with all five pixels lit.
pub const FULL_PIXEL_ROW: u8 = 31;

/// The level of a gauge that shows `num / den`: 24 times the ratio, rounded up.
pub open spec fn level_of(num: int, den: int) -> int
    recommends
        den > 0,
{
    ceil_div(24 * num, den)
}

/// The lit pixel rows of cell `row` in a gauge at `level`.
///
/// The cells below it hold the first `8 * (2 - row)` levels; the cell shows
/// as many of the levels above those as the level reaches, at most eight.
pub open spec fn row_pixels(level: int, row: int) -> int {
    let below = CELL_PIXELS * (GAUGE_ROWS - 1 - row);
    if level <= below {
        0
    } else if level >= below + CELL_PIXELS {
        CELL_PIXELS as int
    } else {
        level - below
    }
}

/// The cell value that shows `pixels` lit rows: the blank for none, else
/// the glyph whose index is one less than the number of rows.
pub open spec fn glyph_of(pixels: int) -> u8 {
    if pixels == 0 {
        BLANK
    } else {
        (pixels - 1) as u8
    }
}

/// The cell value of cell `row` in a gauge that shows `value`.
pub open spec fn display_char_spec(value: Ratio, row: int) -> u8 {
    glyph_of(row_pixels(level_of(value@.0 as int, value@.1 as int), row))
}

/// Pixel row `line` (0 is the top) of the glyph in slot `index`.
pub open spec fn glyph_line(index: int, line: int) -> u8 {
    if line >= 7 - index {
        FULL_PIXEL_ROW
    } else {
        0
    }
}

/// A ratio between zero and one has a level between 0 and 24: 0 only for
/// the ratio zero, and 24 for the ratio one.
pub proof fn lemma_level_bounds(num: int, den: int)
    requires
        0 <= num <= den,
        0 < den,
    ensures
        0 <= level_of(num, den) <= 24,
        num == 0 <==> level_of(num, den) == 0,
        num == den ==> level_of(num, den) == 24,
{
    lemma_ceil_div(24 * num, den);
    let q = level_of(num, den);
    assert(q <= 24) by (nonlinear_arith)
        requires
            (q - 1) * den < 24 * num,
            num <= den,
            0 < den,
    ;
    if num == den {
        assert(q >= 24) by (nonlinear_arith)
            requires
                q * den >= 24 * den,
                0 < den,
        ;
    }
}

/// An empty gauge is blank in every cell, and a full gauge shows the solid
/// glyph in every cell.
pub proof fn lemma_empty_and_full(value: Ratio, row: int)
    requires
        value.wf(),
        0 <= row < 3,
    ensures
        value@.0 == 0 ==> display_char_spec(value, row) == BLANK,
        value@.0 == value@.1 ==> display_char_spec(value, row) == 7,
{
    lemma_level_bounds(value@.0 as int, value@.1 as int);
}

/// The three cells of a gauge together light exactly as many pixel rows as
/// the gauge's level, and a higher cell is lit only above a full lower one.
pub proof fn lemma_bar_fills_from_bottom(level: int)
    requires
        0 <= level <= 24,
    ensures
        row_pixels(level, 0) + row_pixels(level, 1) + row_pixels(level, 2) == level,
        row_pixels(level, 0) > 0 ==> row_pixels(level, 1) == 8,
        row_pixels(level, 1) > 0 ==> row_pixels(level, 2) == 8,
{
}

/// A gauge never shrinks when its ratio grows: over a common denominator, a
/// larger numerator lights at least as many pixel rows in every cell.
pub proof fn lemma_level_monotonic(a: int, b: int, den: int, row: int)
    requires
        0 <= a <= b,
        0 < den,
    ensures
        level_of(a, den) <= level_of(b, den),
        row_pixels(level_of(a, den), row) <= row_pixels(level_of(b, den), row),
{
    lemma_ceil_div_monotonic(24 * a, 24 * b, den);
}

/// Quantizes a ratio to the level of its gauge.
pub fn quantize(value: Ratio) -> (level: u8)
    ensures
        level == level_of(value@.0 as int, value@.1 as int),
        level <= GAUGE_LEVELS,
{
    let num = value.num();
    let den = value.den();
    proof {
        lemma_level_bounds(num as int, den as int);
    }
    let scaled: u128 = 24u128 * (num as u128) + (den as u128 - 1);
    let level: u128 = scaled / (den as u128);
    level as u8
}

/// The cell value for cell `row` of a gauge that shows `value`: the space
/// character where the cell is empty, else the index of the glyph with the
/// cell's lit rows.
pub fn display_char(value: Ratio, row: u8) -> (cell: u8)
    requires
        row < GAUGE_ROWS,
    ensures
        cell == display_char_spec(value, row as int),
        cell == BLANK || cell < GLYPH_COUNT,
{
    let quantized = quantize(value);
    let target: u8 = GAUGE_ROWS - 1 - row;
    let filled: u8 = quantized / CELL_PIXELS;
    let pixels: u8 = if filled > target {
        CELL_PIXELS
    } else if filled < target {
        0
    } else {
        quantized - CELL_PIXELS * target
    };
    if pixels == 0 {
        BLANK
    } else {
        pixels - 1
    }
}

/// The bitmap of the glyph in slot `index`: eight pixel rows from the top,
/// of which the lowest `index + 1` are fully lit.
pub fn glyph_bitmap(index: u8) -> (bitmap: [u8; 8])
    requires
        index < GLYPH_COUNT,
    ensures
        forall|line: int| 0 <= line < 8 ==> #[trigger] bitmap[line] == glyph_line(index as int, line),
{
    let mut bitmap: [u8; 8] = [0u8; 8];
    let mut lit: u8 = 0;
    while lit <= index
        invariant
            index < 8,
            lit <= index + 1,
            forall|line: int|
                0 <= line < 8 ==> bitmap[line] == (if line >= 8 - lit {
                    FULL_PIXEL_ROW
                } else {
                    0u8
                }),
        decreases index + 1 - lit,
    {
        bitmap[(7 - lit) as usize] = FULL_PIXEL_ROW;
        lit = lit + 1;
    }
    bitmap
}

} // verus!
