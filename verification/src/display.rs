//! Integer rules of the displays: which frame a column shows, which rows
//! carry a label, and how a quantised intensity is drawn.

use crate::constants::SPEC_WIDTH;
use vstd::prelude::*;

verus! {

/// Number of intensity levels that the terminal display tells apart.
pub const GLYPH_LEVELS: u8 = 10;

/// The glyphs of the terminal display, from no signal to full signal.
pub open spec fn glyph_ramp() -> Seq<char> {
    seq![' ', '.', ':', '-', '=', '+', '*', '#', '%', '@']
}

/// The smaller of two numbers.
pub open spec fn least(a: int, b: int) -> int {
    if a <= b {
        a
    } else {
        b
    }
}

/// The greater of two numbers.
pub open spec fn greatest(a: int, b: int) -> int {
    if a >= b {
        a
    } else {
        b
    }
}

/// Distance between two labelled rows of a display of `height` rows: an
/// eighth of the height, and never less than one row.
pub open spec fn label_spacing(height: int) -> int {
    greatest(height / 8, 1)
}

/// The glyph for an intensity level; every level from the last of the ramp
/// upwards is drawn with the last glyph.
pub fn glyph(level: u8) -> (ch: char)
    ensures
        ch == glyph_ramp()[least(level as int, GLYPH_LEVELS - 1)],
{
    match level {
        0 => ' ',
        1 => '.',
        2 => ':',
        3 => '-',
        4 => '=',
        5 => '+',
        6 => '*',
        7 => '#',
        8 => '%',
        _ => '@',
    }
}

/// Whether display row `row` of `height` rows carries a frequency label:
/// the top row does, and every `label_spacing(height)`-th row below it.
pub fn labelled_row(row: usize, height: usize) -> (labelled: bool)
    ensures
        labelled == (row as int % label_spacing(height as int) == 0),
{
    let spacing: usize = if height / 8 >= 1 {
        height / 8
    } else {
        1
    };
    row % spacing == 0
}

/// Number of history columns drawn into an area `area_width` cells wide from
/// a history of `frame_count` frames: as many as fit, at most `SPEC_WIDTH`,
/// and no more than there are frames.
pub fn visible_columns(area_width: u16, frame_count: usize) -> (columns: usize)
    ensures
        columns == least(least(area_width as int, SPEC_WIDTH as int), frame_count as int),
{
    let fitting: usize = if (area_width as usize) < SPEC_WIDTH {
        area_width as usize
    } else {
        SPEC_WIDTH
    };
    if fitting < frame_count {
        fitting
    } else {
        frame_count
    }
}

/// The position that mirrors `index` in a run of `len` positions. Columns
/// are drawn oldest first, so column `x` shows the frame of age
/// `mirrored(x, frame_count)`, and images are stored top row first, so the
/// row drawn `y` rows above the bottom is row `mirrored(y, height)`.
pub fn mirrored(index: usize, len: usize) -> (mirror: usize)
    requires
        index < len,
    ensures
        mirror == len - 1 - index,
        mirror < len,
{
    len - 1 - index
}

/// Red, green and blue of an image pixel of the given intensity: a ramp
/// from black to orange.
pub fn heat_colour(intensity: u8) -> (rgb: (u8, u8, u8))
    ensures
        rgb.0 == intensity,
        rgb.1 == intensity / 2,
        rgb.2 == 0,
{
    (intensity, intensity / 2, 0)
}

} // verus!
