//! The colours in which cells are drawn: the 256-colour palette and the default
//! text colour.

use vstd::prelude::*;
use crate::sgr::Color;

verus! {

/// A colour as red, green and blue intensities.
pub type Rgb = (u8, u8, u8);

/// The colour of text printed with the default foreground.
pub open spec fn default_foreground() -> Rgb {
    (200, 200, 200)
}

/// The 16 standard colours (xterm's): black, red, green, yellow, blue, magenta,
/// cyan, white, then their bright forms.
pub open spec fn standard_color(index: u8) -> Rgb
    recommends
        index < 16,
{
    if index == 0 {
        (0, 0, 0)
    } else if index == 1 {
        (205, 0, 0)
    } else if index == 2 {
        (0, 205, 0)
    } else if index == 3 {
        (205, 205, 0)
    } else if index == 4 {
        (0, 0, 238)
    } else if index == 5 {
        (205, 0, 205)
    } else if index == 6 {
        (0, 205, 205)
    } else if index == 7 {
        (229, 229, 229)
    } else if index == 8 {
        (127, 127, 127)
    } else if index == 9 {
        (255, 0, 0)
    } else if index == 10 {
        (0, 255, 0)
    } else if index == 11 {
        (255, 255, 0)
    } else if index == 12 {
        (92, 92, 255)
    } else if index == 13 {
        (255, 0, 255)
    } else if index == 14 {
        (0, 255, 255)
    } else {
        (255, 255, 255)
    }
}

/// One axis of the 6×6×6 colour cube: level 0 is 0, level `v` is `55 + 40 v`.
pub open spec fn cube_level(v: int) -> int {
    if v == 0 {
        0
    } else {
        55 + 40 * v
    }
}

/// Entry `index` of the 256-colour palette: the standard colours (0–15), the
/// colour cube (16–231, index `16 + 36 r + 6 g + b`) and the grey ramp (232–255,
/// from 8 in steps of 10).
pub open spec fn palette(index: u8) -> Rgb {
    if index < 16 {
        standard_color(index)
    } else if index < 232 {
        let i = index - 16;
        (cube_level(i / 36) as u8, cube_level((i / 6) % 6) as u8, cube_level(i % 6) as u8)
    } else {
        let v = 8 + 10 * (index - 232);
        (v as u8, v as u8, v as u8)
    }
}

/// The colour that text of foreground `color` is drawn in.
pub open spec fn foreground_rgb(color: Color) -> Rgb {
    match color {
        Color::Default => default_foreground(),
        Color::Indexed(i) => palette(i),
        Color::Rgb(r, g, b) => (r, g, b),
    }
}

/// The palette's colour cube and grey ramp: entry `16 + 36 r + 6 g + b`
/// (r, g, b < 6) has the intensities 0, 95, 135, 175, 215, 255 chosen by r, g and
/// b; entry `232 + k` (k < 24) is the grey of intensity `8 + 10 k`. The first 16
/// entries are the standard colours, black first and bright white last.
pub proof fn lemma_palette_layout(r: u8, g: u8, b: u8, k: u8)
    requires
        r < 6,
        g < 6,
        b < 6,
        k < 24,
    ensures
        ({
            let level = |v: u8| seq![0u8, 95, 135, 175, 215, 255][v as int];
            palette((16 + 36 * r + 6 * g + b) as u8) == (level(r), level(g), level(b))
        }),
        palette((232 + k) as u8) == ((8 + 10 * k) as u8, (8 + 10 * k) as u8, (8 + 10 * k) as u8),
        palette(0) == (0u8, 0u8, 0u8),
        palette(15) == (255u8, 255u8, 255u8),
{
    let i = (16 + 36 * r + 6 * g + b) as u8;
    assert(i - 16 == 36 * r + 6 * g + b);
    assert((36 * r + 6 * g + b) / 36 == r) by (nonlinear_arith)
        requires
            r < 6,
            g < 6,
            b < 6,
    ;
    assert(((36 * r + 6 * g + b) / 6) % 6 == g) by (nonlinear_arith)
        requires
            r < 6,
            g < 6,
            b < 6,
    ;
    assert((36 * r + 6 * g + b) % 6 == b) by (nonlinear_arith)
        requires
            r < 6,
            g < 6,
            b < 6,
    ;
    let levels = seq![0u8, 95, 135, 175, 215, 255];
    assert(levels[0] == 0 && levels[1] == 95 && levels[2] == 135 && levels[3] == 175 && levels[4] == 215
        && levels[5] == 255);
}

/// Text is drawn in the colour its foreground names: the default text colour
/// (200, 200, 200), a palette entry, or the 24-bit colour itself.
pub proof fn lemma_foreground_colours(i: u8, r: u8, g: u8, b: u8)
    ensures
        foreground_rgb(Color::Default) == (200u8, 200u8, 200u8),
        foreground_rgb(Color::Indexed(i)) == palette(i),
        foreground_rgb(Color::Rgb(r, g, b)) == (r, g, b),
{
}

fn standard_color_exec(index: u8) -> (rgb: Rgb)
    requires
        index < 16,
    ensures
        rgb == standard_color(index),
{
    if index == 0 {
        (0, 0, 0)
    } else if index == 1 {
        (205, 0, 0)
    } else if index == 2 {
        (0, 205, 0)
    } else if index == 3 {
        (205, 205, 0)
    } else if index == 4 {
        (0, 0, 238)
    } else if index == 5 {
        (205, 0, 205)
    } else if index == 6 {
        (0, 205, 205)
    } else if index == 7 {
        (229, 229, 229)
    } else if index == 8 {
        (127, 127, 127)
    } else if index == 9 {
        (255, 0, 0)
    } else if index == 10 {
        (0, 255, 0)
    } else if index == 11 {
        (255, 255, 0)
    } else if index == 12 {
        (92, 92, 255)
    } else if index == 13 {
        (255, 0, 255)
    } else if index == 14 {
        (0, 255, 255)
    } else {
        (255, 255, 255)
    }
}

fn cube_level_exec(v: u8) -> (level: u8)
    requires
        v < 6,
    ensures
        level as int == cube_level(v as int),
{
    if v == 0 {
        0
    } else {
        55 + 40 * v
    }
}

/// Entry `index` of the 256-colour palette.
pub fn palette_rgb(index: u8) -> (rgb: Rgb)
    ensures
        rgb == palette(index),
{
    if index < 16 {
        standard_color_exec(index)
    } else if index < 232 {
        let i: u8 = index - 16;
        assert(i / 36 < 6 && (i / 6) % 6 < 6 && i % 6 < 6);
        (cube_level_exec(i / 36), cube_level_exec((i / 6) % 6), cube_level_exec(i % 6))
    } else {
        let v: u8 = 8 + 10 * (index - 232);
        (v, v, v)
    }
}

/// The colour that text of foreground `color` is drawn in: the default text
/// colour, a palette entry, or the 24-bit colour itself.
pub fn foreground(color: Color) -> (rgb: Rgb)
    ensures
        rgb == foreground_rgb(color),
{
    match color {
        Color::Default => (200, 200, 200),
        Color::Indexed(i) => palette_rgb(i),
        Color::Rgb(r, g, b) => (r, g, b),
    }
}

} // verus!
