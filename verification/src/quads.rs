//! The rectangles the renderer fills besides the text: cell backgrounds in their
//! colour, and block characters drawn as exact shapes in their text colour.

use vstd::prelude::*;
use crate::palette::{Rgb, palette, palette_rgb, foreground_rgb, foreground};
use crate::sgr::Color;
use crate::terminal::{Cell, Terminal};

verus! {

/// A rectangle inside the cell at `row`, `col`, from `left` to `right` and from
/// `top` to `bottom` in eighths of the cell's width and height, filled with
/// `color`; `background` says whether it lies under the text or is a glyph's shape.
#[derive(Clone, Copy, Debug, PartialEq, Eq)]
pub struct Quad {
    pub row: usize,
    pub col: usize,
    pub left: u8,
    pub top: u8,
    pub right: u8,
    pub bottom: u8,
    pub color: Rgb,
    pub background: bool,
}

/// The colour a cell's background is filled with: none for the default background.
pub open spec fn background_rgb(color: Color) -> Option<Rgb> {
    match color {
        Color::Default => None,
        Color::Indexed(i) => Some(palette(i)),
        Color::Rgb(r, g, b) => Some((r, g, b)),
    }
}

/// The shape (left, top, right, bottom, in eighths of the cell) of the block
/// characters that are one rectangle: the upper half `▀`, the lower eighths
/// `▁`…`▇` and the full block `█`, the left eighths `▉`…`▏`, the right half `▐`,
/// the upper and right eighths `▔` `▕`, and the single quadrants `▖ ▗ ▘ ▝`.
pub open spec fn block_shape(c: char) -> Option<(u8, u8, u8, u8)> {
    let u = c as u32;
    if u == 0x2580 {
        Some((0, 0, 8, 4))
    } else if 0x2581 <= u <= 0x2588 {
        Some((0, (8 - (u - 0x2580)) as u8, 8, 8))
    } else if 0x2589 <= u <= 0x258F {
        Some((0, 0, (8 - (u - 0x2588)) as u8, 8))
    } else if u == 0x2590 {
        Some((4, 0, 8, 8))
    } else if u == 0x2594 {
        Some((0, 0, 8, 1))
    } else if u == 0x2595 {
        Some((7, 0, 8, 8))
    } else if u == 0x2596 {
        Some((0, 4, 4, 8))
    } else if u == 0x2597 {
        Some((4, 4, 8, 8))
    } else if u == 0x2598 {
        Some((0, 0, 4, 4))
    } else if u == 0x259D {
        Some((4, 0, 8, 4))
    } else {
        None
    }
}

/// Only characters of the Block Elements range U+2580–U+259F have a shape, and
/// every shape is a non-empty rectangle inside the cell.
pub proof fn lemma_block_shapes_are_block_elements(c: char)
    ensures
        block_shape(c) is Some ==> 0x2580 <= c as u32 <= 0x259F,
        block_shape(c) is Some ==> ({
            let s = block_shape(c)->0;
            s.0 < s.2 <= 8 && s.1 < s.3 <= 8
        }),
{
}

/// The shapes fill what the characters picture: `█` the whole cell, `▀` its
/// upper half, `▐` its right half; U+2580 + k (k = 1..8) the lower k eighths,
/// U+2588 + k (k = 1..7) the left 8 − k eighths; `▔` the upper and `▕` the right
/// eighth; `▖ ▗ ▘ ▝` the lower-left, lower-right, upper-left and upper-right quarter.
pub proof fn lemma_block_shapes(c: char, k: u32)
    ensures
        c as u32 == 0x2588 ==> block_shape(c) == Some((0u8, 0u8, 8u8, 8u8)),
        c as u32 == 0x2580 ==> block_shape(c) == Some((0u8, 0u8, 8u8, 4u8)),
        c as u32 == 0x2590 ==> block_shape(c) == Some((4u8, 0u8, 8u8, 8u8)),
        1 <= k <= 8 && c as u32 == 0x2580 + k ==> block_shape(c) == Some((0u8, (8 - k) as u8, 8u8, 8u8)),
        1 <= k <= 7 && c as u32 == 0x2588 + k ==> block_shape(c) == Some((0u8, 0u8, (8 - k) as u8, 8u8)),
        c as u32 == 0x2594 ==> block_shape(c) == Some((0u8, 0u8, 8u8, 1u8)),
        c as u32 == 0x2595 ==> block_shape(c) == Some((7u8, 0u8, 8u8, 8u8)),
        c as u32 == 0x2596 ==> block_shape(c) == Some((0u8, 4u8, 4u8, 8u8)),
        c as u32 == 0x2597 ==> block_shape(c) == Some((4u8, 4u8, 8u8, 8u8)),
        c as u32 == 0x2598 ==> block_shape(c) == Some((0u8, 0u8, 4u8, 4u8)),
        c as u32 == 0x259D ==> block_shape(c) == Some((4u8, 0u8, 8u8, 4u8)),
{
}

/// The quads of the cell at `row`, `col`: its background (the whole cell) where
/// it is not the default, then its block shape in its text colour.
pub open spec fn cell_quads(row: int, col: int, cell: Cell) -> Seq<Quad> {
    let bg = match background_rgb(cell.bg) {
        Some(color) => seq![Quad { row: row as usize, col: col as usize, left: 0, top: 0, right: 8, bottom: 8, color, background: true }],
        None => Seq::empty(),
    };
    let block = match block_shape(cell.c) {
        Some(s) => seq![
            Quad {
                row: row as usize,
                col: col as usize,
                left: s.0,
                top: s.1,
                right: s.2,
                bottom: s.3,
                color: foreground_rgb(cell.fg),
                background: false,
            },
        ],
        None => Seq::empty(),
    };
    bg + block
}

/// A cell is filled with its background colour exactly when its background is
/// not the default: a palette entry's colour or the 24-bit colour itself, over
/// the whole cell and under the text; a block character adds its shape, in the
/// cell's text colour, on top of it.
pub proof fn lemma_cell_quads(row: int, col: int, cell: Cell)
    ensures
        cell.bg == Color::Default && block_shape(cell.c) is None ==> cell_quads(row, col, cell).len() == 0,
        cell.bg != Color::Default ==> ({
            let q = cell_quads(row, col, cell)[0];
            &&& q.left == 0 && q.top == 0 && q.right == 8 && q.bottom == 8
            &&& q.background
            &&& q.row == row as usize && q.col == col as usize
            &&& (cell.bg matches Color::Indexed(i) ==> q.color == palette(i))
            &&& (cell.bg matches Color::Rgb(r, g, b) ==> q.color == (r, g, b))
        }),
        block_shape(cell.c) is Some ==> ({
            let qs = cell_quads(row, col, cell);
            let q = qs.last();
            let s = block_shape(cell.c)->0;
            &&& qs.len() > 0
            &&& !q.background
            &&& (q.left, q.top, q.right, q.bottom) == s
            &&& q.color == foreground_rgb(cell.fg)
        }),
        cell_quads(row, col, cell).len() == (if cell.bg != Color::Default { 1int } else { 0int }) + (if block_shape(
            cell.c,
        ) is Some {
            1int
        } else {
            0int
        }),
{
}

/// The quads of the first `n` cells of row `row`, left to right.
pub open spec fn row_quads(row: int, cells: Seq<Cell>, n: int) -> Seq<Quad>
    decreases n,
{
    if n <= 0 {
        Seq::empty()
    } else {
        row_quads(row, cells, n - 1) + cell_quads(row, n - 1, cells[n - 1])
    }
}

/// The quads of the first `n` rows, top to bottom.
pub open spec fn screen_quads(cells: Seq<Seq<Cell>>, n: int) -> Seq<Quad>
    decreases n,
{
    if n <= 0 {
        Seq::empty()
    } else {
        screen_quads(cells, n - 1) + row_quads(n - 1, cells[n - 1], cells[n - 1].len() as int)
    }
}

fn background_exec(color: Color) -> (rgb: Option<Rgb>)
    ensures
        rgb == background_rgb(color),
{
    match color {
        Color::Default => None,
        Color::Indexed(i) => Some(palette_rgb(i)),
        Color::Rgb(r, g, b) => Some((r, g, b)),
    }
}

/// The shape of `c` where it is a one-rectangle block character (see `block_shape`).
pub fn block_rect(c: char) -> (shape: Option<(u8, u8, u8, u8)>)
    ensures
        shape == block_shape(c),
{
    let u: u32 = c as u32;
    if u == 0x2580 {
        Some((0, 0, 8, 4))
    } else if 0x2581 <= u && u <= 0x2588 {
        Some((0, (8 - (u - 0x2580)) as u8, 8, 8))
    } else if 0x2589 <= u && u <= 0x258F {
        Some((0, 0, (8 - (u - 0x2588)) as u8, 8))
    } else if u == 0x2590 {
        Some((4, 0, 8, 8))
    } else if u == 0x2594 {
        Some((0, 0, 8, 1))
    } else if u == 0x2595 {
        Some((7, 0, 8, 8))
    } else if u == 0x2596 {
        Some((0, 4, 4, 8))
    } else if u == 0x2597 {
        Some((4, 4, 8, 8))
    } else if u == 0x2598 {
        Some((0, 0, 4, 4))
    } else if u == 0x259D {
        Some((4, 0, 8, 4))
    } else {
        None
    }
}

/// The rectangles to fill for `terminal`, cell by cell in reading order: each
/// cell's background where it is not the default, then the shape of its block
/// character, if it is one, in its text colour.
pub fn quads(terminal: &Terminal) -> (quads: Vec<Quad>)
    ensures
        quads@ == screen_quads(terminal@.cells, terminal@.cells.len() as int),
{
    let ghost cells = terminal@.cells;
    let mut quads: Vec<Quad> = Vec::new();
    let mut r: usize = 0;
    while r < terminal.grid.len()
        invariant
            r <= terminal.grid@.len(),
            cells == terminal@.cells,
            cells.len() == terminal.grid@.len(),
            quads@ == screen_quads(cells, r as int),
        decreases terminal.grid@.len() - r,
    {
        let row: &Vec<Cell> = &terminal.grid[r];
        assert(row@ == cells[r as int]);
        let ghost start = quads@;
        let mut c: usize = 0;
        while c < row.len()
            invariant
                c <= row@.len(),
                row@ == cells[r as int],
                start == screen_quads(cells, r as int),
                quads@ == start + row_quads(r as int, row@, c as int),
            decreases row@.len() - c,
        {
            let cell: Cell = row[c];
            let ghost before = quads@;
            match background_exec(cell.bg) {
                Some(color) => {
                    quads.push(Quad { row: r, col: c, left: 0, top: 0, right: 8, bottom: 8, color, background: true });
                },
                None => {},
            }
            match block_rect(cell.c) {
                Some(s) => {
                    quads.push(
                        Quad {
                            row: r,
                            col: c,
                            left: s.0,
                            top: s.1,
                            right: s.2,
                            bottom: s.3,
                            color: foreground(cell.fg),
                            background: false,
                        },
                    );
                },
                None => {},
            }
            assert(quads@ =~= before + cell_quads(r as int, c as int, cell));
            c = c + 1;
        }
        r = r + 1;
    }
    quads
}

/// A screen whose cells are all blank, as a new terminal's are, fills no rectangle.
pub proof fn lemma_blank_screen_has_no_quads(cells: Seq<Seq<Cell>>, n: int)
    requires
        0 <= n <= cells.len(),
        forall|r: int, c: int|
            0 <= r < cells.len() && 0 <= c < cells[r].len() ==> #[trigger] cells[r][c] == crate::terminal::blank_cell(),
    ensures
        screen_quads(cells, n) == Seq::<Quad>::empty(),
    decreases n,
{
    if n > 0 {
        lemma_blank_screen_has_no_quads(cells, n - 1);
        lemma_blank_row_has_no_quads(n - 1, cells[n - 1], cells[n - 1].len() as int);
        assert(screen_quads(cells, n) =~= Seq::<Quad>::empty());
    }
}

proof fn lemma_blank_row_has_no_quads(row: int, cells: Seq<Cell>, n: int)
    requires
        0 <= n <= cells.len(),
        forall|c: int| 0 <= c < cells.len() ==> #[trigger] cells[c] == crate::terminal::blank_cell(),
    ensures
        row_quads(row, cells, n) == Seq::<Quad>::empty(),
    decreases n,
{
    if n > 0 {
        lemma_blank_row_has_no_quads(row, cells, n - 1);
        assert(cells[n - 1] == crate::terminal::blank_cell());
        assert(cell_quads(row, n - 1, cells[n - 1]) =~= Seq::<Quad>::empty());
        assert(row_quads(row, cells, n) =~= Seq::<Quad>::empty());
    }
}

} // verus!
