//! The text the renderer draws for the grid: plain, and split into runs of one
//! colour.

use vstd::prelude::*;
use crate::terminal::{Cell, Terminal, TerminalView};
use crate::palette::{Rgb, default_foreground, foreground_rgb, foreground};
use crate::quads::{block_shape, block_rect, cell_quads, Quad};

verus! {

/// How a cell's character appears in the drawn text: a cell that was never
/// printed into shows a space, and so does a block character with a rectangular
/// shape, which is drawn as a filled quad instead of a glyph (see `quads`).
pub open spec fn display_char(c: char) -> char {
    if c == '\0' || block_shape(c) is Some {
        ' '
    } else {
        c
    }
}

fn display(c: char) -> (shown: char)
    ensures
        shown == display_char(c),
{
    if c == '\0' {
        return ' ';
    }
    match block_rect(c) {
        Some(_) => ' ',
        None => c,
    }
}

/// The text of one row: its characters as drawn, then a line break.
pub open spec fn row_text(row: Seq<Cell>) -> Seq<char> {
    row.map_values(|cell: Cell| display_char(cell.c)).push('\n')
}

/// The text of the whole grid: its rows' texts, top to bottom.
pub open spec fn screen_chars(cells: Seq<Seq<Cell>>) -> Seq<char>
    decreases cells.len(),
{
    if cells.len() == 0 {
        Seq::empty()
    } else {
        screen_chars(cells.drop_last()) + row_text(cells.last())
    }
}

/// `String::push` (std): appends `c`. Its contract claims the new contents are the
/// old ones followed by `c`. The bound keeps growth from panicking: the buffer
/// holds at most four bytes a character, and when full std doubles its capacity,
/// which panics past `isize::MAX` bytes; eight bytes a character, one more
/// character included, stay below that. (Running out of memory aborts the
/// process instead; nothing here rules that out.)
#[verifier::external_body]
fn string_push(s: &mut String, c: char)
    requires
        8 * (old(s)@.len() + 1) <= isize::MAX,
    ensures
        final(s)@ == old(s)@.push(c),
{
    s.push(c);
}

/// The texts of the first `i` rows are a prefix of the whole screen's text.
proof fn lemma_screen_prefix_len(cells: Seq<Seq<Cell>>, i: int)
    requires
        0 <= i <= cells.len(),
    ensures
        screen_chars(cells.take(i)).len() <= screen_chars(cells).len(),
    decreases cells.len() - i,
{
    if i < cells.len() {
        lemma_screen_prefix_len(cells, i + 1);
        assert(cells.take(i + 1).drop_last() =~= cells.take(i));
    } else {
        assert(cells.take(i) =~= cells);
    }
}

/// The text the renderer draws for `terminal`: each row's characters (a space for a
/// cell never printed into), each row ended by a line break.
pub fn screen_text(terminal: &Terminal) -> (text: String)
    requires
        8 * screen_chars(terminal@.cells).len() <= isize::MAX,
    ensures
        text@ == screen_chars(terminal@.cells),
{
    let ghost cells = terminal@.cells;
    let mut text = String::new();
    let mut r: usize = 0;
    assert(cells.take(0) =~= Seq::<Seq<Cell>>::empty());
    while r < terminal.grid.len()
        invariant
            r <= terminal.grid@.len(),
            cells == terminal@.cells,
            cells.len() == terminal.grid@.len(),
            8 * screen_chars(cells).len() <= isize::MAX,
            text@ == screen_chars(cells.take(r as int)),
        decreases terminal.grid@.len() - r,
    {
        let row: &Vec<Cell> = &terminal.grid[r];
        assert(row@ == cells[r as int]);
        assert(cells.take(r + 1).drop_last() =~= cells.take(r as int));
        assert(cells.take(r + 1).last() == row@);
        proof {
            lemma_screen_prefix_len(cells, r + 1);
        }
        let ghost start = text@;
        let ghost shown = row@.map_values(|cell: Cell| display_char(cell.c));
        let mut c: usize = 0;
        while c < row.len()
            invariant
                c <= row@.len(),
                shown.len() == row@.len(),
                forall|j: int| 0 <= j < row@.len() ==> #[trigger] shown[j] == display_char(row@[j].c),
                start + row_text(row@) == screen_chars(cells.take(r + 1)),
                8 * screen_chars(cells.take(r + 1)).len() <= isize::MAX,
                text@ == start + shown.take(c as int),
            decreases row@.len() - c,
        {
            let ch: char = row[c].c;
            let shown_ch: char = display(ch);
            string_push(&mut text, shown_ch);
            assert(shown.take(c + 1) =~= shown.take(c as int).push(shown_ch));
            c = c + 1;
        }
        assert(shown.take(c as int) =~= shown);
        string_push(&mut text, '\n');
        assert(text@ =~= start + row_text(row@));
        r = r + 1;
    }
    assert(cells.take(r as int) =~= cells);
    text
}

/// The characters of one row as drawn, each with the colour of its text; the
/// line break takes the default text colour.
pub open spec fn colored_row(row: Seq<Cell>) -> Seq<(char, Rgb)> {
    row.map_values(|cell: Cell| (display_char(cell.c), foreground_rgb(cell.fg))).push(('\n', default_foreground()))
}

/// The screen's characters with their colours, row by row.
pub open spec fn colored_screen(cells: Seq<Seq<Cell>>) -> Seq<(char, Rgb)>
    decreases cells.len(),
{
    if cells.len() == 0 {
        Seq::empty()
    } else {
        colored_screen(cells.drop_last()) + colored_row(cells.last())
    }
}

/// A stretch of screen text drawn in one colour.
pub struct TextRun {
    pub text: String,
    pub color: Rgb,
}

/// The characters of a run, each with the run's colour.
pub open spec fn run_pairs(text: Seq<char>, color: Rgb) -> Seq<(char, Rgb)> {
    text.map_values(|c: char| (c, color))
}

/// The characters of the runs in order, each with its run's colour.
pub open spec fn runs_pairs(runs: Seq<TextRun>) -> Seq<(char, Rgb)>
    decreases runs.len(),
{
    if runs.len() == 0 {
        Seq::empty()
    } else {
        runs_pairs(runs.drop_last()) + run_pairs(runs.last().text@, runs.last().color)
    }
}

/// The text of the runs, one after the other.
pub open spec fn runs_text(runs: Seq<TextRun>) -> Seq<char>
    decreases runs.len(),
{
    if runs.len() == 0 {
        Seq::empty()
    } else {
        runs_text(runs.drop_last()) + runs.last().text@
    }
}

/// No run is empty, and neighbouring runs differ in colour: each run is as long
/// as its colour lasts.
pub open spec fn maximal_runs(runs: Seq<TextRun>) -> bool {
    &&& forall|i: int| 0 <= i < runs.len() ==> (#[trigger] runs[i]).text@.len() > 0
    &&& forall|i: int, j: int| 0 <= i && j == i + 1 && j < runs.len() ==> #[trigger] runs[i].color != #[trigger] runs[j].color
}

proof fn lemma_runs_push(runs: Seq<TextRun>, run: TextRun)
    ensures
        runs_pairs(runs.push(run)) == runs_pairs(runs) + run_pairs(run.text@, run.color),
        runs_text(runs.push(run)) == runs_text(runs) + run.text@,
{
    assert(runs.push(run).drop_last() =~= runs);
}

/// Dropping the colours of the runs' characters leaves the runs' text.
pub proof fn lemma_runs_text(runs: Seq<TextRun>)
    ensures
        runs_pairs(runs).map_values(|p: (char, Rgb)| p.0) == runs_text(runs),
    decreases runs.len(),
{
    if runs.len() > 0 {
        lemma_runs_text(runs.drop_last());
        let last = runs.last();
        assert(runs_pairs(runs).map_values(|p: (char, Rgb)| p.0) =~= runs_pairs(runs.drop_last()).map_values(
            |p: (char, Rgb)| p.0,
        ) + run_pairs(last.text@, last.color).map_values(|p: (char, Rgb)| p.0));
        assert(run_pairs(last.text@, last.color).map_values(|p: (char, Rgb)| p.0) =~= last.text@);
    }
}

/// Dropping the colours of the coloured screen leaves the screen text.
pub proof fn lemma_colored_screen_text(cells: Seq<Seq<Cell>>)
    ensures
        colored_screen(cells).map_values(|p: (char, Rgb)| p.0) == screen_chars(cells),
        colored_screen(cells).len() == screen_chars(cells).len(),
    decreases cells.len(),
{
    if cells.len() > 0 {
        lemma_colored_screen_text(cells.drop_last());
        let last = cells.last();
        assert(colored_screen(cells).map_values(|p: (char, Rgb)| p.0) =~= colored_screen(cells.drop_last()).map_values(
            |p: (char, Rgb)| p.0,
        ) + colored_row(last).map_values(|p: (char, Rgb)| p.0));
        assert(colored_row(last).map_values(|p: (char, Rgb)| p.0) =~= row_text(last));
    }
}

/// The screen split into runs of one colour for drawing: read in order, the runs
/// give every character of the screen text with the colour it is drawn in (its
/// cell's foreground; the default text colour for line breaks), and each run is
/// as long as its colour lasts.
pub fn colored_runs(terminal: &Terminal) -> (runs: Vec<TextRun>)
    requires
        8 * screen_chars(terminal@.cells).len() <= isize::MAX,
    ensures
        runs_pairs(runs@) == colored_screen(terminal@.cells),
        runs_text(runs@) == screen_chars(terminal@.cells),
        maximal_runs(runs@),
{
    let ghost cells = terminal@.cells;
    proof {
        lemma_colored_screen_text(cells);
    }
    let mut runs: Vec<TextRun> = Vec::new();
    let mut cur_text = String::new();
    let mut cur_color: Rgb = (200, 200, 200);
    let mut started: bool = false;
    let mut r: usize = 0;
    assert(cells.take(0) =~= Seq::<Seq<Cell>>::empty());
    while r < terminal.grid.len()
        invariant
            r <= terminal.grid@.len(),
            cells == terminal@.cells,
            cells.len() == terminal.grid@.len(),
            colored_screen(cells).len() == screen_chars(cells).len(),
            8 * screen_chars(cells).len() <= isize::MAX,
            runs_pairs(runs@) + run_pairs(cur_text@, cur_color) == colored_screen(cells.take(r as int)),
            maximal_runs(runs@),
            cur_text@.len() > 0 || runs@.len() == 0,
            started == (cur_text@.len() > 0),
            runs@.len() > 0 ==> runs@.last().color != cur_color,
        decreases terminal.grid@.len() - r,
    {
        let row: &Vec<Cell> = &terminal.grid[r];
        assert(row@ == cells[r as int]);
        assert(cells.take(r + 1).drop_last() =~= cells.take(r as int));
        assert(cells.take(r + 1).last() == row@);
        proof {
            lemma_screen_prefix_len(cells, r + 1);
            lemma_colored_screen_text(cells.take(r + 1));
        }
        let ghost start = colored_screen(cells.take(r as int));
        let ghost shown = row@.map_values(|cell: Cell| (display_char(cell.c), foreground_rgb(cell.fg)));
        let mut c: usize = 0;
        while c <= row.len()
            invariant
                c <= row@.len() + 1,
                shown.len() == row@.len(),
                forall|j: int| 0 <= j < row@.len() ==> #[trigger] shown[j] == (display_char(row@[j].c), foreground_rgb(row@[j].fg)),
                start + colored_row(row@) == colored_screen(cells.take(r + 1)),
                colored_screen(cells.take(r + 1)).len() <= screen_chars(cells).len(),
                8 * screen_chars(cells).len() <= isize::MAX,
                runs_pairs(runs@) + run_pairs(cur_text@, cur_color) == start + colored_row(row@).take(c as int),
                maximal_runs(runs@),
                cur_text@.len() > 0 || runs@.len() == 0,
                started == (cur_text@.len() > 0),
                runs@.len() > 0 ==> runs@.last().color != cur_color,
            decreases row@.len() + 1 - c,
        {
            let (ch, color) = if c < row.len() {
                let cell: Cell = row[c];
                let shown_ch: char = display(cell.c);
                (shown_ch, foreground(cell.fg))
            } else {
                ('\n', (200, 200, 200))
            };
            assert(colored_row(row@)[c as int] == (ch, color));
            assert(colored_row(row@).take(c + 1) =~= colored_row(row@).take(c as int).push((ch, color)));
            proof {
                assert(run_pairs(cur_text@, cur_color).len() == cur_text@.len());
                assert(colored_row(row@).len() == row@.len() + 1);
                assert(colored_row(row@).take(c as int).len() == c);
                assert((runs_pairs(runs@) + run_pairs(cur_text@, cur_color)).len() == start.len() + c);
                assert((start + colored_row(row@)).len() == start.len() + row@.len() + 1);
                assert(colored_screen(cells.take(r + 1)).len() == start.len() + row@.len() + 1);
                assert(runs_pairs(runs@).len() + cur_text@.len() < colored_screen(cells.take(r + 1)).len());
            }
            let same: bool = cur_color.0 == color.0 && cur_color.1 == color.1 && cur_color.2 == color.2;
            if !started || same {
                let ghost before = cur_text@;
                let ghost old_color = cur_color;
                assert(run_pairs(before, old_color) =~= run_pairs(before, color));
                cur_color = color;
                string_push(&mut cur_text, ch);
                started = true;
                assert(run_pairs(cur_text@, cur_color) =~= run_pairs(before, cur_color).push((ch, color)));
                assert(runs_pairs(runs@) + run_pairs(before, old_color) == start + colored_row(row@).take(c as int));
                assert(runs_pairs(runs@) + run_pairs(cur_text@, cur_color) =~= (runs_pairs(runs@) + run_pairs(
                    before,
                    old_color,
                )).push((ch, color)));
                assert(runs_pairs(runs@) + run_pairs(cur_text@, cur_color) =~= start + colored_row(row@).take(c + 1));
            } else {
                let done = TextRun { text: cur_text, color: cur_color };
                proof {
                    lemma_runs_push(runs@, done);
                }
                runs.push(done);
                cur_text = String::new();
                cur_color = color;
                string_push(&mut cur_text, ch);
                assert(run_pairs(cur_text@, cur_color) =~= seq![(ch, color)]);
                assert(runs_pairs(runs@) + run_pairs(cur_text@, cur_color) =~= start + colored_row(row@).take(c + 1));
            }
            c = c + 1;
        }
        assert(colored_row(row@).take(c as int) =~= colored_row(row@));
        r = r + 1;
    }
    assert(cells.take(r as int) =~= cells);
    if started {
        let done = TextRun { text: cur_text, color: cur_color };
        proof {
            lemma_runs_push(runs@, done);
        }
        runs.push(done);
    } else {
        assert(run_pairs(cur_text@, cur_color) =~= Seq::<(char, Rgb)>::empty());
    }
    proof {
        lemma_runs_text(runs@);
        lemma_colored_screen_text(cells);
    }
    runs
}

/// Every row of `cells` holds `cols` cells.
pub open spec fn rows_of_width(cells: Seq<Seq<Cell>>, cols: int) -> bool {
    forall|r: int| 0 <= r < cells.len() ==> (#[trigger] cells[r]).len() == cols
}

proof fn lemma_row_offset(r: int, col: int, rows: int, cols: int)
    requires
        0 <= r < rows,
        0 <= col <= cols,
    ensures
        0 <= r * (cols + 1) + col < rows * (cols + 1),
        r < rows - 1 ==> r * (cols + 1) + col < (rows - 1) * (cols + 1),
        r == rows - 1 ==> r * (cols + 1) + col - (rows - 1) * (cols + 1) == col,
{
    assert(0 <= r * (cols + 1)) by (nonlinear_arith)
        requires
            0 <= r,
            0 <= cols,
    ;
    assert(r * (cols + 1) + col < rows * (cols + 1)) by (nonlinear_arith)
        requires
            0 <= r < rows,
            0 <= col <= cols,
    ;
    if r < rows - 1 {
        assert(r * (cols + 1) + col < (rows - 1) * (cols + 1)) by (nonlinear_arith)
            requires
                0 <= r < rows - 1,
                0 <= col <= cols,
        ;
    }
}

/// The screen text of a grid whose rows all hold `cols` cells: `cols + 1`
/// characters a row; in row `r`, position `col` shows the cell's character as drawn
/// and position `cols` the line break.
pub proof fn lemma_screen_layout(cells: Seq<Seq<Cell>>, cols: int)
    requires
        cols >= 0,
        rows_of_width(cells, cols),
    ensures
        screen_chars(cells).len() == cells.len() * (cols + 1),
        forall|r: int, col: int|
            0 <= r < cells.len() && 0 <= col < cols ==> #[trigger] screen_chars(cells)[r * (cols + 1) + col]
                == display_char(cells[r][col].c),
        forall|r: int| 0 <= r < cells.len() ==> #[trigger] screen_chars(cells)[r * (cols + 1) + cols] == '\n',
    decreases cells.len(),
{
    if cells.len() > 0 {
        let prefix = cells.drop_last();
        let n = cells.len() as int;
        assert(rows_of_width(prefix, cols)) by {
            assert forall|r: int| 0 <= r < prefix.len() implies (#[trigger] prefix[r]).len() == cols by {
                assert(prefix[r] == cells[r]);
            }
        }
        lemma_screen_layout(prefix, cols);
        let last = cells.last();
        assert(last == cells[n - 1]);
        let whole = screen_chars(cells);
        let head = screen_chars(prefix);
        assert(whole == head + row_text(last));
        assert(head.len() == (n - 1) * (cols + 1));
        assert(n * (cols + 1) == (n - 1) * (cols + 1) + cols + 1) by (nonlinear_arith);
        assert forall|r: int, col: int| 0 <= r < n && 0 <= col <= cols implies #[trigger] whole[r * (cols + 1)
            + col] == (if col < cols {
            display_char(cells[r][col].c)
        } else {
            '\n'
        }) by {
            lemma_row_offset(r, col, n, cols);
            if r < n - 1 {
                assert(whole[r * (cols + 1) + col] == head[r * (cols + 1) + col]);
                assert(prefix[r] == cells[r]);
                if col == cols {
                    assert(head[r * (cols + 1) + cols] == '\n');
                } else {
                    assert(head[r * (cols + 1) + col] == display_char(prefix[r][col].c));
                }
            } else {
                assert(whole[r * (cols + 1) + col] == row_text(last)[col]);
            }
        }
        assert forall|r: int, col: int|
            0 <= r < n && 0 <= col < cols implies #[trigger] whole[r * (cols + 1) + col]
                == display_char(cells[r][col].c) by {
            assert(whole[r * (cols + 1) + col] == (if col < cols {
                display_char(cells[r][col].c)
            } else {
                '\n'
            }));
        }
        assert forall|r: int| 0 <= r < n implies #[trigger] whole[r * (cols + 1) + cols] == '\n' by {
            assert(whole[r * (cols + 1) + cols] == (if cols < cols {
                display_char(cells[r][cols].c)
            } else {
                '\n'
            }));
        }
    }
}

/// A well-formed terminal whose cells are all blank, as a new one is, shows
/// `rows` lines of `cols` spaces.
pub proof fn lemma_blank_screen(v: TerminalView)
    requires
        v.wf(),
        v.all_blank(),
    ensures
        screen_chars(v.cells).len() == v.rows * (v.cols + 1),
        forall|r: int, col: int|
            0 <= r < v.rows && 0 <= col < v.cols ==> #[trigger] screen_chars(v.cells)[r * (v.cols + 1) + col]
                == ' ',
        forall|r: int| 0 <= r < v.rows ==> #[trigger] screen_chars(v.cells)[r * (v.cols + 1) + v.cols] == '\n',
{
    lemma_screen_layout(v.cells, v.cols as int);
    assert forall|r: int, col: int| 0 <= r < v.rows && 0 <= col < v.cols implies #[trigger] screen_chars(
        v.cells,
    )[r * (v.cols + 1) + col] == ' ' by {
        assert(v.cells[r][col] == crate::terminal::blank_cell());
    }
}

/// What a print writes, the screen shows: after printing `c` inside a well-formed
/// grid, the screen text at the printed cell's position shows `c` as drawn.
pub proof fn lemma_print_shows_on_screen(v: TerminalView, c: char)
    requires
        v.wf(),
        v.cursor_in_bounds(),
    ensures
        screen_chars(v.printed(c).cells)[v.cursor_row * (v.cols + 1) + v.cursor_col] == display_char(c),
        screen_chars(v.printed(c).cells).len() == v.rows * (v.cols + 1),
{
    let w = v.printed(c);
    crate::terminal::lemma_actions_keep_wf(v, c, 0, Seq::empty(), Seq::empty(), false, 'm');
    assert(rows_of_width(w.cells, w.cols as int));
    lemma_screen_layout(w.cells, w.cols as int);
    assert(w.cells[v.cursor_row as int][v.cursor_col as int].c == c);
}

/// A block character with a rectangular shape is drawn as a quad, not as text:
/// printed inside a well-formed grid, it shows as a space in the drawn text,
/// and its cell's quads end with its shape in the pen's text colour.
pub proof fn lemma_block_drawn_as_quad(v: TerminalView, c: char)
    requires
        v.wf(),
        v.cursor_in_bounds(),
        block_shape(c) is Some,
    ensures
        screen_chars(v.printed(c).cells)[v.cursor_row * (v.cols + 1) + v.cursor_col] == ' ',
        ({
            let cell = v.printed(c).cells[v.cursor_row as int][v.cursor_col as int];
            let qs = cell_quads(v.cursor_row as int, v.cursor_col as int, cell);
            let s = block_shape(c)->0;
            &&& qs.len() > 0
            &&& qs.last() == Quad {
                row: v.cursor_row,
                col: v.cursor_col,
                left: s.0,
                top: s.1,
                right: s.2,
                bottom: s.3,
                color: foreground_rgb(v.pen.fg),
                background: false,
            }
        }),
{
    lemma_print_shows_on_screen(v, c);
    assert(v.printed(c).cells[v.cursor_row as int][v.cursor_col as int].c == c);
}

/// Every character outside the Block Elements range U+2580–U+259F, other than
/// the never-printed `'\0'`, appears in the drawn text as itself.
pub proof fn lemma_text_keeps_characters(c: char)
    requires
        c != '\0',
        !(0x2580 <= c as u32 <= 0x259F),
    ensures
        display_char(c) == c,
{
    crate::quads::lemma_block_shapes_are_block_elements(c);
}

/// In a grid whose rows hold `cols` cells, the screen text at row `r`, column
/// `col` is the cell's own character, wherever that character is neither `'\0'`
/// nor a block element.
pub proof fn lemma_screen_shows_cell_characters(cells: Seq<Seq<Cell>>, cols: int, r: int, col: int)
    requires
        cols >= 0,
        rows_of_width(cells, cols),
        0 <= r < cells.len(),
        0 <= col < cols,
        cells[r][col].c != '\0',
        !(0x2580 <= cells[r][col].c as u32 <= 0x259F),
    ensures
        screen_chars(cells)[r * (cols + 1) + col] == cells[r][col].c,
{
    lemma_screen_layout(cells, cols);
    lemma_text_keeps_characters(cells[r][col].c);
}

/// In a grid whose rows hold `cols` cells, the coloured text gives each cell's
/// character as drawn in the colour of the cell's foreground, and each line break
/// in the default text colour.
pub proof fn lemma_colored_layout(cells: Seq<Seq<Cell>>, cols: int)
    requires
        cols >= 0,
        rows_of_width(cells, cols),
    ensures
        colored_screen(cells).len() == cells.len() * (cols + 1),
        forall|r: int, col: int|
            0 <= r < cells.len() && 0 <= col < cols ==> #[trigger] colored_screen(cells)[r * (cols + 1) + col]
                == (display_char(cells[r][col].c), foreground_rgb(cells[r][col].fg)),
        forall|r: int|
            0 <= r < cells.len() ==> #[trigger] colored_screen(cells)[r * (cols + 1) + cols] == ('\n', default_foreground()),
    decreases cells.len(),
{
    if cells.len() > 0 {
        let prefix = cells.drop_last();
        let n = cells.len() as int;
        assert(rows_of_width(prefix, cols)) by {
            assert forall|r: int| 0 <= r < prefix.len() implies (#[trigger] prefix[r]).len() == cols by {
                assert(prefix[r] == cells[r]);
            }
        }
        lemma_colored_layout(prefix, cols);
        let last = cells.last();
        assert(last == cells[n - 1]);
        let whole = colored_screen(cells);
        let head = colored_screen(prefix);
        assert(whole == head + colored_row(last));
        assert(n * (cols + 1) == (n - 1) * (cols + 1) + cols + 1) by (nonlinear_arith);
        assert forall|r: int, col: int| 0 <= r < n && 0 <= col <= cols implies #[trigger] whole[r * (cols + 1)
            + col] == (if col < cols {
            (display_char(cells[r][col].c), foreground_rgb(cells[r][col].fg))
        } else {
            ('\n', default_foreground())
        }) by {
            lemma_row_offset(r, col, n, cols);
            if r < n - 1 {
                assert(whole[r * (cols + 1) + col] == head[r * (cols + 1) + col]);
                assert(prefix[r] == cells[r]);
                if col == cols {
                    assert(head[r * (cols + 1) + cols] == ('\n', default_foreground()));
                } else {
                    assert(head[r * (cols + 1) + col] == (display_char(prefix[r][col].c), foreground_rgb(prefix[r][col].fg)));
                }
            } else {
                assert(whole[r * (cols + 1) + col] == colored_row(last)[col]);
            }
        }
        assert forall|r: int, col: int|
            0 <= r < n && 0 <= col < cols implies #[trigger] whole[r * (cols + 1) + col]
                == (display_char(cells[r][col].c), foreground_rgb(cells[r][col].fg)) by {
            assert(whole[r * (cols + 1) + col] == (if col < cols {
                (display_char(cells[r][col].c), foreground_rgb(cells[r][col].fg))
            } else {
                ('\n', default_foreground())
            }));
        }
        assert forall|r: int| 0 <= r < n implies #[trigger] whole[r * (cols + 1) + cols] == ('\n', default_foreground()) by {
            assert(whole[r * (cols + 1) + cols] == (if cols < cols {
                (display_char(cells[r][cols].c), foreground_rgb(cells[r][cols].fg))
            } else {
                ('\n', default_foreground())
            }));
        }
    }
}

} // verus!
