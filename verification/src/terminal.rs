//! The cell grid and the cursor, as the parser's actions change them.

use vstd::prelude::*;
use crate::sgr::{Color, Pen, default_pen, sgr, apply_sgr};

verus! {

/// One character cell of the grid, with the colours it was printed with.
#[derive(Clone, Copy, Debug, PartialEq, Eq, Structural)]
pub struct Cell {
    pub c: char,
    pub fg: Color,
    pub bg: Color,
}

/// A cell that nothing has been printed into.
pub open spec fn blank_cell() -> Cell {
    Cell { c: '\0', fg: Color::Default, bg: Color::Default }
}

impl Default for Cell {
    fn default() -> (cell: Cell)
        ensures
            cell == blank_cell(),
    {
        Cell { c: '\0', fg: Color::Default, bg: Color::Default }
    }
}

/// The grid of `rows` rows of `cols` cells, the cursor and the pen.
pub struct Terminal {
    pub grid: Vec<Vec<Cell>>,
    pub cursor_col: usize,
    pub cursor_row: usize,
    pub cols: usize,
    pub rows: usize,
    pub pen: Pen,
}

/// The mathematical state of a terminal: the cells row by row, and the rest as it is.
pub struct TerminalView {
    pub cells: Seq<Seq<Cell>>,
    pub cursor_col: usize,
    pub cursor_row: usize,
    pub cols: usize,
    pub rows: usize,
    pub pen: Pen,
}

impl View for Terminal {
    type V = TerminalView;

    open spec fn view(&self) -> TerminalView {
        TerminalView {
            cells: self.grid@.map_values(|row: Vec<Cell>| row@),
            cursor_col: self.cursor_col,
            cursor_row: self.cursor_row,
            cols: self.cols,
            rows: self.rows,
            pen: self.pen,
        }
    }
}

impl TerminalView {
    /// The grid has `rows` rows of `cols` cells, and the cursor stands on it
    /// (one past the last column after the last printed character of a row).
    pub open spec fn wf(self) -> bool {
        &&& self.cells.len() == self.rows
        &&& forall|r: int| 0 <= r < self.rows ==> (#[trigger] self.cells[r]).len() == self.cols
        &&& self.cursor_col <= self.cols
        &&& (self.cursor_row < self.rows || (self.rows == 0 && self.cursor_row == 0))
    }

    /// The cursor names a cell inside the declared size.
    pub open spec fn cursor_in_bounds(self) -> bool {
        self.cursor_col < self.cols && self.cursor_row < self.rows
    }

    /// The grid holds the cell under the cursor.
    pub open spec fn cursor_cell_exists(self) -> bool {
        self.cursor_row < self.cells.len() && self.cursor_col < self.cells[self.cursor_row as int].len()
    }

    /// Every cell is blank.
    pub open spec fn all_blank(self) -> bool {
        forall|r: int, c: int|
            0 <= r < self.cells.len() && 0 <= c < self.cells[r].len() ==> #[trigger] self.cells[r][c]
                == blank_cell()
    }

    /// The state after printing `c`: inside the grid the cursor's cell takes `c` in the
    /// pen's colours and the cursor moves one column right; outside, nothing changes.
    pub open spec fn printed(self, c: char) -> TerminalView {
        if self.cursor_in_bounds() {
            let row = self.cursor_row as int;
            TerminalView {
                cells: self.cells.update(
                    row,
                    self.cells[row].update(
                        self.cursor_col as int,
                        Cell { c, fg: self.pen.fg, bg: self.pen.bg },
                    ),
                ),
                cursor_col: (self.cursor_col + 1) as usize,
                ..self
            }
        } else {
            self
        }
    }

    /// The state after the control byte `byte`: line feed moves down a row but not
    /// past the last, carriage return goes to the first column, backspace moves one
    /// column left but not past the first; every other byte changes nothing.
    pub open spec fn executed(self, byte: u8) -> TerminalView {
        if byte == 10 {
            TerminalView {
                cursor_row: if self.cursor_row + 1 <= self.rows - 1 {
                    (self.cursor_row + 1) as usize
                } else {
                    (self.rows - 1) as usize
                },
                ..self
            }
        } else if byte == 13 {
            TerminalView { cursor_col: 0, ..self }
        } else if byte == 8 {
            if self.cursor_col > 0 {
                TerminalView { cursor_col: (self.cursor_col - 1) as usize, ..self }
            } else {
                self
            }
        } else {
            self
        }
    }

    /// The cell at row `r`, column `c`, or a blank cell where the grid has none.
    pub open spec fn cell_or_blank(self, r: int, c: int) -> Cell {
        if 0 <= r < self.cells.len() && 0 <= c < self.cells[r].len() {
            self.cells[r][c]
        } else {
            blank_cell()
        }
    }

    /// The state after resizing to `cols` columns and `rows` rows: the cells that
    /// both sizes share keep their contents, new cells are blank; the cursor is
    /// moved onto the last row and up to one past the last column where it stood
    /// outside; the pen stays.
    pub open spec fn resized_to(self, cols: usize, rows: usize) -> TerminalView {
        TerminalView {
            cells: Seq::new(rows as nat, |r: int| Seq::new(cols as nat, |c: int| self.cell_or_blank(r, c))),
            cursor_col: if self.cursor_col <= cols {
                self.cursor_col
            } else {
                cols
            },
            cursor_row: if rows == 0 {
                0
            } else if self.cursor_row < rows {
                self.cursor_row
            } else {
                (rows - 1) as usize
            },
            cols,
            rows,
            pen: self.pen,
        }
    }

    /// Whether `execute(byte)` can run on this state without an arithmetic fault.
    pub open spec fn can_execute(self, byte: u8) -> bool {
        byte == 10 ==> (self.rows > 0 && self.cursor_row < usize::MAX)
    }

    /// The state after `CSI params intermediates action`; sequences with
    /// intermediates, or marked to be ignored, change nothing. `m` (SGR) sets the
    /// pen's colours; `A`/`B` move the cursor up/down and `C`/`D` right/left by
    /// the first parameter (0 or missing counts as 1), stopping at the grid's
    /// edges; `H` and `f` put it at the 1-based row and column of the first two
    /// parameters, clamped to the grid. Every other final character is ignored.
    pub open spec fn csi(self, params: Seq<u16>, intermediates: Seq<u8>, ignore: bool, action: char) -> TerminalView {
        if intermediates.len() != 0 || ignore {
            self
        } else if action == 'm' {
            TerminalView { pen: sgr(self.pen, params), ..self }
        } else if action == 'A' {
            TerminalView { cursor_row: step_back(self.cursor_row, param_or_one(params, 0)), ..self }
        } else if action == 'B' {
            TerminalView { cursor_row: step_forward(self.cursor_row, param_or_one(params, 0), self.rows), ..self }
        } else if action == 'C' {
            TerminalView { cursor_col: step_forward(self.cursor_col, param_or_one(params, 0), self.cols), ..self }
        } else if action == 'D' {
            TerminalView { cursor_col: step_back(self.cursor_col, param_or_one(params, 0)), ..self }
        } else if action == 'H' || action == 'f' {
            TerminalView {
                cursor_row: place(param_or_one(params, 0), self.rows),
                cursor_col: place(param_or_one(params, 1), self.cols),
                ..self
            }
        } else {
            self
        }
    }
}

/// The `i`-th parameter as a count or a 1-based position: 0 or missing is 1.
pub open spec fn param_or_one(params: Seq<u16>, i: int) -> int {
    if 0 <= i < params.len() && params[i] != 0 {
        params[i] as int
    } else {
        1
    }
}

/// `n` steps back from `pos`, stopping at 0.
pub open spec fn step_back(pos: usize, n: int) -> usize {
    if pos >= n {
        (pos - n) as usize
    } else {
        0
    }
}

/// `n` steps forward from `pos`, stopping at the last of `size` places (0 where
/// there are none).
pub open spec fn step_forward(pos: usize, n: int, size: usize) -> usize {
    if size == 0 {
        0
    } else if pos + n <= size - 1 {
        (pos + n) as usize
    } else {
        (size - 1) as usize
    }
}

/// The 1-based position `p` as an index among `size` places, clamped to the last
/// (0 where there are none).
pub open spec fn place(p: int, size: usize) -> usize {
    if size == 0 {
        0
    } else if p - 1 <= size - 1 {
        (p - 1) as usize
    } else {
        (size - 1) as usize
    }
}

fn param_or_one_exec(params: &Vec<u16>, i: usize) -> (n: u16)
    ensures
        n as int == param_or_one(params@, i as int),
        n >= 1,
{
    if i < params.len() && params[i] != 0 {
        params[i]
    } else {
        1
    }
}

fn step_back_exec(pos: usize, n: u16) -> (res: usize)
    ensures
        res == step_back(pos, n as int),
{
    if pos >= n as usize {
        pos - n as usize
    } else {
        0
    }
}

fn step_forward_exec(pos: usize, n: u16, size: usize) -> (res: usize)
    ensures
        res == step_forward(pos, n as int, size),
{
    if size == 0 {
        0
    } else {
        let last: usize = size - 1;
        if pos <= last && n as usize <= last - pos {
            pos + n as usize
        } else {
            last
        }
    }
}

fn place_exec(p: u16, size: usize) -> (res: usize)
    requires
        p >= 1,
    ensures
        res == place(p as int, size),
{
    if size == 0 {
        0
    } else if (p - 1) as usize <= size - 1 {
        (p - 1) as usize
    } else {
        size - 1
    }
}

impl Terminal {
    /// A terminal of `rows` rows of `cols` blank cells, the cursor at the top left
    /// and the default pen.
    pub fn new(cols: usize, rows: usize) -> (t: Terminal)
        ensures
            t@.wf(),
            t@.all_blank(),
            t.cols == cols,
            t.rows == rows,
            t.cursor_col == 0,
            t.cursor_row == 0,
            t.pen == default_pen(),
    {
        let mut grid: Vec<Vec<Cell>> = Vec::new();
        let mut r: usize = 0;
        while r < rows
            invariant
                r <= rows,
                grid@.len() == r,
                forall|i: int| 0 <= i < r ==> (#[trigger] grid@[i])@.len() == cols,
                forall|i: int, j: int|
                    0 <= i < r && 0 <= j < cols ==> #[trigger] grid@[i]@[j] == blank_cell(),
            decreases rows - r,
        {
            let mut row: Vec<Cell> = Vec::new();
            let mut c: usize = 0;
            while c < cols
                invariant
                    c <= cols,
                    row@.len() == c,
                    forall|j: int| 0 <= j < c ==> #[trigger] row@[j] == blank_cell(),
                decreases cols - c,
            {
                row.push(Cell::default());
                c = c + 1;
            }
            grid.push(row);
            r = r + 1;
        }
        let t = Terminal {
            grid,
            cursor_col: 0,
            cursor_row: 0,
            cols,
            rows,
            pen: Pen { fg: Color::Default, bg: Color::Default },
        };
        assert(t@.all_blank()) by {
            assert forall|i: int, j: int|
                0 <= i < t@.cells.len() && 0 <= j < t@.cells[i].len() implies #[trigger] t@.cells[i][j]
                == blank_cell() by {
                assert(t@.cells[i] == grid@[i]@);
            }
        }
        t
    }

    /// Prints `c` at the cursor and moves the cursor right, where the cursor is
    /// inside the grid; elsewhere nothing happens.
    pub fn print(&mut self, c: char)
        requires
            old(self)@.cursor_in_bounds() ==> old(self)@.cursor_cell_exists(),
        ensures
            final(self)@ == old(self)@.printed(c),
            old(self)@.wf() ==> final(self)@.wf(),
    {
        if self.cursor_col < self.cols && self.cursor_row < self.rows {
            let ghost before = self@;
            let cell = Cell { c, fg: self.pen.fg, bg: self.pen.bg };
            let row: usize = self.cursor_row;
            let col: usize = self.cursor_col;
            self.grid[row].set(col, cell);
            self.cursor_col = self.cursor_col + 1;
            assert(self@.cells =~= before.printed(c).cells);
        }
    }

    /// Carries out the control bytes line feed (10), carriage return (13) and
    /// backspace (8); every other byte is ignored.
    pub fn execute(&mut self, byte: u8)
        requires
            old(self)@.can_execute(byte),
        ensures
            final(self)@ == old(self)@.executed(byte),
            final(self).grid == old(self).grid,
            old(self)@.wf() ==> final(self)@.wf(),
    {
        if byte == 10 {
            let next: usize = self.cursor_row + 1;
            let last: usize = self.rows - 1;
            self.cursor_row = if next <= last { next } else { last };
        } else if byte == 13 {
            self.cursor_col = 0;
        } else if byte == 8 {
            if self.cursor_col > 0 {
                self.cursor_col = self.cursor_col - 1;
            }
        }
    }

    /// Dispatches a control sequence: SGR colours and the cursor movements
    /// (see `TerminalView::csi`); other sequences are ignored.
    pub fn csi_dispatch(&mut self, params: &Vec<u16>, intermediates: &[u8], ignore: bool, action: char)
        ensures
            final(self)@ == old(self)@.csi(params@, intermediates@, ignore, action),
            final(self).grid == old(self).grid,
            old(self)@.wf() ==> final(self)@.wf(),
    {
        if intermediates.len() != 0 || ignore {
            return;
        }
        if action == 'm' {
            self.pen = apply_sgr(self.pen, params);
        } else if action == 'A' {
            let n: u16 = param_or_one_exec(params, 0);
            self.cursor_row = step_back_exec(self.cursor_row, n);
        } else if action == 'B' {
            let n: u16 = param_or_one_exec(params, 0);
            self.cursor_row = step_forward_exec(self.cursor_row, n, self.rows);
        } else if action == 'C' {
            let n: u16 = param_or_one_exec(params, 0);
            self.cursor_col = step_forward_exec(self.cursor_col, n, self.cols);
        } else if action == 'D' {
            let n: u16 = param_or_one_exec(params, 0);
            self.cursor_col = step_back_exec(self.cursor_col, n);
        } else if action == 'H' || action == 'f' {
            let r: u16 = param_or_one_exec(params, 0);
            let c: u16 = param_or_one_exec(params, 1);
            self.cursor_row = place_exec(r, self.rows);
            self.cursor_col = place_exec(c, self.cols);
        }
    }

    /// Resizes the grid to `cols` columns and `rows` rows, keeping the contents of
    /// the cells that both sizes share and moving the cursor onto the new grid.
    pub fn resize(&mut self, cols: usize, rows: usize)
        ensures
            final(self)@ == old(self)@.resized_to(cols, rows),
            final(self)@.wf(),
    {
        let ghost before = self@;
        let mut grid: Vec<Vec<Cell>> = Vec::new();
        let mut r: usize = 0;
        while r < rows
            invariant
                r <= rows,
                before == self@,
                grid@.len() == r,
                forall|i: int| 0 <= i < r ==> (#[trigger] grid@[i])@.len() == cols,
                forall|i: int, j: int|
                    0 <= i < r && 0 <= j < cols ==> #[trigger] grid@[i]@[j] == before.cell_or_blank(i, j),
            decreases rows - r,
        {
            let mut row: Vec<Cell> = Vec::new();
            let mut c: usize = 0;
            while c < cols
                invariant
                    c <= cols,
                    r < rows,
                    before == self@,
                    row@.len() == c,
                    forall|j: int| 0 <= j < c ==> #[trigger] row@[j] == before.cell_or_blank(r as int, j),
                decreases cols - c,
            {
                let cell = if r < self.grid.len() && c < self.grid[r].len() {
                    assert(before.cells[r as int] == self.grid@[r as int]@);
                    self.grid[r][c]
                } else {
                    Cell::default()
                };
                row.push(cell);
                c = c + 1;
            }
            grid.push(row);
            r = r + 1;
        }
        self.grid = grid;
        if self.cursor_col > cols {
            self.cursor_col = cols;
        }
        if rows == 0 {
            self.cursor_row = 0;
        } else if self.cursor_row >= rows {
            self.cursor_row = rows - 1;
        }
        self.cols = cols;
        self.rows = rows;
        assert(self@.cells =~~= before.resized_to(cols, rows).cells);
    }

    /// The start of a device control string: ignored.
    pub fn hook(&mut self, params: &Vec<u16>, intermediates: &[u8], ignore: bool, action: char)
        ensures
            *final(self) == *old(self),
    {
    }

    /// A byte of a device control string: ignored.
    pub fn put(&mut self, byte: u8)
        ensures
            *final(self) == *old(self),
    {
    }

    /// The end of a device control string: ignored.
    pub fn unhook(&mut self)
        ensures
            *final(self) == *old(self),
    {
    }

    /// An operating system command: ignored.
    pub fn osc_dispatch(&mut self, params: &Vec<Vec<u8>>, bell_terminated: bool)
        ensures
            *final(self) == *old(self),
    {
    }

    /// An escape sequence: ignored.
    pub fn esc_dispatch(&mut self, intermediates: &[u8], ignore: bool, byte: u8)
        ensures
            *final(self) == *old(self),
    {
    }
}

/// Every parser action keeps a well-formed terminal well-formed: the grid keeps
/// its size and the cursor stays on it.
pub proof fn lemma_actions_keep_wf(
    v: TerminalView,
    c: char,
    byte: u8,
    params: Seq<u16>,
    intermediates: Seq<u8>,
    ignore: bool,
    action: char,
)
    requires
        v.wf(),
    ensures
        v.printed(c).wf(),
        v.can_execute(byte) ==> v.executed(byte).wf(),
        v.csi(params, intermediates, ignore, action).wf(),
{
    if v.cursor_in_bounds() {
        let w = v.printed(c);
        assert forall|r: int| 0 <= r < w.rows implies (#[trigger] w.cells[r]).len() == w.cols by {
            assert(v.cells[r].len() == v.cols);
        }
    }
}

/// Resizing to the size a well-formed terminal already has changes nothing.
pub proof fn lemma_resize_same_size(v: TerminalView)
    requires
        v.wf(),
    ensures
        v.resized_to(v.cols, v.rows) == v,
{
    let w = v.resized_to(v.cols, v.rows);
    assert(w.cells =~~= v.cells);
}

/// Enlarging a well-formed terminal and then resizing it back to its size gives
/// it back unchanged: growing loses nothing.
pub proof fn lemma_grow_then_restore(v: TerminalView, cols: usize, rows: usize)
    requires
        v.wf(),
        cols >= v.cols,
        rows >= v.rows,
    ensures
        v.resized_to(cols, rows).resized_to(v.cols, v.rows) == v,
{
    let w = v.resized_to(cols, rows);
    let u = w.resized_to(v.cols, v.rows);
    assert forall|r: int| 0 <= r < v.rows implies #[trigger] u.cells[r] =~= v.cells[r] by {
        assert forall|c: int| 0 <= c < v.cols implies #[trigger] u.cells[r][c] == v.cells[r][c] by {
            assert(w.cells[r][c] == v.cell_or_blank(r, c));
        }
    }
    assert(u.cells =~~= v.cells);
}

/// A print overwrites only the cursor's cell: that cell takes the character in
/// the pen's colours, every other cell keeps its contents, the rows keep their
/// lengths, and the cursor moves one column right on its row; the pen, the size
/// and the cursor row stay. Outside the grid a print changes nothing.
pub proof fn lemma_print_overwrites_one_cell(v: TerminalView, c: char)
    requires
        v.cursor_in_bounds() ==> v.cursor_cell_exists(),
    ensures
        v.cursor_in_bounds() ==> {
            let w = v.printed(c);
            &&& w.cells.len() == v.cells.len()
            &&& forall|r: int| 0 <= r < v.cells.len() ==> #[trigger] w.cells[r].len() == v.cells[r].len()
            &&& forall|r: int, k: int|
                0 <= r < v.cells.len() && 0 <= k < v.cells[r].len() && (r != v.cursor_row || k != v.cursor_col)
                    ==> #[trigger] w.cells[r][k] == v.cells[r][k]
            &&& w.cells[v.cursor_row as int][v.cursor_col as int] == (Cell { c, fg: v.pen.fg, bg: v.pen.bg })
            &&& w.cursor_col == v.cursor_col + 1
            &&& w.cursor_row == v.cursor_row
            &&& w.pen == v.pen
            &&& w.cols == v.cols
            &&& w.rows == v.rows
        },
        !v.cursor_in_bounds() ==> v.printed(c) == v,
{
}

/// The control bytes move only the cursor, and leave the cells, the pen and the
/// size alone: line feed moves one row down, but not past the last row, and keeps
/// the column; carriage return goes to column 0 of the same row; backspace moves
/// one column left, but not past column 0, on the same row; any other byte
/// changes nothing.
pub proof fn lemma_control_bytes_move_cursor(v: TerminalView, byte: u8)
    requires
        v.can_execute(byte),
    ensures
        v.executed(byte).cells == v.cells,
        v.executed(byte).pen == v.pen,
        v.executed(byte).cols == v.cols,
        v.executed(byte).rows == v.rows,
        byte == 10 ==> v.executed(byte).cursor_col == v.cursor_col,
        byte == 10 ==> v.executed(byte).cursor_row == if v.cursor_row + 1 < v.rows {
            v.cursor_row + 1
        } else {
            v.rows - 1
        },
        byte == 13 ==> v.executed(byte).cursor_col == 0 && v.executed(byte).cursor_row == v.cursor_row,
        byte == 8 ==> v.executed(byte).cursor_row == v.cursor_row,
        byte == 8 ==> v.executed(byte).cursor_col == if v.cursor_col > 0 {
            v.cursor_col - 1
        } else {
            0
        },
        byte != 10 && byte != 13 && byte != 8 ==> v.executed(byte) == v,
{
}

/// A control sequence never changes the cells or the size; SGR (`m`) changes
/// only the pen, the cursor sequences only the cursor. In a well-formed terminal,
/// `A`/`B`/`C`/`D` with count n ≥ 1 move the cursor exactly n rows up / down /
/// columns right / left where there is room, and otherwise to the edge; `H`
/// with a row and column inside the grid puts the cursor on that (1-based) cell.
pub proof fn lemma_csi_moves(v: TerminalView, params: Seq<u16>, action: char, n: u16)
    requires
        v.wf(),
        n >= 1,
    ensures
        v.csi(params, Seq::empty(), false, action).cells == v.cells,
        v.csi(params, Seq::empty(), false, action).rows == v.rows,
        v.csi(params, Seq::empty(), false, action).cols == v.cols,
        action == 'm' ==> v.csi(params, Seq::empty(), false, action).cursor_row == v.cursor_row
            && v.csi(params, Seq::empty(), false, action).cursor_col == v.cursor_col,
        action != 'm' ==> v.csi(params, Seq::empty(), false, action).pen == v.pen,
        v.csi(seq![n], Seq::empty(), false, 'A').cursor_row == if v.cursor_row >= n {
            v.cursor_row - n
        } else {
            0
        },
        v.rows > 0 ==> v.csi(seq![n], Seq::empty(), false, 'B').cursor_row == if v.cursor_row + n < v.rows {
            v.cursor_row + n
        } else {
            v.rows - 1
        },
        v.cols > 0 ==> v.csi(seq![n], Seq::empty(), false, 'C').cursor_col == if v.cursor_col + n < v.cols {
            v.cursor_col + n
        } else {
            v.cols - 1
        },
        v.csi(seq![n], Seq::empty(), false, 'D').cursor_col == if v.cursor_col >= n {
            v.cursor_col - n
        } else {
            0
        },
        v.csi(seq![n], Seq::empty(), false, 'A').cursor_col == v.cursor_col,
        v.csi(seq![n], Seq::empty(), false, 'B').cursor_col == v.cursor_col,
        v.csi(seq![n], Seq::empty(), false, 'C').cursor_row == v.cursor_row,
        v.csi(seq![n], Seq::empty(), false, 'D').cursor_row == v.cursor_row,
{
}

/// Resizing keeps every cell that both sizes hold and fills the rest with blank
/// cells; the grid takes the new size, and the cursor lands on it.
pub proof fn lemma_resize_keeps_shared_cells(v: TerminalView, cols: usize, rows: usize)
    requires
        v.wf(),
    ensures
        ({
            let w = v.resized_to(cols, rows);
            &&& w.wf()
            &&& w.cols == cols && w.rows == rows
            &&& forall|r: int, c: int|
                0 <= r < rows && 0 <= c < cols ==> #[trigger] w.cells[r][c] == if r < v.rows && c < v.cols {
                    v.cells[r][c]
                } else {
                    blank_cell()
                }
            &&& w.pen == v.pen
            &&& (v.cursor_row < rows ==> w.cursor_row == v.cursor_row)
            &&& (v.cursor_col <= cols ==> w.cursor_col == v.cursor_col)
        }),
{
    let w = v.resized_to(cols, rows);
    assert forall|r: int| 0 <= r < rows implies (#[trigger] w.cells[r]).len() == cols by {}
}

/// Backspace takes back the cursor move of a print inside the grid: the cursor
/// returns to where it stood, and the printed character stays.
pub proof fn lemma_backspace_after_print(v: TerminalView, c: char)
    requires
        v.cursor_in_bounds(),
    ensures
        v.printed(c).executed(8).cursor_col == v.cursor_col,
        v.printed(c).executed(8).cursor_row == v.cursor_row,
        v.printed(c).executed(8).cells == v.printed(c).cells,
{
}

/// Carriage return then line feed puts the cursor at the start of the next row,
/// or of the last row when it stands on the last already.
pub proof fn lemma_newline(v: TerminalView)
    requires
        v.wf(),
        v.rows > 0,
    ensures
        v.executed(13).can_execute(10),
        v.executed(13).executed(10).cursor_col == 0,
        v.executed(13).executed(10).cursor_row == if v.cursor_row + 1 < v.rows {
            v.cursor_row + 1
        } else {
            v.rows - 1
        },
        v.executed(13).executed(10).cells == v.cells,
{
}

/// Moving the cursor up `n` rows and then down `n` rows, where it has `n` rows
/// above it, brings it back; likewise left then right for columns.
pub proof fn lemma_cursor_moves_undo(v: TerminalView, n: u16)
    requires
        v.wf(),
        n >= 1,
    ensures
        v.cursor_row >= n ==> v.csi(seq![n], Seq::empty(), false, 'A').csi(seq![n], Seq::empty(), false, 'B').cursor_row
            == v.cursor_row,
        v.cursor_col >= n && v.cursor_col < v.cols ==> v.csi(seq![n], Seq::empty(), false, 'D').csi(
            seq![n],
            Seq::empty(),
            false,
            'C',
        ).cursor_col == v.cursor_col,
{
}

/// `CSI r;c H` with a position inside the grid puts the cursor on row `r`,
/// column `c` (counted from 1), and a print then writes exactly that cell.
pub proof fn lemma_cursor_position_then_print(v: TerminalView, r: u16, c: u16, ch: char)
    requires
        v.wf(),
        1 <= r <= v.rows,
        1 <= c <= v.cols,
    ensures
        ({
            let w = v.csi(seq![r, c], Seq::empty(), false, 'H');
            &&& w.cursor_row == r - 1
            &&& w.cursor_col == c - 1
            &&& w.printed(ch).cells[r - 1][c - 1] == Cell { c: ch, fg: v.pen.fg, bg: v.pen.bg }
            &&& w.printed(ch).cursor_col == c
        }),
{
    let w = v.csi(seq![r, c], Seq::empty(), false, 'H');
    assert(w.cells[r - 1].len() == v.cols);
}

/// A character printed after `CSI 38;5;n m` / `CSI 48;5;n m` (n a palette index)
/// carries that palette colour as its foreground / background.
pub proof fn lemma_palette_color_printed(v: TerminalView, selector: u16, n: u16, c: char)
    requires
        selector == 38 || selector == 48,
        n <= 255,
        v.cursor_in_bounds(),
        v.cursor_cell_exists(),
    ensures
        ({
            let cell = v.csi(seq![selector, 5, n], Seq::empty(), false, 'm').printed(c).cells[v.cursor_row as int][v.cursor_col as int];
            &&& cell.c == c
            &&& selector == 38 ==> cell.fg == Color::Indexed(n as u8) && cell.bg == v.pen.bg
            &&& selector == 48 ==> cell.bg == Color::Indexed(n as u8) && cell.fg == v.pen.fg
        }),
{
    let ps = seq![selector, 5u16, n];
    assert(ps.drop_first() =~= seq![5u16, n]);
    assert(ps.drop_first().skip(2) =~= Seq::<u16>::empty());
    reveal_with_fuel(crate::sgr::sgr_params, 2);
}

/// A character printed after `CSI 38;2;r;g;b m` / `CSI 48;2;r;g;b m` carries that
/// 24-bit colour as its foreground / background.
pub proof fn lemma_rgb_color_printed(v: TerminalView, selector: u16, r: u16, g: u16, b: u16, c: char)
    requires
        selector == 38 || selector == 48,
        r <= 255,
        g <= 255,
        b <= 255,
        v.cursor_in_bounds(),
        v.cursor_cell_exists(),
    ensures
        ({
            let cell = v.csi(seq![selector, 2, r, g, b], Seq::empty(), false, 'm').printed(c).cells[v.cursor_row as int][v.cursor_col as int];
            &&& cell.c == c
            &&& selector == 38 ==> cell.fg == Color::Rgb(r as u8, g as u8, b as u8) && cell.bg == v.pen.bg
            &&& selector == 48 ==> cell.bg == Color::Rgb(r as u8, g as u8, b as u8) && cell.fg == v.pen.fg
        }),
{
    let ps = seq![selector, 2u16, r, g, b];
    assert(ps.drop_first() =~= seq![2u16, r, g, b]);
    assert(ps.drop_first().skip(4) =~= Seq::<u16>::empty());
    reveal_with_fuel(crate::sgr::sgr_params, 2);
}

} // verus!
