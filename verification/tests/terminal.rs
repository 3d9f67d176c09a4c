use mortty::sgr::{Color, Pen};
use mortty::terminal::{Cell, Terminal};

fn blank() -> Cell {
    Cell { c: '\0', fg: Color::Default, bg: Color::Default }
}

fn plain(c: char) -> Cell {
    Cell { c, fg: Color::Default, bg: Color::Default }
}

#[test]
fn new_terminal_is_blank_with_cursor_home() {
    let t = Terminal::new(3, 2);
    assert_eq!(t.cols, 3);
    assert_eq!(t.rows, 2);
    assert_eq!(t.cursor_col, 0);
    assert_eq!(t.cursor_row, 0);
    assert_eq!(t.pen, Pen { fg: Color::Default, bg: Color::Default });
    assert_eq!(t.grid, vec![vec![blank(); 3]; 2]);
}

#[test]
fn new_terminal_of_zero_size_has_no_cells() {
    let t = Terminal::new(0, 0);
    assert!(t.grid.is_empty());
    let t = Terminal::new(0, 2);
    assert_eq!(t.grid, vec![Vec::<Cell>::new(); 2]);
}

#[test]
fn cell_default_is_blank() {
    assert_eq!(Cell::default(), blank());
}

#[test]
fn print_writes_cell_and_advances_cursor() {
    let mut t = Terminal::new(3, 2);
    t.print('a');
    t.print('b');
    assert_eq!(t.grid[0], vec![plain('a'), plain('b'), blank()]);
    assert_eq!(t.grid[1], vec![blank(); 3]);
    assert_eq!(t.cursor_col, 2);
    assert_eq!(t.cursor_row, 0);
}

#[test]
fn print_past_last_column_is_dropped() {
    let mut t = Terminal::new(2, 1);
    t.print('x');
    t.print('y');
    t.print('z');
    assert_eq!(t.grid[0], vec![plain('x'), plain('y')]);
    assert_eq!(t.cursor_col, 2);
}

#[test]
fn print_into_empty_terminal_does_nothing() {
    let mut t = Terminal::new(0, 0);
    t.print('q');
    assert!(t.grid.is_empty());
    assert_eq!(t.cursor_col, 0);
}

#[test]
fn line_feed_moves_down_and_stops_at_last_row() {
    let mut t = Terminal::new(2, 3);
    t.print('a');
    t.execute(10);
    assert_eq!(t.cursor_row, 1);
    assert_eq!(t.cursor_col, 1);
    t.execute(10);
    assert_eq!(t.cursor_row, 2);
    t.execute(10);
    assert_eq!(t.cursor_row, 2);
}

#[test]
fn carriage_return_goes_to_first_column() {
    let mut t = Terminal::new(4, 2);
    t.print('a');
    t.print('b');
    t.execute(13);
    assert_eq!(t.cursor_col, 0);
    assert_eq!(t.cursor_row, 0);
    t.print('c');
    assert_eq!(t.grid[0][0], plain('c'));
}

#[test]
fn backspace_moves_left_but_not_past_first_column() {
    let mut t = Terminal::new(4, 1);
    t.execute(8);
    assert_eq!(t.cursor_col, 0);
    t.print('a');
    t.print('b');
    t.execute(8);
    assert_eq!(t.cursor_col, 1);
}

#[test]
fn backspace_after_print_restores_cursor_and_keeps_character() {
    let mut t = Terminal::new(3, 2);
    t.execute(10);
    t.print('x');
    t.execute(8);
    assert_eq!((t.cursor_row, t.cursor_col), (1, 0));
    assert_eq!(t.grid[1][0], plain('x'));
}

#[test]
fn newline_goes_to_start_of_next_row() {
    let mut t = Terminal::new(3, 2);
    t.print('a');
    t.execute(13);
    t.execute(10);
    assert_eq!((t.cursor_row, t.cursor_col), (1, 0));
    t.print('b');
    assert_eq!(t.grid[0][0], plain('a'));
    assert_eq!(t.grid[1][0], plain('b'));
}

#[test]
fn other_control_bytes_are_ignored() {
    let mut t = Terminal::new(3, 2);
    t.print('a');
    for byte in [0u8, 7, 9, 11, 12, 27, 127] {
        t.execute(byte);
    }
    assert_eq!((t.cursor_row, t.cursor_col), (0, 1));
    assert_eq!(t.grid[0], vec![plain('a'), blank(), blank()]);
}

#[test]
fn sgr_colours_are_printed_with_characters() {
    let mut t = Terminal::new(4, 1);
    t.csi_dispatch(&vec![31, 44], &[], false, 'm');
    t.print('r');
    t.csi_dispatch(&vec![38, 5, 196], &[], false, 'm');
    t.print('p');
    t.csi_dispatch(&vec![48, 2, 10, 20, 30], &[], false, 'm');
    t.print('t');
    t.csi_dispatch(&vec![0], &[], false, 'm');
    t.print('d');
    assert_eq!(t.grid[0][0], Cell { c: 'r', fg: Color::Indexed(1), bg: Color::Indexed(4) });
    assert_eq!(t.grid[0][1], Cell { c: 'p', fg: Color::Indexed(196), bg: Color::Indexed(4) });
    assert_eq!(t.grid[0][2], Cell { c: 't', fg: Color::Indexed(196), bg: Color::Rgb(10, 20, 30) });
    assert_eq!(t.grid[0][3], plain('d'));
}

#[test]
fn csi_with_intermediates_or_ignore_flag_is_ignored() {
    let mut t = Terminal::new(3, 3);
    t.csi_dispatch(&vec![31], b"?", false, 'm');
    t.csi_dispatch(&vec![31], &[], true, 'm');
    t.csi_dispatch(&vec![2, 2], b"?", false, 'H');
    t.csi_dispatch(&vec![2, 2], &[], true, 'H');
    t.csi_dispatch(&vec![5], &[], false, 'x');
    assert_eq!(t.pen, Pen { fg: Color::Default, bg: Color::Default });
    assert_eq!((t.cursor_row, t.cursor_col), (0, 0));
}

#[test]
fn cursor_position_is_one_based_and_clamped() {
    let mut t = Terminal::new(5, 4);
    t.csi_dispatch(&vec![2, 3], &[], false, 'H');
    assert_eq!((t.cursor_row, t.cursor_col), (1, 2));
    t.csi_dispatch(&vec![], &[], false, 'H');
    assert_eq!((t.cursor_row, t.cursor_col), (0, 0));
    t.csi_dispatch(&vec![0, 0], &[], false, 'f');
    assert_eq!((t.cursor_row, t.cursor_col), (0, 0));
    t.csi_dispatch(&vec![99, 99], &[], false, 'f');
    assert_eq!((t.cursor_row, t.cursor_col), (3, 4));
    t.csi_dispatch(&vec![3], &[], false, 'H');
    assert_eq!((t.cursor_row, t.cursor_col), (2, 0));
}

#[test]
fn cursor_moves_stop_at_edges() {
    let mut t = Terminal::new(5, 4);
    t.csi_dispatch(&vec![], &[], false, 'B');
    assert_eq!(t.cursor_row, 1);
    t.csi_dispatch(&vec![10], &[], false, 'B');
    assert_eq!(t.cursor_row, 3);
    t.csi_dispatch(&vec![2], &[], false, 'A');
    assert_eq!(t.cursor_row, 1);
    t.csi_dispatch(&vec![0], &[], false, 'A');
    assert_eq!(t.cursor_row, 0);
    t.csi_dispatch(&vec![7], &[], false, 'A');
    assert_eq!(t.cursor_row, 0);
    t.csi_dispatch(&vec![3], &[], false, 'C');
    assert_eq!(t.cursor_col, 3);
    t.csi_dispatch(&vec![3], &[], false, 'C');
    assert_eq!(t.cursor_col, 4);
    t.csi_dispatch(&vec![1], &[], false, 'D');
    assert_eq!(t.cursor_col, 3);
    t.csi_dispatch(&vec![9], &[], false, 'D');
    assert_eq!(t.cursor_col, 0);
}

#[test]
fn cursor_moves_in_empty_terminal_stay_home() {
    let mut t = Terminal::new(0, 0);
    t.csi_dispatch(&vec![3], &[], false, 'B');
    t.csi_dispatch(&vec![3], &[], false, 'C');
    t.csi_dispatch(&vec![2, 2], &[], false, 'H');
    assert_eq!((t.cursor_row, t.cursor_col), (0, 0));
}

#[test]
fn print_after_cursor_position_writes_there() {
    let mut t = Terminal::new(3, 3);
    t.csi_dispatch(&vec![3, 2], &[], false, 'H');
    t.print('z');
    assert_eq!(t.grid[2][1], plain('z'));
    assert_eq!((t.cursor_row, t.cursor_col), (2, 2));
}

#[test]
fn ignored_actions_change_nothing() {
    let mut t = Terminal::new(2, 2);
    t.print('a');
    let before_grid = t.grid.clone();
    t.hook(&vec![1], &[], false, 'q');
    t.put(b'x');
    t.unhook();
    t.osc_dispatch(&vec![b"0".to_vec(), b"title".to_vec()], true);
    t.esc_dispatch(&[], false, b'c');
    assert_eq!(t.grid, before_grid);
    assert_eq!((t.cursor_row, t.cursor_col), (0, 1));
    assert_eq!(t.pen, Pen { fg: Color::Default, bg: Color::Default });
}

#[test]
fn resize_keeps_shared_cells_and_blanks_new_ones() {
    let mut t = Terminal::new(3, 2);
    t.print('a');
    t.print('b');
    t.print('c');
    t.resize(4, 3);
    assert_eq!(t.grid, vec![
        vec![plain('a'), plain('b'), plain('c'), blank()],
        vec![blank(); 4],
        vec![blank(); 4],
    ]);
    assert_eq!((t.cols, t.rows), (4, 3));
    assert_eq!((t.cursor_row, t.cursor_col), (0, 3));
}

#[test]
fn resize_smaller_clamps_cursor() {
    let mut t = Terminal::new(4, 3);
    t.csi_dispatch(&vec![3, 4], &[], false, 'H');
    t.print('z');
    assert_eq!((t.cursor_row, t.cursor_col), (2, 4));
    t.resize(2, 2);
    assert_eq!((t.cursor_row, t.cursor_col), (1, 2));
    assert_eq!(t.grid, vec![vec![blank(); 2]; 2]);
    t.resize(0, 0);
    assert!(t.grid.is_empty());
    assert_eq!((t.cursor_row, t.cursor_col), (0, 0));
}

#[test]
fn grow_then_restore_gives_back_the_grid() {
    let mut t = Terminal::new(3, 2);
    t.print('x');
    t.execute(10);
    t.print('y');
    let before = t.grid.clone();
    let cursor = (t.cursor_row, t.cursor_col);
    t.resize(10, 7);
    t.resize(3, 2);
    assert_eq!(t.grid, before);
    assert_eq!((t.cursor_row, t.cursor_col), cursor);
}
