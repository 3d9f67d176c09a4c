use mortty::palette::{foreground, palette_rgb};
use mortty::screen::{colored_runs, screen_text};
use mortty::sgr::Color;
use mortty::terminal::Terminal;

#[test]
fn standard_colours() {
    assert_eq!(palette_rgb(0), (0, 0, 0));
    assert_eq!(palette_rgb(1), (205, 0, 0));
    assert_eq!(palette_rgb(4), (0, 0, 238));
    assert_eq!(palette_rgb(7), (229, 229, 229));
    assert_eq!(palette_rgb(8), (127, 127, 127));
    assert_eq!(palette_rgb(12), (92, 92, 255));
    assert_eq!(palette_rgb(15), (255, 255, 255));
}

#[test]
fn colour_cube() {
    assert_eq!(palette_rgb(16), (0, 0, 0));
    assert_eq!(palette_rgb(21), (0, 0, 255));
    assert_eq!(palette_rgb(22), (0, 95, 0));
    assert_eq!(palette_rgb(196), (255, 0, 0));
    assert_eq!(palette_rgb(208), (255, 135, 0));
    assert_eq!(palette_rgb(231), (255, 255, 255));
}

#[test]
fn grey_ramp() {
    assert_eq!(palette_rgb(232), (8, 8, 8));
    assert_eq!(palette_rgb(244), (128, 128, 128));
    assert_eq!(palette_rgb(255), (238, 238, 238));
}

#[test]
fn foreground_colours() {
    assert_eq!(foreground(Color::Default), (200, 200, 200));
    assert_eq!(foreground(Color::Indexed(9)), (255, 0, 0));
    assert_eq!(foreground(Color::Rgb(1, 2, 3)), (1, 2, 3));
}

#[test]
fn runs_follow_colour_changes() {
    let mut t = Terminal::new(3, 2);
    t.csi_dispatch(&vec![31], &[], false, 'm');
    t.print('a');
    t.csi_dispatch(&vec![0], &[], false, 'm');
    t.print('b');
    let runs = colored_runs(&t);
    let got: Vec<(String, (u8, u8, u8))> = runs.into_iter().map(|r| (r.text, r.color)).collect();
    assert_eq!(
        got,
        vec![("a".to_string(), (205, 0, 0)), ("b \n   \n".to_string(), (200, 200, 200))]
    );
}

#[test]
fn runs_of_plain_screen_are_one_run() {
    let t = Terminal::new(2, 2);
    let runs = colored_runs(&t);
    assert_eq!(runs.len(), 1);
    assert_eq!(runs[0].text, screen_text(&t));
    assert_eq!(runs[0].color, (200, 200, 200));
}

#[test]
fn runs_join_to_screen_text() {
    let mut t = Terminal::new(4, 2);
    for (p, c) in [(32u16, 'x'), (33, 'y'), (33, 'z'), (0, 'w')] {
        t.csi_dispatch(&vec![p], &[], false, 'm');
        t.print(c);
    }
    t.execute(13);
    t.execute(10);
    t.csi_dispatch(&vec![38, 2, 9, 8, 7], &[], false, 'm');
    t.print('q');
    let runs = colored_runs(&t);
    let joined: String = runs.iter().map(|r| r.text.as_str()).collect();
    assert_eq!(joined, screen_text(&t));
    assert_eq!(joined, "xyzw\nq   \n");
    let colors: Vec<(u8, u8, u8)> = runs.iter().map(|r| r.color).collect();
    assert_eq!(colors, vec![(0, 205, 0), (205, 205, 0), (200, 200, 200), (9, 8, 7), (200, 200, 200)]);
}

#[test]
fn runs_of_empty_terminal() {
    assert!(colored_runs(&Terminal::new(0, 0)).is_empty());
}

#[test]
fn block_characters_in_runs_are_spaces() {
    let mut t = Terminal::new(2, 1);
    t.csi_dispatch(&vec![31], &[], false, 'm');
    t.print('█');
    t.print('a');
    let runs = colored_runs(&t);
    let got: Vec<(String, (u8, u8, u8))> = runs.into_iter().map(|r| (r.text, r.color)).collect();
    assert_eq!(got, vec![(" a".to_string(), (205, 0, 0)), ("\n".to_string(), (200, 200, 200))]);
}
