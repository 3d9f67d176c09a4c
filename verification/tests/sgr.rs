use mortty::sgr::{apply_sgr, Color, Pen};

fn pen(fg: Color, bg: Color) -> Pen {
    Pen { fg, bg }
}

const DEFAULT: Pen = Pen { fg: Color::Default, bg: Color::Default };

#[test]
fn standard_and_bright_colours() {
    assert_eq!(apply_sgr(DEFAULT, &vec![30]), pen(Color::Indexed(0), Color::Default));
    assert_eq!(apply_sgr(DEFAULT, &vec![37]), pen(Color::Indexed(7), Color::Default));
    assert_eq!(apply_sgr(DEFAULT, &vec![47]), pen(Color::Default, Color::Indexed(7)));
    assert_eq!(apply_sgr(DEFAULT, &vec![90]), pen(Color::Indexed(8), Color::Default));
    assert_eq!(apply_sgr(DEFAULT, &vec![97, 107]), pen(Color::Indexed(15), Color::Indexed(15)));
    assert_eq!(apply_sgr(DEFAULT, &vec![100]), pen(Color::Default, Color::Indexed(8)));
}

#[test]
fn default_colour_codes() {
    let p = pen(Color::Indexed(3), Color::Indexed(4));
    assert_eq!(apply_sgr(p, &vec![39]), pen(Color::Default, Color::Indexed(4)));
    assert_eq!(apply_sgr(p, &vec![49]), pen(Color::Indexed(3), Color::Default));
}

#[test]
fn reset_by_zero_and_by_empty_list() {
    let p = pen(Color::Rgb(1, 2, 3), Color::Indexed(200));
    assert_eq!(apply_sgr(p, &vec![0]), DEFAULT);
    assert_eq!(apply_sgr(p, &vec![]), DEFAULT);
    assert_eq!(apply_sgr(p, &vec![31, 0]), DEFAULT);
}

#[test]
fn palette_and_truecolour() {
    assert_eq!(apply_sgr(DEFAULT, &vec![38, 5, 208]), pen(Color::Indexed(208), Color::Default));
    assert_eq!(apply_sgr(DEFAULT, &vec![48, 5, 17]), pen(Color::Default, Color::Indexed(17)));
    assert_eq!(apply_sgr(DEFAULT, &vec![38, 2, 255, 128, 0]), pen(Color::Rgb(255, 128, 0), Color::Default));
    assert_eq!(
        apply_sgr(DEFAULT, &vec![38, 2, 1, 2, 3, 48, 2, 4, 5, 6]),
        pen(Color::Rgb(1, 2, 3), Color::Rgb(4, 5, 6))
    );
}

#[test]
fn out_of_range_or_missing_values_set_nothing() {
    assert_eq!(apply_sgr(DEFAULT, &vec![38, 5, 256]), DEFAULT);
    assert_eq!(apply_sgr(DEFAULT, &vec![38, 5]), DEFAULT);
    assert_eq!(apply_sgr(DEFAULT, &vec![38, 2, 1, 2]), DEFAULT);
    assert_eq!(apply_sgr(DEFAULT, &vec![38, 2, 1, 300, 43]), pen(Color::Default, Color::Indexed(3)));
    assert_eq!(apply_sgr(DEFAULT, &vec![38]), DEFAULT);
}

#[test]
fn unknown_selector_is_skipped_and_reading_goes_on() {
    assert_eq!(apply_sgr(DEFAULT, &vec![38, 7, 31]), pen(Color::Indexed(1), Color::Default));
}

#[test]
fn attributes_without_colour_leave_pen() {
    let p = pen(Color::Indexed(2), Color::Default);
    assert_eq!(apply_sgr(p, &vec![1, 4, 7]), p);
}
