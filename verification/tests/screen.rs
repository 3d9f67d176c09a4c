use mortty::screen::screen_text;
use mortty::surface::{choose_surface_format, preferred_format_index, accepted_size, grid_size, SurfaceSize};
use mortty::terminal::Terminal;
use wgpu::TextureFormat;

#[test]
fn new_terminal_shows_blank_lines() {
    let t = Terminal::new(3, 2);
    assert_eq!(screen_text(&t), "   \n   \n");
}

#[test]
fn printed_characters_show_in_place() {
    let mut t = Terminal::new(3, 2);
    t.print('a');
    t.print('b');
    t.execute(13);
    t.execute(10);
    t.print('c');
    assert_eq!(screen_text(&t), "ab \nc  \n");
}

#[test]
fn empty_terminal_shows_nothing() {
    assert_eq!(screen_text(&Terminal::new(0, 0)), "");
    assert_eq!(screen_text(&Terminal::new(0, 2)), "\n\n");
}

#[test]
fn block_characters_leave_the_text_other_characters_stay() {
    let mut t = Terminal::new(2, 1);
    t.print('█');
    t.print('é');
    assert_eq!(screen_text(&t), " é\n");
}

#[test]
fn first_srgb_format_is_preferred() {
    let formats = vec![TextureFormat::Bgra8Unorm, TextureFormat::Bgra8UnormSrgb, TextureFormat::Rgba8UnormSrgb];
    assert_eq!(choose_surface_format(&formats), TextureFormat::Bgra8UnormSrgb);
}

#[test]
fn first_format_without_srgb() {
    let formats = vec![TextureFormat::Rgba8Unorm, TextureFormat::Bgra8Unorm, TextureFormat::Rgb10a2Unorm];
    assert_eq!(choose_surface_format(&formats), TextureFormat::Rgba8Unorm);
    assert_eq!(choose_surface_format(&vec![TextureFormat::Rgba16Float]), TextureFormat::Rgba16Float);
}

#[test]
fn preferred_index_from_flags() {
    assert_eq!(preferred_format_index(&vec![false, false, true, true]), 2);
    assert_eq!(preferred_format_index(&vec![true, false]), 0);
    assert_eq!(preferred_format_index(&vec![false, false]), 0);
}

#[test]
fn resize_ignores_a_zero_side() {
    let big = SurfaceSize { width: 1024, height: 768 };
    assert_eq!(accepted_size(big), Some(big));
    assert_eq!(accepted_size(SurfaceSize { width: 0, height: 768 }), None);
    assert_eq!(accepted_size(SurfaceSize { width: 1024, height: 0 }), None);
    assert_eq!(accepted_size(SurfaceSize { width: 0, height: 0 }), None);
}

#[test]
fn grid_size_fits_whole_cells_inside_the_margins() {
    let size = SurfaceSize { width: 800, height: 600 };
    assert_eq!(grid_size(size, 10, 20, 10), (78, 29));
    assert_eq!(grid_size(size, 7, 13, 0), (114, 46));
}

#[test]
fn grid_size_of_a_tiny_surface_is_empty() {
    assert_eq!(grid_size(SurfaceSize { width: 20, height: 15 }, 10, 20, 10), (0, 0));
    assert_eq!(grid_size(SurfaceSize { width: 5, height: 5 }, 10, 20, 10), (0, 0));
}

#[test]
fn grid_size_is_capped_for_a_pty() {
    assert_eq!(grid_size(SurfaceSize { width: u32::MAX, height: 100 }, 1, 1, 0), (u16::MAX, 100));
}

#[test]
fn block_shapes_are_spaces_in_text_but_shades_stay() {
    let mut t = Terminal::new(4, 1);
    for c in ['▀', '▄', '░', 'x'] {
        t.print(c);
    }
    assert_eq!(screen_text(&t), "  ░x\n");
}
