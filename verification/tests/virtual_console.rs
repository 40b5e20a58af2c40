use bracket::geometry::point::Point;
use bracket::geometry::rect::Rect;
use bracket::terminal::grid::{CharacterTranslationMode, TextAlign};
use bracket::terminal::simple_console::SimpleConsole;
use bracket::terminal::virtual_console::VirtualConsole;
use bracket::terminal::grid::glyphs_for;

type Rgba = (u8, u8, u8, u8);

const WHITE: Rgba = (255, 255, 255, 255);
const BLACK: Rgba = (0, 0, 0, 255);

fn rgba(r: u8, g: u8, b: u8, a: u8) -> Rgba {
    (r, g, b, a)
}

fn new_console(w: i32, h: i32) -> VirtualConsole<Rgba> {
    VirtualConsole::new(Point::new(w, h), WHITE, BLACK)
}

fn glyphs(text: &str) -> Vec<u16> {
    text.chars().map(|c| c as u16).collect()
}

/// Code page 437 agrees with ASCII on the characters these tests use.
fn ascii_cp437(c: char) -> u16 {
    c as u16
}

fn from_text(text: &str, width: usize) -> VirtualConsole<Rgba> {
    VirtualConsole::from_text(text, width, &ascii_cp437, WHITE, BLACK)
}

#[test]
fn new_creates_dense_console_with_expected_dimensions() {
    let console = new_console(80, 50);

    assert_eq!(console.get_char_size(), (80, 50));
    assert_eq!(console.tiles.len(), 80 * 50);
    assert_eq!(console.get_clipping(), None);
}

#[test]
fn virtual_console_at_uses_bottom_origin_storage() {
    let console = new_console(10, 4);
    for (x, y, expected) in [(0, 0, 30), (1, 0, 31), (9, 0, 39), (0, 1, 20), (0, 2, 10), (0, 3, 0), (9, 3, 9)] {
        assert_eq!(console.at(x, y), expected);
    }
}

#[test]
fn virtual_console_at_mapping_differs_from_test_console_row_major_mapping() {
    let virtual_console = new_console(10, 4);

    assert_eq!(virtual_console.at(0, 0), 30);
    assert_eq!(virtual_console.at(0, 3), 0);
}

#[test]
fn virtual_console_cls_resets_all_tiles_to_space_white_on_black() {
    let mut console = new_console(3, 2);

    console.set(1, 1, rgba(1, 2, 3, 4), rgba(5, 6, 7, 8), 99);
    console.cls();

    assert!(console.tiles.iter().all(|tile| { tile.glyph == 32 && tile.fg == WHITE && tile.bg == BLACK }));
}

#[test]
fn virtual_console_cls_bg_resets_all_tiles_with_given_background() {
    let mut console = new_console(3, 2);
    let bg = rgba(1, 2, 3, 4);

    console.cls_bg(bg);

    assert!(console.tiles.iter().all(|tile| { tile.glyph == 32 && tile.fg == WHITE && tile.bg == bg }));
}

#[test]
fn virtual_console_print_writes_glyphs_but_keeps_existing_colors() {
    let mut console = new_console(5, 2);
    let idx = console.at(1, 0);
    let initial_fg = console.tiles[idx].fg;
    let initial_bg = console.tiles[idx].bg;

    console.print(1, 0, &glyphs("ABC"));

    assert_eq!(console.tiles[console.at(1, 0)].glyph, 65);
    assert_eq!(console.tiles[console.at(2, 0)].glyph, 66);
    assert_eq!(console.tiles[console.at(3, 0)].glyph, 67);
    assert_eq!(console.tiles[idx].fg, initial_fg);
    assert_eq!(console.tiles[idx].bg, initial_bg);
}

#[test]
fn virtual_console_print_clips_out_of_bounds_characters() {
    let mut console = new_console(3, 1);

    console.print(1, 0, &glyphs("ABCD"));

    assert_eq!(console.tiles[console.at(0, 0)].glyph, 0);
    assert_eq!(console.tiles[console.at(1, 0)].glyph, 65);
    assert_eq!(console.tiles[console.at(2, 0)].glyph, 66);
}

#[test]
fn virtual_console_print_color_writes_glyphs_and_colors() {
    let mut console = new_console(5, 2);
    let fg = rgba(1, 2, 3, 4);
    let bg = rgba(5, 6, 7, 8);

    console.print_color(1, 0, fg, bg, &glyphs("XY"));

    let x = console.tiles[console.at(1, 0)];
    let y = console.tiles[console.at(2, 0)];

    assert_eq!(x.glyph, 88);
    assert_eq!(x.fg, fg);
    assert_eq!(x.bg, bg);

    assert_eq!(y.glyph, 89);
    assert_eq!(y.fg, fg);
    assert_eq!(y.bg, bg);
}

#[test]
fn virtual_console_set_writes_single_tile() {
    let mut console = new_console(3, 2);
    let fg = rgba(1, 2, 3, 4);
    let bg = rgba(5, 6, 7, 8);

    console.set(2, 1, fg, bg, 123);

    let tile = console.tiles[console.at(2, 1)];
    assert_eq!(tile.glyph, 123);
    assert_eq!(tile.fg, fg);
    assert_eq!(tile.bg, bg);
}

#[test]
fn virtual_console_set_ignores_out_of_bounds_coordinates() {
    let mut console = new_console(3, 1);

    console.set(3, 0, rgba(1, 2, 3, 4), rgba(5, 6, 7, 8), 65);
    console.set(-1, 0, rgba(1, 2, 3, 4), rgba(5, 6, 7, 8), 66);
    console.set(0, 1, rgba(1, 2, 3, 4), rgba(5, 6, 7, 8), 67);

    assert!(console.tiles.iter().all(|tile| tile.glyph == 0));
}

#[test]
fn virtual_console_set_bg_changes_only_background() {
    let mut console = new_console(3, 2);
    let idx = console.at(1, 1);
    let initial_glyph = console.tiles[idx].glyph;
    let initial_fg = console.tiles[idx].fg;
    let bg = rgba(9, 8, 7, 6);

    console.set_bg(1, 1, bg);

    assert_eq!(console.tiles[idx].glyph, initial_glyph);
    assert_eq!(console.tiles[idx].fg, initial_fg);
    assert_eq!(console.tiles[idx].bg, bg);
}

#[test]
fn virtual_console_fill_region_updates_each_tile_in_region() {
    let mut console = new_console(5, 5);
    let fg = rgba(1, 1, 1, 255);
    let bg = rgba(2, 2, 2, 255);

    console.fill_region(Rect::with_size(1, 1, 2, 3), 88, fg, bg);

    for y in 1..4 {
        for x in 1..3 {
            let tile = console.tiles[console.at(x, y)];
            assert_eq!(tile.glyph, 88);
            assert_eq!(tile.fg, fg);
            assert_eq!(tile.bg, bg);
        }
    }

    assert_eq!(console.tiles[console.at(0, 0)].glyph, 0);
}

#[test]
fn virtual_console_print_centered_uses_console_width() {
    let mut console = new_console(10, 2);

    console.print_centered(0, 4, &glyphs("ABCD"));

    assert_eq!(console.tiles[console.at(3, 0)].glyph, 65);
    assert_eq!(console.tiles[console.at(4, 0)].glyph, 66);
    assert_eq!(console.tiles[console.at(5, 0)].glyph, 67);
    assert_eq!(console.tiles[console.at(6, 0)].glyph, 68);
}

#[test]
fn virtual_console_print_right_ends_before_given_x() {
    let mut console = new_console(10, 2);

    console.print_right(8, 0, 3, &glyphs("ABC"));

    assert_eq!(console.tiles[console.at(5, 0)].glyph, 65);
    assert_eq!(console.tiles[console.at(6, 0)].glyph, 66);
    assert_eq!(console.tiles[console.at(7, 0)].glyph, 67);
    assert_eq!(console.tiles[console.at(8, 0)].glyph, 0);
}

#[test]
fn virtual_console_clipping_round_trip() {
    let mut console = new_console(10, 20);
    let clipping = Rect::with_size(1, 2, 3, 4);

    assert_eq!(console.get_clipping(), None);

    console.set_clipping(Some(clipping));
    assert_eq!(console.get_clipping(), Some(clipping));
}

#[test]
fn clipping_limits_set_and_print() {
    let mut console = new_console(10, 5);

    console.set_clipping(Some(Rect::with_size(2, 1, 3, 2)));
    console.print(0, 1, &glyphs("ABCDE"));
    console.set(4, 2, rgba(1, 2, 3, 4), rgba(5, 6, 7, 8), 90);
    console.set(5, 2, rgba(1, 2, 3, 4), rgba(5, 6, 7, 8), 91);

    assert_eq!(console.tiles[console.at(0, 1)].glyph, 0);
    assert_eq!(console.tiles[console.at(1, 1)].glyph, 0);
    assert_eq!(console.tiles[console.at(2, 1)].glyph, 67);
    assert_eq!(console.tiles[console.at(3, 1)].glyph, 68);
    assert_eq!(console.tiles[console.at(4, 1)].glyph, 69);
    assert_eq!(console.tiles[console.at(4, 2)].glyph, 90);
    assert_eq!(console.tiles[console.at(5, 2)].glyph, 0);
}

#[test]
fn virtual_console_set_translation_mode_changes_unicode_print_behavior() {
    let mut console = new_console(3, 1);

    console.set_translation_mode(CharacterTranslationMode::Unicode);
    assert_eq!(console.translation, CharacterTranslationMode::Unicode);
    console.print(0, 0, &glyphs("가"));

    assert_eq!(console.tiles[console.at(0, 0)].glyph, '가' as u16);
}

#[test]
fn from_text_wraps_lines_and_prints_content() {
    let console = from_text("abcdef\ngh", 3);

    assert_eq!(console.width, 3);
    assert_eq!(console.height, 3);
    assert_eq!(console.tiles[console.at(0, 0)].glyph, 97);
    assert_eq!(console.tiles[console.at(1, 0)].glyph, 98);
    assert_eq!(console.tiles[console.at(2, 0)].glyph, 99);
    assert_eq!(console.tiles[console.at(0, 1)].glyph, 100);
    assert_eq!(console.tiles[console.at(1, 1)].glyph, 101);
    assert_eq!(console.tiles[console.at(2, 1)].glyph, 102);
    assert_eq!(console.tiles[console.at(0, 2)].glyph, 103);
    assert_eq!(console.tiles[console.at(1, 2)].glyph, 104);
    assert_eq!(console.tiles[console.at(2, 2)].glyph, 0);
}

#[test]
fn resize_pixels_is_ignored() {
    let mut console = new_console(10, 20);

    console.resize_pixels(100, 200);

    assert_eq!(console.get_char_size(), (10, 20));
    assert_eq!(console.tiles.len(), 200);
}

#[test]
fn clear_dirty_is_no_op() {
    let mut console = new_console(10, 20);

    console.clear_dirty();
    assert_eq!(console.get_char_size(), (10, 20));
}

#[test]
fn print_sub_rect_copies_visible_glyphs_into_destination() {
    let mut source = new_console(4, 4);
    source.print(0, 0, &glyphs("ab"));
    source.print(0, 1, &glyphs("cd"));
    let mut target: SimpleConsole<Rgba> = SimpleConsole::init(6, 6, WHITE, BLACK);
    target.set(0, 0, WHITE, BLACK, 9);
    target.clear_dirty();

    source.print_sub_rect(Rect::with_size(0, 0, 2, 2), Rect::with_size(3, 3, 2, 2), &mut target);

    assert_eq!(target.tiles[target.at(3, 3)].glyph, 97);
    assert_eq!(target.tiles[target.at(4, 3)].glyph, 98);
    assert_eq!(target.tiles[target.at(3, 4)].glyph, 99);
    assert_eq!(target.tiles[target.at(4, 4)].glyph, 100);
    assert_eq!(target.tiles[target.at(0, 0)].glyph, 9);
    assert_eq!(target.tiles[target.at(5, 5)].glyph, 0);
    assert_eq!(target.get_clipping(), None);
    assert!(target.is_dirty);
}

#[test]
fn print_sub_rect_skips_empty_cells() {
    let source = new_console(4, 4);
    let mut target: SimpleConsole<Rgba> = SimpleConsole::init(4, 4, WHITE, BLACK);
    target.set(1, 1, WHITE, BLACK, 5);
    target.set_clipping(Some(Rect::with_size(0, 0, 1, 1)));
    target.clear_dirty();

    source.print_sub_rect(Rect::with_size(0, 0, 4, 4), Rect::with_size(0, 0, 4, 4), &mut target);

    assert_eq!(target.tiles[target.at(1, 1)].glyph, 5);
    assert!(!target.is_dirty);
    assert_eq!(target.get_clipping(), None);
}

#[test]
fn from_text_translates_with_the_given_table() {
    let console = VirtualConsole::from_text("ab\nc", 2, &|c: char| if c == 'a' { 224 } else { c as u16 + 1 }, WHITE, BLACK);
    assert_eq!((console.width, console.height), (2, 2));
    assert_eq!(console.tiles[console.at(0, 0)].glyph, 224);
    assert_eq!(console.tiles[console.at(1, 0)].glyph, 99);
    assert_eq!(console.tiles[console.at(0, 1)].glyph, 100);
    assert_eq!(console.tiles[console.at(1, 1)].glyph, 0);
}

#[test]
fn glyphs_follow_the_translation_mode() {
    let text: Vec<char> = "a\u{263A}".chars().collect();
    let table = |c: char| if c == '\u{263A}' { 1 } else { c as u16 };
    assert_eq!(glyphs_for(CharacterTranslationMode::Unicode, &text, &table), vec![97, 0x263A]);
    assert_eq!(glyphs_for(CharacterTranslationMode::Codepage437, &text, &table), vec![97, 1]);
}

#[test]
fn printer_right_aligns_spans_over_the_given_background() {
    let mut console = new_console(6, 2);
    let spans = vec![(BLACK, glyphs("x")), (WHITE, glyphs("yz"))];
    console.printer(6, 0, &spans, TextAlign::Right, Some(WHITE));
    let x = console.tiles[console.at(3, 0)];
    assert_eq!((x.glyph, x.fg, x.bg), (120, BLACK, WHITE));
    assert_eq!(console.tiles[console.at(4, 0)].glyph, 121);
    assert_eq!(console.tiles[console.at(5, 0)].glyph, 122);
    assert_eq!(console.tiles[console.at(2, 0)].glyph, 0);
}
