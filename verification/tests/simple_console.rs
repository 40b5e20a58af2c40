use bracket::geometry::rect::Rect;
use bracket::terminal::grid::{CharacterTranslationMode, TextAlign};
use bracket::terminal::simple_console::SimpleConsole;

type Rgba = (u8, u8, u8, u8);

const WHITE: Rgba = (255, 255, 255, 255);
const BLACK: Rgba = (0, 0, 0, 255);

fn rgba(r: u8, g: u8, b: u8, a: u8) -> Rgba {
    (r, g, b, a)
}

fn init(width: u32, height: u32) -> SimpleConsole<Rgba> {
    SimpleConsole::init(width, height, WHITE, BLACK)
}

fn glyphs(text: &str) -> Vec<u16> {
    text.chars().map(|c| c as u16).collect()
}

#[test]
fn init_creates_expected_default_state() {
    let console = init(80, 50);

    assert_eq!(console.width, 80);
    assert_eq!(console.height, 50);
    assert_eq!(console.tiles.len(), 80 * 50);
    assert!(console.is_dirty);
}

#[test]
fn simple_console_at_uses_bottom_origin_storage() {
    let console = init(10, 4);
    for (x, y, expected) in [(0, 0, 30), (1, 0, 31), (9, 0, 39), (0, 1, 20), (0, 2, 10), (0, 3, 0), (9, 3, 9)] {
        assert_eq!(console.at(x, y), expected);
    }
}

#[test]
fn simple_console_at_mapping_differs_from_test_console_row_major_mapping() {
    let simple = init(10, 4);

    assert_eq!(simple.at(0, 0), 30);
    assert_eq!(simple.at(0, 3), 0);
}

#[test]
fn simple_console_cls_resets_all_tiles_to_space_white_on_black() {
    let mut console = init(3, 2);

    console.set(1, 1, rgba(1, 2, 3, 4), rgba(5, 6, 7, 8), 99);
    console.clear_dirty();
    assert!(!console.is_dirty);

    console.cls();
    assert!(console.is_dirty);
    assert!(console
        .tiles
        .iter()
        .all(|tile| { tile.glyph == 32 && tile.fg == rgba(255, 255, 255, 255) && tile.bg == rgba(0, 0, 0, 255) }));
}

#[test]
fn simple_console_cls_bg_resets_all_tiles_with_given_background() {
    let mut console = init(3, 2);
    let bg = rgba(10, 20, 30, 40);

    console.cls_bg(bg);

    assert!(console.is_dirty);
    assert!(console.tiles.iter().all(|tile| { tile.glyph == 32 && tile.fg == rgba(255, 255, 255, 255) && tile.bg == bg }));
}

#[test]
fn simple_console_print_writes_glyphs_but_keeps_existing_colors() {
    let mut console = init(5, 2);
    let idx = console.at(1, 0);
    let initial_fg = console.tiles[idx].fg;
    let initial_bg = console.tiles[idx].bg;

    console.clear_dirty();
    console.print(1, 0, &glyphs("ABC"));

    assert!(console.is_dirty);
    assert_eq!(console.tiles[console.at(1, 0)].glyph, 65);
    assert_eq!(console.tiles[console.at(2, 0)].glyph, 66);
    assert_eq!(console.tiles[console.at(3, 0)].glyph, 67);
    assert_eq!(console.tiles[idx].fg, initial_fg);
    assert_eq!(console.tiles[idx].bg, initial_bg);
}

#[test]
fn simple_console_print_clips_out_of_bounds_characters() {
    let mut console = init(3, 1);

    console.print(1, 0, &glyphs("ABCD"));

    assert_eq!(console.tiles[console.at(0, 0)].glyph, 0);
    assert_eq!(console.tiles[console.at(1, 0)].glyph, 65);
    assert_eq!(console.tiles[console.at(2, 0)].glyph, 66);
}

#[test]
fn simple_console_print_color_writes_glyphs_and_colors() {
    let mut console = init(5, 2);
    let fg = rgba(1, 2, 3, 4);
    let bg = rgba(5, 6, 7, 8);

    console.print_color(1, 0, fg, bg, &glyphs("XY"));

    let x = console.tiles[console.at(1, 0)];
    let y = console.tiles[console.at(2, 0)];

    assert_eq!(x.glyph, 88);
    assert_eq!(x.fg, fg);
    assert_eq!(x.bg, bg);

    assert_eq!(y.glyph, 89);
    assert_eq!(y.fg, fg);
    assert_eq!(y.bg, bg);
}

#[test]
fn simple_console_set_writes_single_tile() {
    let mut console = init(3, 2);
    let fg = rgba(11, 12, 13, 14);
    let bg = rgba(21, 22, 23, 24);

    console.set(2, 1, fg, bg, 123);

    let tile = console.tiles[console.at(2, 1)];
    assert_eq!(tile.glyph, 123);
    assert_eq!(tile.fg, fg);
    assert_eq!(tile.bg, bg);
}

#[test]
fn simple_console_set_ignores_out_of_bounds_coordinates() {
    let mut console = init(3, 1);
    console.set(3, 0, rgba(1, 2, 3, 4), rgba(5, 6, 7, 8), 65);
    console.set(-1, 0, rgba(1, 2, 3, 4), rgba(5, 6, 7, 8), 66);
    console.set(0, 1, rgba(1, 2, 3, 4), rgba(5, 6, 7, 8), 67);
    assert!(console.tiles.iter().all(|tile| tile.glyph == 0));
}

#[test]
fn simple_console_set_bg_changes_only_background() {
    let mut console = init(3, 2);
    let idx = console.at(1, 1);
    let initial_glyph = console.tiles[idx].glyph;
    let initial_fg = console.tiles[idx].fg;
    let bg = rgba(9, 8, 7, 6);

    console.set_bg(1, 1, bg);

    assert_eq!(console.tiles[idx].glyph, initial_glyph);
    assert_eq!(console.tiles[idx].fg, initial_fg);
    assert_eq!(console.tiles[idx].bg, bg);
}

#[test]
fn simple_console_fill_region_updates_each_tile_in_region() {
    let mut console = init(5, 5);
    let fg = rgba(1, 1, 1, 255);
    let bg = rgba(2, 2, 2, 255);

    console.fill_region(Rect::with_size(1, 1, 2, 3), 88, fg, bg);

    for y in 1..4 {
        for x in 1..3 {
            let tile = console.tiles[console.at(x, y)];
            assert_eq!(tile.glyph, 88);
            assert_eq!(tile.fg, fg);
            assert_eq!(tile.bg, bg);
        }
    }

    assert_eq!(console.tiles[console.at(0, 0)].glyph, 0);
}

#[test]
fn simple_console_fill_region_with_empty_rect_leaves_dirty_flag() {
    let mut console = init(5, 5);
    console.clear_dirty();
    console.fill_region(Rect::with_size(1, 1, 0, 3), 88, WHITE, BLACK);
    assert!(!console.is_dirty);
    assert!(console.tiles.iter().all(|tile| tile.glyph == 0));
}

#[test]
fn simple_console_print_centered_uses_console_width() {
    let mut console = init(10, 2);

    console.print_centered(0, 4, &glyphs("ABCD"));

    assert_eq!(console.tiles[console.at(3, 0)].glyph, 65);
    assert_eq!(console.tiles[console.at(4, 0)].glyph, 66);
    assert_eq!(console.tiles[console.at(5, 0)].glyph, 67);
    assert_eq!(console.tiles[console.at(6, 0)].glyph, 68);
}

#[test]
fn simple_console_print_centered_at_centres_on_x() {
    let mut console = init(10, 2);
    console.print_color_centered_at(5, 1, rgba(1, 1, 1, 1), rgba(2, 2, 2, 2), 3, &glyphs("XYZ"));
    assert_eq!(console.tiles[console.at(4, 1)].glyph, 88);
    assert_eq!(console.tiles[console.at(5, 1)].glyph, 89);
    assert_eq!(console.tiles[console.at(6, 1)].glyph, 90);
    assert_eq!(console.tiles[console.at(6, 1)].bg, rgba(2, 2, 2, 2));
}

#[test]
fn simple_console_print_right_ends_before_given_x() {
    let mut console = init(10, 2);

    console.print_right(8, 0, 3, &glyphs("ABC"));

    assert_eq!(console.tiles[console.at(5, 0)].glyph, 65);
    assert_eq!(console.tiles[console.at(6, 0)].glyph, 66);
    assert_eq!(console.tiles[console.at(7, 0)].glyph, 67);
    assert_eq!(console.tiles[console.at(8, 0)].glyph, 0);
}

#[test]
fn simple_console_set_scale_center_marks_dirty() {
    let mut console = init(10, 20);
    assert_eq!(console.scale_center, (5, 10));
    console.clear_dirty();
    console.set_scale_center(3, 4);
    assert_eq!(console.scale_center, (3, 4));
    assert!(console.is_dirty);
}

#[test]
fn simple_console_clipping_round_trip() {
    let mut console = init(10, 20);
    let clipping = Rect::with_size(1, 2, 3, 4);

    assert_eq!(console.get_clipping(), None);

    console.set_clipping(Some(clipping));
    assert_eq!(console.get_clipping(), Some(clipping));
}

#[test]
fn simple_console_clipping_limits_print() {
    let mut console = init(10, 5);
    console.set_clipping(Some(Rect::with_size(2, 1, 3, 2)));
    console.print(0, 1, &glyphs("ABCDE"));
    assert_eq!(console.tiles[console.at(1, 1)].glyph, 0);
    assert_eq!(console.tiles[console.at(2, 1)].glyph, 67);
    assert_eq!(console.tiles[console.at(4, 1)].glyph, 69);
    assert!(!console.in_bounds(1, 1));
    assert!(console.in_bounds(2, 1));
    assert_eq!(console.try_at(5, 1), None);
    assert_eq!(console.try_at(4, 2), Some(console.at(4, 2)));
}

#[test]
fn simple_console_set_translation_mode_changes_unicode_print_behavior() {
    let mut console = init(3, 1);

    console.set_translation_mode(CharacterTranslationMode::Unicode);
    assert_eq!(console.translation, CharacterTranslationMode::Unicode);
    console.print(0, 0, &glyphs("가"));

    assert_eq!(console.tiles[console.at(0, 0)].glyph, '가' as u16);
}

#[test]
fn set_char_size_resizes_buffer_and_preserves_overlapping_content() {
    let mut console = init(3, 2);
    let fg = rgba(1, 2, 3, 4);
    let bg = rgba(5, 6, 7, 8);

    console.set(1, 1, fg, bg, 77);
    console.set_char_size(5, 4);

    assert_eq!(console.width, 5);
    assert_eq!(console.height, 4);
    assert_eq!(console.tiles.len(), 20);
    assert!(console.needs_resize_internal);

    let preserved = console.tiles[console.at(1, 1)];
    assert_eq!(preserved.glyph, 77);
    assert_eq!(preserved.fg, fg);
    assert_eq!(preserved.bg, bg);
}

#[test]
fn set_char_size_shrinking_drops_cells_off_the_grid() {
    let mut console = init(4, 3);
    console.set(3, 2, WHITE, BLACK, 50);
    console.set(0, 0, WHITE, BLACK, 51);
    console.set_char_size(2, 2);
    assert_eq!(console.tiles.len(), 4);
    assert_eq!(console.tiles[console.at(0, 0)].glyph, 51);
    assert!(console.tiles.iter().all(|t| t.glyph != 50));
}

#[test]
fn simple_console_resize_pixels_marks_dirty() {
    let mut console = init(80, 50);
    console.clear_dirty();
    console.resize_pixels(1024, 768);
    assert!(console.is_dirty);
    assert_eq!(console.get_char_size(), (80, 50));
}

#[test]
fn simple_console_clear_dirty_resets_dirty_flag() {
    let mut console = init(3, 2);
    assert!(console.is_dirty);

    console.clear_dirty();
    assert!(!console.is_dirty);
}

#[test]
fn printer_centres_spans_in_their_colours() {
    let mut console = init(10, 3);
    console.is_dirty = false;
    let red = (255, 0, 0, 255);
    let spans = vec![(red, glyphs("ab")), (WHITE, glyphs("c"))];
    console.printer(5, 1, &spans, TextAlign::Center, None);
    assert!(console.is_dirty);
    let a = console.tiles[console.at(4, 1)];
    assert_eq!((a.glyph, a.fg, a.bg), (97, red, BLACK));
    assert_eq!(console.tiles[console.at(5, 1)].glyph, 98);
    let c = console.tiles[console.at(6, 1)];
    assert_eq!((c.glyph, c.fg), (99, WHITE));
    assert_eq!(console.tiles[console.at(7, 1)].glyph, 0);
    assert_eq!(console.tiles[console.at(3, 1)].glyph, 0);
}

#[test]
fn printer_with_nothing_to_print_leaves_the_console_clean() {
    let mut console = init(4, 2);
    console.is_dirty = false;
    console.printer(0, 0, &vec![(WHITE, Vec::new())], TextAlign::Left, None);
    assert!(!console.is_dirty);
}
