use bracket::geometry::rect::Rect;
use bracket::terminal::grid::{CharacterTranslationMode, TextAlign};
use bracket::terminal::sparse_console::{SparseConsole, SparseTile};

type Rgba = (u8, u8, u8, u8);

const WHITE: Rgba = (255, 255, 255, 255);
const BLACK: Rgba = (0, 0, 0, 255);

fn rgba(r: u8, g: u8, b: u8, a: u8) -> Rgba {
    (r, g, b, a)
}

fn init(width: u32, height: u32) -> SparseConsole<Rgba> {
    SparseConsole::init(width, height, WHITE, BLACK)
}

fn glyphs(text: &str) -> Vec<u16> {
    text.chars().map(|c| c as u16).collect()
}

#[test]
fn init_creates_empty_sparse_console() {
    let console = init(80, 50);

    assert_eq!(console.get_char_size(), (80, 50));
    assert!(console.tiles.is_empty());
    assert!(console.is_dirty);
    assert!(!console.needs_resize_internal);
}

#[test]
fn sparse_console_at_uses_bottom_origin_storage() {
    let console = init(10, 4);
    for (x, y, expected) in [(0, 0, 30), (1, 0, 31), (9, 0, 39), (0, 1, 20), (0, 2, 10), (0, 3, 0), (9, 3, 9)] {
        assert_eq!(console.at(x, y), expected);
    }
}

#[test]
fn sparse_console_at_mapping_differs_from_test_console_row_major_mapping() {
    let sparse = init(10, 4);

    assert_eq!(sparse.at(0, 0), 30);
    assert_eq!(sparse.at(0, 3), 0);
}

#[test]
fn print_appends_sparse_tiles_with_default_colors() {
    let mut console = init(10, 4);

    console.clear_dirty();
    console.print(2, 1, &glyphs("AB"));

    assert!(console.is_dirty);
    assert_eq!(console.tiles.len(), 2);
    assert_eq!(console.tiles[0].idx, console.at(2, 1));
    assert_eq!(console.tiles[0].glyph, 65);
    assert_eq!(console.tiles[0].fg, WHITE);
    assert_eq!(console.tiles[0].bg, BLACK);
    assert_eq!(console.tiles[1].idx, console.at(3, 1));
    assert_eq!(console.tiles[1].glyph, 66);
}

#[test]
fn print_clips_at_right_edge() {
    let mut console = init(3, 1);

    console.print(1, 0, &glyphs("ABCD"));

    assert_eq!(console.tiles.len(), 2);
    assert_eq!(console.tiles[0].idx, console.at(1, 0));
    assert_eq!(console.tiles[0].glyph, 65);
    assert_eq!(console.tiles[1].idx, console.at(2, 0));
    assert_eq!(console.tiles[1].glyph, 66);
}

#[test]
fn print_from_past_right_edge_adds_nothing() {
    let mut console = init(3, 1);
    console.print(3, 0, &glyphs("AB"));
    assert!(console.tiles.is_empty());
    assert!(console.is_dirty);
}

#[test]
fn print_color_appends_sparse_tiles_with_given_colors() {
    let mut console = init(10, 4);
    let fg = rgba(1, 2, 3, 4);
    let bg = rgba(5, 6, 7, 8);

    console.print_color(1, 2, fg, bg, &glyphs("XY"));

    assert_eq!(console.tiles.len(), 2);
    assert_eq!(console.tiles[0].idx, console.at(1, 2));
    assert_eq!(console.tiles[0].glyph, 88);
    assert_eq!(console.tiles[0].fg, fg);
    assert_eq!(console.tiles[0].bg, bg);
    assert_eq!(console.tiles[1].idx, console.at(2, 2));
    assert_eq!(console.tiles[1].glyph, 89);
    assert_eq!(console.tiles[1].fg, fg);
    assert_eq!(console.tiles[1].bg, bg);
}

#[test]
fn set_appends_sparse_tile_when_in_bounds() {
    let mut console = init(10, 4);
    let fg = rgba(11, 12, 13, 14);
    let bg = rgba(21, 22, 23, 24);

    console.set(2, 1, fg, bg, 123);

    assert_eq!(console.tiles.len(), 1);
    assert_eq!(console.tiles[0].idx, console.at(2, 1));
    assert_eq!(console.tiles[0].glyph, 123);
    assert_eq!(console.tiles[0].fg, fg);
    assert_eq!(console.tiles[0].bg, bg);
}

#[test]
fn sparse_console_set_ignores_out_of_bounds_coordinates() {
    let mut console = init(3, 1);

    console.set(3, 0, rgba(1, 2, 3, 4), rgba(5, 6, 7, 8), 65);
    console.set(-1, 0, rgba(1, 2, 3, 4), rgba(5, 6, 7, 8), 66);
    console.set(0, 1, rgba(1, 2, 3, 4), rgba(5, 6, 7, 8), 67);

    assert!(console.tiles.is_empty());
}

#[test]
fn set_bg_updates_existing_tile_backgrounds_with_same_idx() {
    let mut console = init(10, 4);
    let old_bg = rgba(1, 1, 1, 255);
    let new_bg = rgba(9, 8, 7, 6);

    console.set(2, 1, rgba(1, 2, 3, 4), old_bg, 65);
    console.set(2, 1, rgba(5, 6, 7, 8), old_bg, 66);
    console.set_bg(2, 1, new_bg);

    assert_eq!(console.tiles.len(), 2);
    assert!(console.tiles.iter().all(|tile| tile.idx == console.at(2, 1) && tile.bg == new_bg));
}

#[test]
fn set_bg_leaves_other_cells_alone() {
    let mut console = init(10, 4);
    console.set(2, 1, WHITE, BLACK, 65);
    console.set(3, 1, WHITE, BLACK, 66);
    console.set_bg(3, 1, rgba(9, 9, 9, 9));
    assert_eq!(console.tiles[0], SparseTile { idx: console.at(2, 1), glyph: 65, fg: WHITE, bg: BLACK });
    assert_eq!(console.tiles[1].bg, rgba(9, 9, 9, 9));
}

#[test]
fn set_bg_creates_space_tile_when_no_existing_tile_matches() {
    let mut console = init(10, 4);
    let bg = rgba(9, 8, 7, 6);

    console.set_bg(2, 1, bg);

    assert_eq!(console.tiles.len(), 1);
    assert_eq!(console.tiles[0].idx, console.at(2, 1));
    assert_eq!(console.tiles[0].glyph, ' ' as u16);
    assert_eq!(console.tiles[0].fg, rgba(0, 0, 0, 255));
    assert_eq!(console.tiles[0].bg, bg);
}

#[test]
fn set_bg_ignores_out_of_bounds_coordinates() {
    let mut console = init(3, 1);

    console.clear_dirty();
    console.set_bg(3, 0, rgba(9, 8, 7, 6));
    console.set_bg(-1, 0, rgba(9, 8, 7, 6));
    console.set_bg(0, 1, rgba(9, 8, 7, 6));

    assert!(console.tiles.is_empty());
    assert!(!console.is_dirty);
}

#[test]
fn cls_clears_sparse_tiles_and_marks_dirty() {
    let mut console = init(10, 4);

    console.print(0, 0, &glyphs("ABC"));
    console.clear_dirty();
    assert!(!console.is_dirty);

    console.cls();
    assert!(console.is_dirty);
    assert!(console.tiles.is_empty());
}

#[test]
fn cls_bg_clears_sparse_tiles_and_ignores_background() {
    let mut console = init(10, 4);

    console.print(0, 0, &glyphs("ABC"));
    console.clear_dirty();
    assert!(!console.is_dirty);

    console.cls_bg(rgba(1, 2, 3, 4));
    assert!(console.is_dirty);
    assert!(console.tiles.is_empty());
}

#[test]
fn fill_region_adds_one_tile_per_in_bounds_cell() {
    let mut console = init(5, 5);
    let fg = rgba(1, 1, 1, 255);
    let bg = rgba(2, 2, 2, 255);

    console.fill_region(Rect::with_size(1, 1, 2, 3), 88, fg, bg);

    assert_eq!(console.tiles.len(), 6);
    assert!(console.tiles.iter().all(|tile| tile.glyph == 88 && tile.fg == fg && tile.bg == bg));
}

#[test]
fn fill_region_goes_row_by_row_and_skips_hidden_cells() {
    let mut console = init(3, 3);
    console.fill_region(Rect::with_size(1, 1, 3, 3), 7, WHITE, BLACK);
    let idxs: Vec<usize> = console.tiles.iter().map(|t| t.idx).collect();
    assert_eq!(idxs, vec![console.at(1, 1), console.at(2, 1), console.at(1, 2), console.at(2, 2)]);
}

#[test]
fn sparse_console_print_centered_uses_console_width() {
    let mut console = init(10, 2);

    console.print_centered(0, 4, &glyphs("ABCD"));

    assert_eq!(console.tiles.len(), 4);
    assert_eq!(console.tiles[0].idx, console.at(3, 0));
    assert_eq!(console.tiles[1].idx, console.at(4, 0));
    assert_eq!(console.tiles[2].idx, console.at(5, 0));
    assert_eq!(console.tiles[3].idx, console.at(6, 0));
}

#[test]
fn sparse_console_print_right_ends_before_given_x() {
    let mut console = init(10, 2);

    console.print_right(8, 0, 3, &glyphs("ABC"));

    assert_eq!(console.tiles.len(), 3);
    assert_eq!(console.tiles[0].idx, console.at(5, 0));
    assert_eq!(console.tiles[1].idx, console.at(6, 0));
    assert_eq!(console.tiles[2].idx, console.at(7, 0));
}

#[test]
fn sparse_console_set_scale_center_marks_dirty() {
    let mut console = init(10, 20);
    console.clear_dirty();
    console.set_scale_center(3, 4);
    assert_eq!(console.scale_center, (3, 4));
    assert!(console.is_dirty);
}

#[test]
fn sparse_console_clipping_round_trip() {
    let mut console = init(10, 20);
    let clipping = Rect::with_size(1, 2, 3, 4);

    assert_eq!(console.get_clipping(), None);

    console.set_clipping(Some(clipping));
    assert_eq!(console.get_clipping(), Some(clipping));
}

#[test]
fn clipping_limits_set() {
    let mut console = init(10, 5);

    console.set_clipping(Some(Rect::with_size(2, 1, 3, 2)));
    console.set(1, 1, rgba(1, 2, 3, 4), rgba(5, 6, 7, 8), 65);
    console.set(2, 1, rgba(1, 2, 3, 4), rgba(5, 6, 7, 8), 66);
    console.set(4, 2, rgba(1, 2, 3, 4), rgba(5, 6, 7, 8), 67);
    console.set(5, 2, rgba(1, 2, 3, 4), rgba(5, 6, 7, 8), 68);

    assert_eq!(console.tiles.len(), 2);
    assert_eq!(console.tiles[0].glyph, 66);
    assert_eq!(console.tiles[1].glyph, 67);
}

#[test]
fn sparse_console_set_translation_mode_changes_unicode_print_behavior() {
    let mut console = init(3, 1);

    console.set_translation_mode(CharacterTranslationMode::Unicode);
    assert_eq!(console.translation, CharacterTranslationMode::Unicode);
    console.print(0, 0, &glyphs("가"));

    assert_eq!(console.tiles[0].glyph, '가' as u16);
}

#[test]
fn set_char_size_updates_dimensions_without_rebuilding_tiles() {
    let mut console = init(3, 2);

    console.print(0, 0, &glyphs("A"));
    console.set_char_size(5, 4);

    assert_eq!(console.get_char_size(), (5, 4));
    assert_eq!(console.tiles.len(), 1);
    assert!(console.needs_resize_internal);
}

#[test]
fn resize_pixels_marks_dirty_without_changing_dimensions() {
    let mut console = init(80, 50);

    console.clear_dirty();
    console.resize_pixels(1024, 768);

    assert!(console.is_dirty);
    assert_eq!(console.get_char_size(), (80, 50));
}

#[test]
fn sparse_console_clear_dirty_resets_dirty_flag() {
    let mut console = init(80, 50);
    assert!(console.is_dirty);

    console.clear_dirty();
    assert!(!console.is_dirty);
}

#[test]
fn printer_supports_inline_colored_text() {
    let mut console = init(20, 2);
    let red = rgba(255, 0, 0, 255);
    // "#[red]A#[]B": an `A` in red, then a `B` in the default white.
    let spans = vec![(red, glyphs("A")), (WHITE, glyphs("B"))];

    console.printer(0, 0, &spans, TextAlign::Left, None);

    assert_eq!(console.tiles.len(), 2);
    assert_eq!(console.tiles[0].glyph, 65);
    assert_eq!(console.tiles[1].glyph, 66);
    assert_eq!(console.tiles[0].fg, red);
    assert_eq!(console.tiles[1].fg, WHITE);
    assert_eq!(console.tiles[0].bg, BLACK);
}

#[test]
fn printer_aligns_the_whole_text_and_skips_hidden_cells() {
    let mut console = init(10, 2);
    let spans = vec![(WHITE, glyphs("ab")), (BLACK, glyphs("cd"))];
    console.printer(1, 1, &spans, TextAlign::Right, Some(WHITE));
    assert_eq!(console.tiles.len(), 1);
    assert_eq!(console.tiles[0].glyph, 100);
    assert_eq!(console.tiles[0].bg, WHITE);
}
