use vstd::prelude::*;
use crate::geometry::rect::Rect;
use crate::terminal::spans::{
    aligned_start, aligned_x, lemma_spans_cells_len, lemma_spans_len_nonneg, spans_cells, spans_cells_vec, spans_len,
    spans_length, spans_view,
};
use crate::terminal::grid::{
    CharacterTranslationMode, TextAlign, in_bounds, index_of, raw_at, raw_index, raw_index_ok, visible,
};
use crate::terminal::simple_console::{centered_x, half_i32};

verus! {

/// One stored cell of a sparse console: its storage index, its glyph and
/// its colours.
#[derive(Clone, Copy, PartialEq, Debug)]
pub struct SparseTile<C> {
    pub idx: usize,
    pub glyph: u16,
    pub fg: C,
    pub bg: C,
}

/// How many of `len` glyphs printed from column `x` start left of the right
/// edge of a console `w` wide (the width read as an `i32`).
pub open spec fn kept_count(w: u32, x: int, len: int) -> int {
    if x >= (w as i32) {
        0
    } else if len <= (w as i32) - x {
        len
    } else {
        (w as i32) - x
    }
}

/// The tiles a sparse print of the first `n` glyphs adds: one for each
/// glyph left of the right edge, at its raw index on row `y`.
pub open spec fn printed_tiles<C>(
    w: u32,
    h: u32,
    x: int,
    y: int,
    glyphs: Seq<u16>,
    n: int,
    fg: C,
    bg: C,
) -> Seq<SparseTile<C>> {
    Seq::new(
        kept_count(w, x, n) as nat,
        |j: int| SparseTile { idx: raw_index(w, h, x + j, y) as usize, glyph: glyphs[j], fg, bg },
    )
}

/// The tiles appended when the glyphs of `cells` are set one by one from
/// `(x, y)` rightwards over `bg`: one per visible cell.
pub open spec fn set_cells<C>(
    w: u32,
    h: u32,
    clip: Option<Rect>,
    x: int,
    y: int,
    cells: Seq<(u16, C)>,
    bg: C,
) -> Seq<SparseTile<C>>
    decreases cells.len(),
{
    if cells.len() == 0 {
        Seq::empty()
    } else {
        let prev = set_cells(w, h, clip, x, y, cells.drop_last(), bg);
        let j = cells.len() - 1;
        if visible(w, h, clip, x + j, y) {
            prev.push(
                SparseTile { idx: index_of(w, h, x + j, y) as usize, glyph: cells[j].0, fg: cells[j].1, bg },
            )
        } else {
            prev
        }
    }
}

/// A sparse print from `(x, y)` of `len` glyphs can be carried out: the
/// column arithmetic stays within `i32`, and every kept glyph has a raw
/// index that can be computed.
pub open spec fn sparse_print_ok(w: u32, h: u32, x: int, y: int, len: int) -> bool {
    &&& len <= i32::MAX
    &&& x + len <= i32::MAX + 1
    &&& forall|j: int| 0 <= j < kept_count(w, x, len) ==> #[trigger] raw_index_ok(w, h, x + j, y)
}

/// A visible cell's storage index can be computed in `u32` arithmetic.
pub open spec fn cell_index_ok(w: u32, h: u32, clip: Option<Rect>, x: int, y: int) -> bool {
    visible(w, h, clip, x, y) ==> raw_index_ok(w, h, x, y)
}

/// Whether some stored tile has storage index `idx`.
pub open spec fn has_idx<C>(tiles: Seq<SparseTile<C>>, idx: int) -> bool {
    exists|j: int| 0 <= j < tiles.len() && tiles[j].idx == idx
}

/// `tiles` with the background of every tile at index `idx` set to `bg`.
pub open spec fn with_bg_at<C>(tiles: Seq<SparseTile<C>>, idx: int, bg: C) -> Seq<SparseTile<C>> {
    Seq::new(
        tiles.len(),
        |j: int|
            if tiles[j].idx == idx {
                SparseTile { bg, ..tiles[j] }
            } else {
                tiles[j]
            },
    )
}

/// The tiles a fill adds for the cells in `cells`, in order: one for each
/// visible cell.
pub open spec fn fill_tiles<C>(
    w: u32,
    h: u32,
    clip: Option<Rect>,
    cells: Seq<crate::geometry::point::Point>,
    glyph: u16,
    fg: C,
    bg: C,
) -> Seq<SparseTile<C>>
    decreases cells.len(),
{
    if cells.len() == 0 {
        Seq::empty()
    } else {
        let p = cells.last();
        let rest = fill_tiles(w, h, clip, cells.drop_last(), glyph, fg, bg);
        if visible(w, h, clip, p.x as int, p.y as int) {
            rest.push(SparseTile { idx: index_of(w, h, p.x as int, p.y as int) as usize, glyph, fg, bg })
        } else {
            rest
        }
    }
}

/// A sparse console: only the cells that were drawn are stored, each with
/// its storage index, in the order they were drawn. Its colour type is
/// `C`; `default_fg` and `default_bg` are the colours plain printing uses.
pub struct SparseConsole<C> {
    pub width: u32,
    pub height: u32,
    pub tiles: Vec<SparseTile<C>>,
    pub is_dirty: bool,
    pub scale_center: (i32, i32),
    pub extra_clipping: Option<Rect>,
    pub translation: CharacterTranslationMode,
    pub needs_resize_internal: bool,
    pub default_fg: C,
    pub default_bg: C,
}

impl<C: Copy> SparseConsole<C> {
    /// The other fields are as in `other`, apart from the tiles and the
    /// dirty flag.
    pub open spec fn same_settings(&self, other: &Self) -> bool {
        &&& self.width == other.width
        &&& self.height == other.height
        &&& self.scale_center == other.scale_center
        &&& self.extra_clipping == other.extra_clipping
        &&& self.translation == other.translation
        &&& self.needs_resize_internal == other.needs_resize_internal
        &&& self.default_fg == other.default_fg
        &&& self.default_bg == other.default_bg
    }

    /// Whether `(x, y)` is on the console and inside its clipping rectangle.
    pub open spec fn visible_spec(&self, x: int, y: int) -> bool {
        visible(self.width, self.height, self.extra_clipping, x, y)
    }

    /// Initializes an empty console of `width` by `height` characters,
    /// marked dirty.
    pub fn init(width: u32, height: u32, default_fg: C, default_bg: C) -> (c: SparseConsole<C>)
        ensures
            c.width == width,
            c.height == height,
            c.tiles@.len() == 0,
            c.is_dirty,
            c.scale_center == (half_i32(width as i32) as i32, half_i32(height as i32) as i32),
            c.extra_clipping is None,
            c.translation == CharacterTranslationMode::Codepage437,
            !c.needs_resize_internal,
            c.default_fg == default_fg,
            c.default_bg == default_bg,
    {
        SparseConsole {
            width,
            height,
            tiles: Vec::new(),
            is_dirty: true,
            scale_center: ((width as i32) / 2, (height as i32) / 2),
            extra_clipping: None,
            translation: CharacterTranslationMode::Codepage437,
            needs_resize_internal: false,
            default_fg,
            default_bg,
        }
    }

    /// The console's size in characters.
    pub fn get_char_size(&self) -> (s: (u32, u32))
        ensures
            s == (self.width, self.height),
    {
        (self.width, self.height)
    }

    /// The window was resized: the console must be redrawn.
    pub fn resize_pixels(&mut self, _width: u32, _height: u32)
        ensures
            final(self).is_dirty,
            final(self).tiles == old(self).tiles,
            final(self).same_settings(old(self)),
    {
        self.is_dirty = true;
    }

    /// The storage index of `(x, y)`, rows counted from the bottom, with
    /// both coordinates read as `u32`.
    pub fn at(&self, x: i32, y: i32) -> (idx: usize)
        requires
            raw_index_ok(self.width, self.height, x as int, y as int),
        ensures
            idx == raw_index(self.width, self.height, x as int, y as int),
    {
        raw_at(self.width, self.height, x, y)
    }

    /// Whether `(x, y)` is on the console and inside its clipping rectangle.
    pub fn in_bounds(&self, x: i32, y: i32) -> (b: bool)
        ensures
            b == self.visible_spec(x as int, y as int),
    {
        in_bounds(self.width, self.height, self.extra_clipping, x, y)
    }

    /// The storage index of `(x, y)` when it is visible.
    pub fn try_at(&self, x: i32, y: i32) -> (r: Option<usize>)
        requires
            cell_index_ok(self.width, self.height, self.extra_clipping, x as int, y as int),
        ensures
            r is Some <==> self.visible_spec(x as int, y as int),
            r matches Some(idx) ==> idx == index_of(self.width, self.height, x as int, y as int),
    {
        if self.in_bounds(x, y) {
            Some(self.at(x, y))
        } else {
            None
        }
    }

    /// Removes every stored tile.
    pub fn cls(&mut self)
        ensures
            final(self).is_dirty,
            final(self).tiles@.len() == 0,
            final(self).same_settings(old(self)),
    {
        self.is_dirty = true;
        self.tiles.clear();
    }

    /// Removes every stored tile; a sparse console has no background, so
    /// the colour is not used.
    pub fn cls_bg(&mut self, _background: C)
        ensures
            final(self).is_dirty,
            final(self).tiles@.len() == 0,
            final(self).same_settings(old(self)),
    {
        self.is_dirty = true;
        self.tiles.clear();
    }

    /// Appends one tile per glyph printed from `(x, y)` rightwards, for
    /// the glyphs that start left of the right edge.
    fn push_glyphs(&mut self, x: i32, y: i32, glyphs: &[u16], fg: C, bg: C)
        requires
            sparse_print_ok(old(self).width, old(self).height, x as int, y as int, glyphs@.len() as int),
        ensures
            final(self).tiles@ == old(self).tiles@ + printed_tiles(
                old(self).width,
                old(self).height,
                x as int,
                y as int,
                glyphs@,
                glyphs@.len() as int,
                fg,
                bg,
            ),
            final(self).is_dirty == old(self).is_dirty,
            final(self).same_settings(old(self)),
    {
        let ghost old_tiles = self.tiles@;
        let w = self.width;
        let h = self.height;
        let mut i: usize = 0;
        proof {
            assert(printed_tiles(w, h, x as int, y as int, glyphs@, 0, fg, bg) =~= Seq::empty());
            assert(self.tiles@ =~= old_tiles + printed_tiles(w, h, x as int, y as int, glyphs@, 0, fg, bg));
        }
        while i < glyphs.len()
            invariant
                w == self.width,
                h == self.height,
                self.is_dirty == old(self).is_dirty,
                self.same_settings(old(self)),
                i <= glyphs@.len(),
                sparse_print_ok(w, h, x as int, y as int, glyphs@.len() as int),
                self.tiles@ == old_tiles + printed_tiles(w, h, x as int, y as int, glyphs@, i as int, fg, bg),
            decreases glyphs@.len() - i,
        {
            let ghost before = printed_tiles(w, h, x as int, y as int, glyphs@, i as int, fg, bg);
            if (i as i32) + x < (w as i32) {
                proof {
                    assert(raw_index_ok(w, h, x + i, y as int));
                }
                let idx = raw_at(w, h, x + (i as i32), y);
                self.tiles.push(SparseTile { idx, glyph: glyphs[i], fg, bg });
                proof {
                    assert(printed_tiles(w, h, x as int, y as int, glyphs@, i + 1, fg, bg) =~= before.push(
                        SparseTile { idx, glyph: glyphs@[i as int], fg, bg },
                    ));
                }
            } else {
                proof {
                    assert(printed_tiles(w, h, x as int, y as int, glyphs@, i + 1, fg, bg) =~= before);
                }
            }
            i = i + 1;
        }
    }

    /// Prints glyphs from `(x, y)` rightwards in the default colours,
    /// appending one tile per glyph that starts left of the right edge.
    /// Rows and clipping are not checked.
    pub fn print(&mut self, x: i32, y: i32, glyphs: &[u16])
        requires
            sparse_print_ok(old(self).width, old(self).height, x as int, y as int, glyphs@.len() as int),
        ensures
            final(self).is_dirty,
            final(self).same_settings(old(self)),
            final(self).tiles@ == old(self).tiles@ + printed_tiles(
                old(self).width,
                old(self).height,
                x as int,
                y as int,
                glyphs@,
                glyphs@.len() as int,
                old(self).default_fg,
                old(self).default_bg,
            ),
    {
        self.is_dirty = true;
        let fg = self.default_fg;
        let bg = self.default_bg;
        self.push_glyphs(x, y, glyphs, fg, bg);
    }

    /// Prints glyphs from `(x, y)` rightwards in the given colours,
    /// appending one tile per glyph that starts left of the right edge.
    pub fn print_color(&mut self, x: i32, y: i32, fg: C, bg: C, glyphs: &[u16])
        requires
            sparse_print_ok(old(self).width, old(self).height, x as int, y as int, glyphs@.len() as int),
        ensures
            final(self).is_dirty,
            final(self).same_settings(old(self)),
            final(self).tiles@ == old(self).tiles@ + printed_tiles(
                old(self).width,
                old(self).height,
                x as int,
                y as int,
                glyphs@,
                glyphs@.len() as int,
                fg,
                bg,
            ),
    {
        self.is_dirty = true;
        self.push_glyphs(x, y, glyphs, fg, bg);
    }

    /// Sets a single cell: when it is visible, a tile is appended.
    pub fn set(&mut self, x: i32, y: i32, fg: C, bg: C, glyph: u16)
        requires
            cell_index_ok(old(self).width, old(self).height, old(self).extra_clipping, x as int, y as int),
        ensures
            final(self).is_dirty,
            final(self).same_settings(old(self)),
            old(self).visible_spec(x as int, y as int) ==> final(self).tiles@ == old(self).tiles@.push(
                SparseTile {
                    idx: index_of(old(self).width, old(self).height, x as int, y as int) as usize,
                    glyph,
                    fg,
                    bg,
                },
            ),
            !old(self).visible_spec(x as int, y as int) ==> final(self).tiles@ == old(self).tiles@,
    {
        self.is_dirty = true;
        if let Some(idx) = self.try_at(x, y) {
            self.tiles.push(SparseTile { idx, glyph, fg, bg });
        }
    }

    /// Sets a single cell's background, when it is visible: every stored
    /// tile at that cell takes the colour, and when there is none, a space
    /// (glyph 32 in both translation modes) in black, the default
    /// background colour, over `bg` is appended.
    pub fn set_bg(&mut self, x: i32, y: i32, bg: C)
        requires
            cell_index_ok(old(self).width, old(self).height, old(self).extra_clipping, x as int, y as int),
        ensures
            final(self).is_dirty == (old(self).is_dirty || old(self).visible_spec(x as int, y as int)),
            final(self).same_settings(old(self)),
            !old(self).visible_spec(x as int, y as int) ==> final(self).tiles@ == old(self).tiles@,
            old(self).visible_spec(x as int, y as int) && has_idx(
                old(self).tiles@,
                index_of(old(self).width, old(self).height, x as int, y as int),
            ) ==> final(self).tiles@ == with_bg_at(
                old(self).tiles@,
                index_of(old(self).width, old(self).height, x as int, y as int),
                bg,
            ),
            old(self).visible_spec(x as int, y as int) && !has_idx(
                old(self).tiles@,
                index_of(old(self).width, old(self).height, x as int, y as int),
            ) ==> final(self).tiles@ == old(self).tiles@.push(
                SparseTile {
                    idx: index_of(old(self).width, old(self).height, x as int, y as int) as usize,
                    glyph: 32u16,
                    fg: old(self).default_bg,
                    bg,
                },
            ),
    {
        if let Some(idx) = self.try_at(x, y) {
            self.is_dirty = true;
            let ghost old_tiles = self.tiles@;
            let mut found_tile = false;
            let mut j: usize = 0;
            while j < self.tiles.len()
                invariant
                    self.same_settings(old(self)),
                    self.is_dirty,
                    self.tiles@.len() == old_tiles.len(),
                    j <= old_tiles.len(),
                    forall|k: int| 0 <= k < j ==> self.tiles@[k] == with_bg_at(old_tiles, idx as int, bg)[k],
                    forall|k: int| j <= k < old_tiles.len() ==> self.tiles@[k] == old_tiles[k],
                    found_tile == (exists|k: int| 0 <= k < j && old_tiles[k].idx == idx),
                decreases old_tiles.len() - j,
            {
                if self.tiles[j].idx == idx {
                    let mut t = self.tiles[j];
                    t.bg = bg;
                    self.tiles.set(j, t);
                    found_tile = true;
                }
                proof {
                    if old_tiles[j as int].idx == idx {
                        assert(exists|k: int| 0 <= k < j + 1 && old_tiles[k].idx == idx);
                    } else if found_tile {
                        let k0 = choose|k: int| 0 <= k < j && old_tiles[k].idx == idx;
                        assert(0 <= k0 < j + 1 && old_tiles[k0].idx == idx);
                    }
                }
                j = j + 1;
            }
            proof {
                assert(self.tiles@ =~= with_bg_at(old_tiles, idx as int, bg));
            }
            if !found_tile {
                self.tiles.push(SparseTile { idx, glyph: 32, fg: self.default_bg, bg });
            }
        }
    }

    /// Fills a rectangle: for each of its cells, row by row, a tile is
    /// appended when the cell is visible. The console is marked dirty when
    /// the rectangle has a cell.
    pub fn fill_region(&mut self, target: Rect, glyph: u16, fg: C, bg: C)
        requires
            forall|px: int, py: int|
                target.x1 <= px < target.x2 && target.y1 <= py < target.y2 ==> #[trigger] cell_index_ok(
                    old(self).width,
                    old(self).height,
                    old(self).extra_clipping,
                    px,
                    py,
                ),
        ensures
            final(self).is_dirty == (old(self).is_dirty || (target.x1 < target.x2 && target.y1 < target.y2)),
            final(self).same_settings(old(self)),
            final(self).tiles@ == old(self).tiles@ + fill_tiles(
                old(self).width,
                old(self).height,
                old(self).extra_clipping,
                target.cells_spec(),
                glyph,
                fg,
                bg,
            ),
    {
        let ghost old_tiles = self.tiles@;
        let ghost w = self.width;
        let ghost h = self.height;
        let ghost clip = self.extra_clipping;
        let ghost cells = target.cells_spec();
        if target.x1 >= target.x2 || target.y1 >= target.y2 {
            proof {
                assert(fill_tiles(w, h, clip, cells, glyph, fg, bg) =~= Seq::empty());
                assert(self.tiles@ =~= old_tiles + fill_tiles(w, h, clip, cells, glyph, fg, bg));
            }
            return;
        }
        let ghost wd: int = target.x2 - target.x1;
        let ghost ht: int = target.y2 - target.y1;
        proof {
            assert(cells.take(0) =~= Seq::<crate::geometry::point::Point>::empty());
            assert(self.tiles@ =~= old_tiles + fill_tiles(w, h, clip, cells.take(0), glyph, fg, bg));
        }
        let mut y = target.y1;
        while y < target.y2
            invariant
                self.same_settings(old(self)),
                self.is_dirty == (old(self).is_dirty || y > target.y1),
                w == self.width,
                h == self.height,
                clip == self.extra_clipping,
                cells == target.cells_spec(),
                wd == target.x2 - target.x1,
                ht == target.y2 - target.y1,
                wd > 0,
                ht > 0,
                target.y1 <= y <= target.y2,
                forall|px: int, py: int|
                    target.x1 <= px < target.x2 && target.y1 <= py < target.y2 ==> #[trigger] cell_index_ok(
                        w,
                        h,
                        clip,
                        px,
                        py,
                    ),
                self.tiles@ == old_tiles + fill_tiles(w, h, clip, cells.take((y - target.y1) * wd), glyph, fg, bg),
            decreases target.y2 - y,
        {
            let mut x = target.x1;
            while x < target.x2
                invariant
                    self.same_settings(old(self)),
                    self.is_dirty == (old(self).is_dirty || y > target.y1 || x > target.x1),
                    w == self.width,
                    h == self.height,
                    clip == self.extra_clipping,
                    cells == target.cells_spec(),
                    wd == target.x2 - target.x1,
                    ht == target.y2 - target.y1,
                    wd > 0,
                    ht > 0,
                    target.y1 <= y < target.y2,
                    target.x1 <= x <= target.x2,
                    forall|px: int, py: int|
                        target.x1 <= px < target.x2 && target.y1 <= py < target.y2 ==> #[trigger] cell_index_ok(
                            w,
                            h,
                            clip,
                            px,
                            py,
                        ),
                    self.tiles@ == old_tiles + fill_tiles(
                        w,
                        h,
                        clip,
                        cells.take((y - target.y1) * wd + (x - target.x1)),
                        glyph,
                        fg,
                        bg,
                    ),
                decreases target.x2 - x,
            {
                let ghost k: int = (y - target.y1) * wd + (x - target.x1);
                proof {
                    let q: int = y - target.y1;
                    let r: int = x - target.x1;
                    assert(0 <= k < wd * ht) by (nonlinear_arith)
                        requires k == q * wd + r, 0 <= q < ht, 0 <= r < wd;
                    vstd::arithmetic::div_mod::lemma_fundamental_div_mod_converse(k, wd, q, r);
                    assert(cells[k] == crate::geometry::point::Point { x, y });
                    assert(cells.take(k + 1).drop_last() =~= cells.take(k));
                    assert(cells.take(k + 1).last() == cells[k]);
                    assert(cell_index_ok(w, h, clip, x as int, y as int));
                }
                self.set(x, y, fg, bg, glyph);
                x = x + 1;
            }
            proof {
                assert((y - target.y1) * wd + wd == (y + 1 - target.y1) * wd) by (nonlinear_arith);
            }
            y = y + 1;
        }
        proof {
            assert(ht * wd == wd * ht) by (nonlinear_arith);
            assert(cells.take(ht * wd) =~= cells);
        }
    }

    /// Prints glyphs in the default colours, centred on the console's
    /// width at row `y`; `text_len` is the length in bytes of their text.
    pub fn print_centered(&mut self, y: i32, text_len: usize, glyphs: &[u16])
        requires
            sparse_print_ok(
                old(self).width,
                old(self).height,
                centered_x(half_i32(old(self).width as i32), text_len),
                y as int,
                glyphs@.len() as int,
            ),
        ensures
            final(self).is_dirty,
            final(self).same_settings(old(self)),
            final(self).tiles@ == old(self).tiles@ + printed_tiles(
                old(self).width,
                old(self).height,
                centered_x(half_i32(old(self).width as i32), text_len),
                y as int,
                glyphs@,
                glyphs@.len() as int,
                old(self).default_fg,
                old(self).default_bg,
            ),
    {
        self.is_dirty = true;
        let x = (self.width as i32) / 2 - (text_len as i32) / 2;
        self.print(x, y, glyphs);
    }

    /// Prints glyphs in the given colours, centred on the console's width
    /// at row `y`; `text_len` is the length in bytes of their text.
    pub fn print_color_centered(&mut self, y: i32, fg: C, bg: C, text_len: usize, glyphs: &[u16])
        requires
            sparse_print_ok(
                old(self).width,
                old(self).height,
                centered_x(half_i32(old(self).width as i32), text_len),
                y as int,
                glyphs@.len() as int,
            ),
        ensures
            final(self).is_dirty,
            final(self).same_settings(old(self)),
            final(self).tiles@ == old(self).tiles@ + printed_tiles(
                old(self).width,
                old(self).height,
                centered_x(half_i32(old(self).width as i32), text_len),
                y as int,
                glyphs@,
                glyphs@.len() as int,
                fg,
                bg,
            ),
    {
        self.is_dirty = true;
        let x = (self.width as i32) / 2 - (text_len as i32) / 2;
        self.print_color(x, y, fg, bg, glyphs);
    }

    /// Prints glyphs in the default colours centred on `x` at row `y`;
    /// `text_len` is the length in bytes of their text.
    pub fn print_centered_at(&mut self, x: i32, y: i32, text_len: usize, glyphs: &[u16])
        requires
            i32::MIN <= centered_x(x as int, text_len) <= i32::MAX,
            sparse_print_ok(
                old(self).width,
                old(self).height,
                centered_x(x as int, text_len),
                y as int,
                glyphs@.len() as int,
            ),
        ensures
            final(self).is_dirty,
            final(self).same_settings(old(self)),
            final(self).tiles@ == old(self).tiles@ + printed_tiles(
                old(self).width,
                old(self).height,
                centered_x(x as int, text_len),
                y as int,
                glyphs@,
                glyphs@.len() as int,
                old(self).default_fg,
                old(self).default_bg,
            ),
    {
        self.is_dirty = true;
        self.print(x - (text_len as i32) / 2, y, glyphs);
    }

    /// Prints glyphs in the given colours centred on `x` at row `y`;
    /// `text_len` is the length in bytes of their text.
    pub fn print_color_centered_at(&mut self, x: i32, y: i32, fg: C, bg: C, text_len: usize, glyphs: &[u16])
        requires
            i32::MIN <= centered_x(x as int, text_len) <= i32::MAX,
            sparse_print_ok(
                old(self).width,
                old(self).height,
                centered_x(x as int, text_len),
                y as int,
                glyphs@.len() as int,
            ),
        ensures
            final(self).is_dirty,
            final(self).same_settings(old(self)),
            final(self).tiles@ == old(self).tiles@ + printed_tiles(
                old(self).width,
                old(self).height,
                centered_x(x as int, text_len),
                y as int,
                glyphs@,
                glyphs@.len() as int,
                fg,
                bg,
            ),
    {
        self.is_dirty = true;
        self.print_color(x - (text_len as i32) / 2, y, fg, bg, glyphs);
    }

    /// Prints glyphs in the default colours so that they end just before
    /// `x`: they start at `x - text_len`, `text_len` being the length in
    /// bytes of their text.
    pub fn print_right(&mut self, x: i32, y: i32, text_len: usize, glyphs: &[u16])
        requires
            i32::MIN <= x - (text_len as i32) <= i32::MAX,
            sparse_print_ok(
                old(self).width,
                old(self).height,
                x - (text_len as i32),
                y as int,
                glyphs@.len() as int,
            ),
        ensures
            final(self).is_dirty,
            final(self).same_settings(old(self)),
            final(self).tiles@ == old(self).tiles@ + printed_tiles(
                old(self).width,
                old(self).height,
                x - (text_len as i32),
                y as int,
                glyphs@,
                glyphs@.len() as int,
                old(self).default_fg,
                old(self).default_bg,
            ),
    {
        let len = text_len as i32;
        self.print(x - len, y, glyphs);
    }

    /// Prints glyphs in the given colours so that they end just before `x`.
    pub fn print_color_right(&mut self, x: i32, y: i32, fg: C, bg: C, text_len: usize, glyphs: &[u16])
        requires
            i32::MIN <= x - (text_len as i32) <= i32::MAX,
            sparse_print_ok(
                old(self).width,
                old(self).height,
                x - (text_len as i32),
                y as int,
                glyphs@.len() as int,
            ),
        ensures
            final(self).is_dirty,
            final(self).same_settings(old(self)),
            final(self).tiles@ == old(self).tiles@ + printed_tiles(
                old(self).width,
                old(self).height,
                x - (text_len as i32),
                y as int,
                glyphs@,
                glyphs@.len() as int,
                fg,
                bg,
            ),
    {
        let len = text_len as i32;
        self.print_color(x - len, y, fg, bg, glyphs);
    }

    /// Prints runs of glyphs one after the other, each in its own
    /// foreground over `background` (the console's default background when
    /// none is given), aligned on `x` as a whole (see [`aligned_start`]):
    /// each glyph is set as by [`SparseConsole::set`], so a tile is
    /// appended for each visible cell. The console is marked dirty when any
    /// glyph is set.
    pub fn printer(&mut self, x: i32, y: i32, spans: &Vec<(C, Vec<u16>)>, align: TextAlign, background: Option<C>)
        requires
            spans_len(spans_view(spans@)) <= i32::MAX,
            i32::MIN <= aligned_start(x as int, spans_len(spans_view(spans@)), align),
            aligned_start(x as int, spans_len(spans_view(spans@)), align) + spans_len(spans_view(spans@))
                <= i32::MAX,
            forall|j: int|
                0 <= j < spans_len(spans_view(spans@)) ==> #[trigger] cell_index_ok(
                    old(self).width,
                    old(self).height,
                    old(self).extra_clipping,
                    aligned_start(x as int, spans_len(spans_view(spans@)), align) + j,
                    y as int,
                ),
        ensures
            final(self).same_settings(old(self)),
            final(self).is_dirty == (old(self).is_dirty || spans_len(spans_view(spans@)) > 0),
            final(self).tiles@ == old(self).tiles@ + set_cells(
                old(self).width,
                old(self).height,
                old(self).extra_clipping,
                aligned_start(x as int, spans_len(spans_view(spans@)), align),
                y as int,
                spans_cells(spans_view(spans@)),
                match background {
                    Some(b) => b,
                    None => old(self).default_bg,
                },
            ),
    {
        let bg = match background {
            Some(b) => b,
            None => self.default_bg,
        };
        let ghost s = spans_view(spans@);
        proof {
            lemma_spans_len_nonneg(s);
            lemma_spans_cells_len(s);
        }
        let len = spans_length(spans);
        let start = aligned_x(x, len, align);
        let cells = spans_cells_vec(spans);
        let mut j: usize = 0;
        proof {
            assert(cells@.take(0) =~= Seq::<(u16, C)>::empty());
            assert(old(self).tiles@ + Seq::<SparseTile<C>>::empty() =~= old(self).tiles@);
        }
        while j < cells.len()
            invariant
                self.same_settings(old(self)),
                self.is_dirty == (old(self).is_dirty || j > 0),
                cells@ == spans_cells(s),
                cells@.len() == spans_len(s),
                s == spans_view(spans@),
                j <= cells@.len(),
                start == aligned_start(x as int, spans_len(s), align),
                start + spans_len(s) <= i32::MAX,
                spans_len(s) <= i32::MAX,
                bg == (match background {
                    Some(b) => b,
                    None => old(self).default_bg,
                }),
                forall|i: int|
                    0 <= i < spans_len(s) ==> #[trigger] cell_index_ok(
                        old(self).width,
                        old(self).height,
                        old(self).extra_clipping,
                        start + i,
                        y as int,
                    ),
                self.tiles@ == old(self).tiles@ + set_cells(
                    old(self).width,
                    old(self).height,
                    old(self).extra_clipping,
                    start as int,
                    y as int,
                    cells@.take(j as int),
                    bg,
                ),
            decreases cells@.len() - j,
        {
            let (glyph, fg) = cells[j];
            let tx = start + j as i32;
            proof {
                assert(cell_index_ok(
                    old(self).width,
                    old(self).height,
                    old(self).extra_clipping,
                    start + j,
                    y as int,
                ));
                let t = cells@.take(j + 1);
                assert(t.drop_last() =~= cells@.take(j as int));
                assert(t[j as int] == cells@[j as int]);
            }
            let ghost before = self.tiles@;
            self.set(tx, y, fg, bg, glyph);
            proof {
                let t = cells@.take(j + 1);
                let prev = set_cells(
                    old(self).width,
                    old(self).height,
                    old(self).extra_clipping,
                    start as int,
                    y as int,
                    cells@.take(j as int),
                    bg,
                );
                if visible(old(self).width, old(self).height, old(self).extra_clipping, start + j, y as int) {
                    assert(self.tiles@ =~= old(self).tiles@ + prev.push(
                        SparseTile {
                            idx: index_of(old(self).width, old(self).height, start + j, y as int) as usize,
                            glyph,
                            fg,
                            bg,
                        },
                    ));
                } else {
                    assert(self.tiles@ =~= old(self).tiles@ + prev);
                }
            }
            j = j + 1;
        }
        proof {
            assert(cells@.take(j as int) =~= cells@);
        }
    }

    /// Sets the centre of scaling; the console must be redrawn.
    pub fn set_scale_center(&mut self, center_x: i32, center_y: i32)
        ensures
            final(self).is_dirty,
            final(self).scale_center == (center_x, center_y),
            final(self).tiles == old(self).tiles,
            final(self).width == old(self).width,
            final(self).height == old(self).height,
            final(self).extra_clipping == old(self).extra_clipping,
            final(self).translation == old(self).translation,
            final(self).needs_resize_internal == old(self).needs_resize_internal,
            final(self).default_fg == old(self).default_fg,
            final(self).default_bg == old(self).default_bg,
    {
        self.is_dirty = true;
        self.scale_center = (center_x, center_y);
    }

    /// Sets the clipping rectangle; `None` removes it.
    pub fn set_clipping(&mut self, clipping: Option<Rect>)
        ensures
            final(self).extra_clipping == clipping,
            final(self).tiles == old(self).tiles,
            final(self).is_dirty == old(self).is_dirty,
            final(self).width == old(self).width,
            final(self).height == old(self).height,
            final(self).scale_center == old(self).scale_center,
            final(self).translation == old(self).translation,
            final(self).needs_resize_internal == old(self).needs_resize_internal,
            final(self).default_fg == old(self).default_fg,
            final(self).default_bg == old(self).default_bg,
    {
        self.extra_clipping = clipping;
    }

    /// The clipping rectangle, if any.
    pub fn get_clipping(&self) -> (r: Option<Rect>)
        ensures
            r == self.extra_clipping,
    {
        self.extra_clipping
    }

    /// Sets how text is turned into glyphs.
    pub fn set_translation_mode(&mut self, mode: CharacterTranslationMode)
        ensures
            final(self).translation == mode,
            final(self).tiles == old(self).tiles,
            final(self).is_dirty == old(self).is_dirty,
            final(self).width == old(self).width,
            final(self).height == old(self).height,
            final(self).scale_center == old(self).scale_center,
            final(self).extra_clipping == old(self).extra_clipping,
            final(self).needs_resize_internal == old(self).needs_resize_internal,
            final(self).default_fg == old(self).default_fg,
            final(self).default_bg == old(self).default_bg,
    {
        self.translation = mode;
    }

    /// Sets the size in characters; the stored tiles are kept as they are
    /// and the renderer is told to resize.
    pub fn set_char_size(&mut self, width: u32, height: u32)
        ensures
            final(self).width == width,
            final(self).height == height,
            final(self).needs_resize_internal,
            final(self).tiles == old(self).tiles,
            final(self).is_dirty == old(self).is_dirty,
            final(self).scale_center == old(self).scale_center,
            final(self).extra_clipping == old(self).extra_clipping,
            final(self).translation == old(self).translation,
            final(self).default_fg == old(self).default_fg,
            final(self).default_bg == old(self).default_bg,
    {
        self.width = width;
        self.height = height;
        self.needs_resize_internal = true;
    }

    /// Clears the dirty flag.
    pub fn clear_dirty(&mut self)
        ensures
            !final(self).is_dirty,
            final(self).tiles == old(self).tiles,
            final(self).same_settings(old(self)),
    {
        self.is_dirty = false;
    }
}

} // verus!
