use vstd::prelude::*;
use crate::geometry::rect::Rect;
use crate::terminal::spans::{
    aligned_start, aligned_x, lemma_spans_len_nonneg, lemma_spans_skip, printed_spans, spans_len, spans_length,
    spans_view,
};
use crate::terminal::grid::{
    CharacterTranslationMode, TextAlign, Tile, at, col, fill_all, fill_rect, filled, filled_tiles, grid_ok,
    in_bounds, index_of, lemma_coords_index, lemma_index_coords, lemma_size_as_i32, print_glyphs, printed, raw_at, raw_index, raw_index_ok, row,
    set_tile, set_tile_bg, try_at, visible,
};

verus! {

/// `v / 2` rounded towards zero, as integer division on `i32` does.
pub open spec fn half_i32(v: i32) -> int {
    if v >= 0 {
        v / 2
    } else {
        -((-v) / 2)
    }
}

/// Where text of `len` bytes starts when centred on `x`: `x - len / 2`,
/// with the length taken as an `i32`.
pub open spec fn centered_x(x: int, len: usize) -> int {
    x - half_i32(len as i32)
}

/// Whether `(x, y)` is copied when a `w1` by `h1` grid is resized to `w2`
/// by `h2`: it lies below both widths and both heights, the sizes read as
/// `i32`.
pub open spec fn kept_cell(w1: u32, h1: u32, w2: u32, h2: u32, x: int, y: int) -> bool {
    x < (w1 as i32) && x < (w2 as i32) && y < (h1 as i32) && y < (h2 as i32)
}

/// The tile at index `i` of a `w2` by `h2` grid resized from a `w1` by
/// `h1` grid `old`: the old tile at the same coordinates when they are
/// kept, `blank` otherwise.
pub open spec fn resized_tile<C>(old: Seq<Tile<C>>, w1: u32, h1: u32, w2: u32, h2: u32, blank: Tile<C>, i: int) -> Tile<C> {
    let x = col(w2, i);
    let y = row(w2, h2, i);
    if kept_cell(w1, h1, w2, h2, x, y) {
        old[index_of(w1, h1, x, y)]
    } else {
        blank
    }
}

/// Resizing a grid to its own size keeps every tile, as long as the sizes
/// fit in an `i32` (larger sizes read as negative and keep nothing).
pub proof fn lemma_resize_to_same_size<C>(old: Seq<Tile<C>>, w: u32, h: u32, blank: Tile<C>)
    requires
        w <= i32::MAX,
        h <= i32::MAX,
        old.len() == w * h,
    ensures
        forall|i: int| 0 <= i < w * h ==> #[trigger] resized_tile(old, w, h, w, h, blank, i) == old[i],
{
    lemma_size_as_i32(w);
    lemma_size_as_i32(h);
    assert forall|i: int| 0 <= i < w * h implies #[trigger] resized_tile(old, w, h, w, h, blank, i) == old[i] by {
        lemma_coords_index(w, h, i);
    }
}

/// A simple console: a dense grid of tiles with a background colour, stored
/// bottom row first. Its colour type is `C`; `default_fg` and `default_bg`
/// are the colours a cleared tile takes.
pub struct SimpleConsole<C> {
    pub width: u32,
    pub height: u32,
    pub tiles: Vec<Tile<C>>,
    pub is_dirty: bool,
    pub scale_center: (i32, i32),
    pub extra_clipping: Option<Rect>,
    pub translation: CharacterTranslationMode,
    pub needs_resize_internal: bool,
    pub default_fg: C,
    pub default_bg: C,
}

impl<C: Copy> SimpleConsole<C> {
    /// One tile per cell, and cell indices fit in a `u32`.
    pub open spec fn wf(&self) -> bool {
        &&& grid_ok(self.width, self.height)
        &&& self.tiles@.len() == self.width * self.height
    }

    /// The other fields are as in `other`, apart from the tiles and the
    /// dirty flag.
    pub open spec fn same_settings(&self, other: &Self) -> bool {
        &&& self.width == other.width
        &&& self.height == other.height
        &&& self.scale_center == other.scale_center
        &&& self.extra_clipping == other.extra_clipping
        &&& self.translation == other.translation
        &&& self.needs_resize_internal == other.needs_resize_internal
        &&& self.default_fg == other.default_fg
        &&& self.default_bg == other.default_bg
    }

    /// Whether `(x, y)` is on the console and inside its clipping rectangle.
    pub open spec fn visible_spec(&self, x: int, y: int) -> bool {
        visible(self.width, self.height, self.extra_clipping, x, y)
    }

    /// Initializes a console of `width` by `height` blank tiles (glyph 0)
    /// in the default colours, marked dirty.
    pub fn init(width: u32, height: u32, default_fg: C, default_bg: C) -> (c: SimpleConsole<C>)
        requires
            grid_ok(width, height),
        ensures
            c.wf(),
            c.width == width,
            c.height == height,
            c.tiles@ == Seq::new(
                (width * height) as nat,
                |i: int| Tile { glyph: 0u16, fg: default_fg, bg: default_bg },
            ),
            c.is_dirty,
            c.scale_center == (half_i32(width as i32) as i32, half_i32(height as i32) as i32),
            c.extra_clipping is None,
            c.translation == CharacterTranslationMode::Codepage437,
            !c.needs_resize_internal,
            c.default_fg == default_fg,
            c.default_bg == default_bg,
    {
        let num_tiles = (width * height) as usize;
        let tiles = filled_tiles(num_tiles, Tile { glyph: 0, fg: default_fg, bg: default_bg });
        SimpleConsole {
            width,
            height,
            tiles,
            is_dirty: true,
            scale_center: ((width as i32) / 2, (height as i32) / 2),
            extra_clipping: None,
            translation: CharacterTranslationMode::Codepage437,
            needs_resize_internal: false,
            default_fg,
            default_bg,
        }
    }

    /// The console's size in characters.
    pub fn get_char_size(&self) -> (s: (u32, u32))
        ensures
            s == (self.width, self.height),
    {
        (self.width, self.height)
    }

    /// The window was resized: the console must be redrawn.
    pub fn resize_pixels(&mut self, _width: u32, _height: u32)
        ensures
            final(self).is_dirty,
            final(self).tiles == old(self).tiles,
            final(self).same_settings(old(self)),
    {
        self.is_dirty = true;
    }

    /// The storage index of `(x, y)`, rows counted from the bottom, with
    /// both coordinates read as `u32`.
    pub fn at(&self, x: i32, y: i32) -> (idx: usize)
        requires
            raw_index_ok(self.width, self.height, x as int, y as int),
        ensures
            idx == raw_index(self.width, self.height, x as int, y as int),
    {
        raw_at(self.width, self.height, x, y)
    }

    /// Whether `(x, y)` is on the console and inside its clipping rectangle.
    pub fn in_bounds(&self, x: i32, y: i32) -> (b: bool)
        ensures
            b == self.visible_spec(x as int, y as int),
    {
        in_bounds(self.width, self.height, self.extra_clipping, x, y)
    }

    /// The storage index of `(x, y)` when it is visible.
    pub fn try_at(&self, x: i32, y: i32) -> (r: Option<usize>)
        requires
            self.wf(),
        ensures
            r is Some <==> self.visible_spec(x as int, y as int),
            r matches Some(idx) ==> idx == index_of(self.width, self.height, x as int, y as int),
    {
        try_at(self.width, self.height, self.extra_clipping, x, y)
    }

    /// Clears the screen: every tile becomes a space in the default colours.
    pub fn cls(&mut self)
        ensures
            final(self).is_dirty,
            final(self).same_settings(old(self)),
            final(self).tiles@ == Seq::new(
                old(self).tiles@.len(),
                |i: int| Tile { glyph: 32u16, fg: old(self).default_fg, bg: old(self).default_bg },
            ),
    {
        self.is_dirty = true;
        let blank = Tile { glyph: 32, fg: self.default_fg, bg: self.default_bg };
        fill_all(&mut self.tiles, blank);
    }

    /// Clears the screen with a background colour: every tile becomes a
    /// space in the default foreground over `background`.
    pub fn cls_bg(&mut self, background: C)
        ensures
            final(self).is_dirty,
            final(self).same_settings(old(self)),
            final(self).tiles@ == Seq::new(
                old(self).tiles@.len(),
                |i: int| Tile { glyph: 32u16, fg: old(self).default_fg, bg: background },
            ),
    {
        self.is_dirty = true;
        let blank = Tile { glyph: 32, fg: self.default_fg, bg: background };
        fill_all(&mut self.tiles, blank);
    }

    /// Prints glyphs from `(x, y)` rightwards, keeping each tile's colours;
    /// cells that are not visible are skipped.
    pub fn print(&mut self, x: i32, y: i32, glyphs: &[u16])
        requires
            old(self).wf(),
            x + glyphs@.len() <= i32::MAX,
        ensures
            final(self).wf(),
            final(self).is_dirty,
            final(self).same_settings(old(self)),
            forall|i: int|
                0 <= i < old(self).tiles@.len() ==> final(self).tiles@[i] == printed(
                    old(self).tiles@[i],
                    old(self).width,
                    old(self).height,
                    old(self).extra_clipping,
                    x as int,
                    y as int,
                    glyphs@,
                    None,
                    i,
                ),
    {
        self.is_dirty = true;
        print_glyphs(&mut self.tiles, self.width, self.height, self.extra_clipping, x, y, glyphs, None);
    }

    /// Prints glyphs from `(x, y)` rightwards in the given colours; cells
    /// that are not visible are skipped.
    pub fn print_color(&mut self, x: i32, y: i32, fg: C, bg: C, glyphs: &[u16])
        requires
            old(self).wf(),
            x + glyphs@.len() <= i32::MAX,
        ensures
            final(self).wf(),
            final(self).is_dirty,
            final(self).same_settings(old(self)),
            forall|i: int|
                0 <= i < old(self).tiles@.len() ==> final(self).tiles@[i] == printed(
                    old(self).tiles@[i],
                    old(self).width,
                    old(self).height,
                    old(self).extra_clipping,
                    x as int,
                    y as int,
                    glyphs@,
                    Some((fg, bg)),
                    i,
                ),
    {
        self.is_dirty = true;
        print_glyphs(&mut self.tiles, self.width, self.height, self.extra_clipping, x, y, glyphs, Some((fg, bg)));
    }

    /// Sets a single cell, when it is visible.
    pub fn set(&mut self, x: i32, y: i32, fg: C, bg: C, glyph: u16)
        requires
            old(self).wf(),
        ensures
            final(self).wf(),
            final(self).is_dirty,
            final(self).same_settings(old(self)),
            old(self).visible_spec(x as int, y as int) ==> final(self).tiles@ == old(self).tiles@.update(
                index_of(old(self).width, old(self).height, x as int, y as int),
                Tile { glyph, fg, bg },
            ),
            !old(self).visible_spec(x as int, y as int) ==> final(self).tiles@ == old(self).tiles@,
    {
        self.is_dirty = true;
        let _ = set_tile(&mut self.tiles, self.width, self.height, self.extra_clipping, x, y, Tile { glyph, fg, bg });
    }

    /// Sets a single cell's background, when it is visible.
    pub fn set_bg(&mut self, x: i32, y: i32, bg: C)
        requires
            old(self).wf(),
        ensures
            final(self).wf(),
            final(self).is_dirty,
            final(self).same_settings(old(self)),
            old(self).visible_spec(x as int, y as int) ==> final(self).tiles@ == old(self).tiles@.update(
                index_of(old(self).width, old(self).height, x as int, y as int),
                Tile { bg, ..old(self).tiles@[index_of(old(self).width, old(self).height, x as int, y as int)] },
            ),
            !old(self).visible_spec(x as int, y as int) ==> final(self).tiles@ == old(self).tiles@,
    {
        self.is_dirty = true;
        proof {
            if self.visible_spec(x as int, y as int) {
                lemma_index_coords(self.width, self.height, x as int, y as int);
            }
        }
        set_tile_bg(&mut self.tiles, self.width, self.height, self.extra_clipping, x, y, bg);
    }

    /// Fills a rectangle: every visible cell in it takes the glyph and
    /// colours. The console is marked dirty when the rectangle has a cell.
    pub fn fill_region(&mut self, target: Rect, glyph: u16, fg: C, bg: C)
        requires
            old(self).wf(),
        ensures
            final(self).wf(),
            final(self).is_dirty == (old(self).is_dirty || (target.x1 < target.x2 && target.y1 < target.y2)),
            final(self).same_settings(old(self)),
            forall|i: int|
                0 <= i < old(self).tiles@.len() ==> final(self).tiles@[i] == filled(
                    old(self).tiles@[i],
                    old(self).width,
                    old(self).height,
                    old(self).extra_clipping,
                    target,
                    Tile { glyph, fg, bg },
                    i,
                ),
    {
        fill_rect(&mut self.tiles, self.width, self.height, self.extra_clipping, target, Tile { glyph, fg, bg });
        if target.x1 < target.x2 && target.y1 < target.y2 {
            self.is_dirty = true;
        }
    }

    /// Prints glyphs centred on the console's width at row `y`; `text_len`
    /// is the length in bytes of the text the glyphs come from.
    pub fn print_centered(&mut self, y: i32, text_len: usize, glyphs: &[u16])
        requires
            old(self).wf(),
            i32::MIN <= centered_x(half_i32(old(self).width as i32), text_len),
            centered_x(half_i32(old(self).width as i32), text_len) + glyphs@.len() <= i32::MAX,
        ensures
            final(self).wf(),
            final(self).is_dirty,
            final(self).same_settings(old(self)),
            forall|i: int|
                0 <= i < old(self).tiles@.len() ==> final(self).tiles@[i] == printed(
                    old(self).tiles@[i],
                    old(self).width,
                    old(self).height,
                    old(self).extra_clipping,
                    centered_x(half_i32(old(self).width as i32), text_len),
                    y as int,
                    glyphs@,
                    None,
                    i,
                ),
    {
        let x = (self.width as i32) / 2 - (text_len as i32) / 2;
        self.print(x, y, glyphs);
    }

    /// Prints glyphs in colour, centred on the console's width at row `y`;
    /// `text_len` is the length in bytes of their text.
    pub fn print_color_centered(&mut self, y: i32, fg: C, bg: C, text_len: usize, glyphs: &[u16])
        requires
            old(self).wf(),
            i32::MIN <= centered_x(half_i32(old(self).width as i32), text_len),
            centered_x(half_i32(old(self).width as i32), text_len) + glyphs@.len() <= i32::MAX,
        ensures
            final(self).wf(),
            final(self).is_dirty,
            final(self).same_settings(old(self)),
            forall|i: int|
                0 <= i < old(self).tiles@.len() ==> final(self).tiles@[i] == printed(
                    old(self).tiles@[i],
                    old(self).width,
                    old(self).height,
                    old(self).extra_clipping,
                    centered_x(half_i32(old(self).width as i32), text_len),
                    y as int,
                    glyphs@,
                    Some((fg, bg)),
                    i,
                ),
    {
        let x = (self.width as i32) / 2 - (text_len as i32) / 2;
        self.print_color(x, y, fg, bg, glyphs);
    }

    /// Prints glyphs centred on `x` at row `y`; `text_len` is the length in
    /// bytes of their text.
    pub fn print_centered_at(&mut self, x: i32, y: i32, text_len: usize, glyphs: &[u16])
        requires
            old(self).wf(),
            i32::MIN <= centered_x(x as int, text_len),
            centered_x(x as int, text_len) + glyphs@.len() <= i32::MAX,
        ensures
            final(self).wf(),
            final(self).is_dirty,
            final(self).same_settings(old(self)),
            forall|i: int|
                0 <= i < old(self).tiles@.len() ==> final(self).tiles@[i] == printed(
                    old(self).tiles@[i],
                    old(self).width,
                    old(self).height,
                    old(self).extra_clipping,
                    centered_x(x as int, text_len),
                    y as int,
                    glyphs@,
                    None,
                    i,
                ),
    {
        self.print(x - (text_len as i32) / 2, y, glyphs);
    }

    /// Prints glyphs in colour centred on `x` at row `y`; `text_len` is the
    /// length in bytes of their text.
    pub fn print_color_centered_at(&mut self, x: i32, y: i32, fg: C, bg: C, text_len: usize, glyphs: &[u16])
        requires
            old(self).wf(),
            i32::MIN <= centered_x(x as int, text_len),
            centered_x(x as int, text_len) + glyphs@.len() <= i32::MAX,
        ensures
            final(self).wf(),
            final(self).is_dirty,
            final(self).same_settings(old(self)),
            forall|i: int|
                0 <= i < old(self).tiles@.len() ==> final(self).tiles@[i] == printed(
                    old(self).tiles@[i],
                    old(self).width,
                    old(self).height,
                    old(self).extra_clipping,
                    centered_x(x as int, text_len),
                    y as int,
                    glyphs@,
                    Some((fg, bg)),
                    i,
                ),
    {
        self.print_color(x - (text_len as i32) / 2, y, fg, bg, glyphs);
    }

    /// Prints glyphs so that they end just before `x`: they start at
    /// `x - text_len`, `text_len` being the length in bytes of their text.
    pub fn print_right(&mut self, x: i32, y: i32, text_len: usize, glyphs: &[u16])
        requires
            old(self).wf(),
            i32::MIN <= x - (text_len as i32),
            x - (text_len as i32) + glyphs@.len() <= i32::MAX,
        ensures
            final(self).wf(),
            final(self).is_dirty,
            final(self).same_settings(old(self)),
            forall|i: int|
                0 <= i < old(self).tiles@.len() ==> final(self).tiles@[i] == printed(
                    old(self).tiles@[i],
                    old(self).width,
                    old(self).height,
                    old(self).extra_clipping,
                    x - (text_len as i32),
                    y as int,
                    glyphs@,
                    None,
                    i,
                ),
    {
        let len = text_len as i32;
        self.print(x - len, y, glyphs);
    }

    /// Prints glyphs in colour so that they end just before `x`.
    pub fn print_color_right(&mut self, x: i32, y: i32, fg: C, bg: C, text_len: usize, glyphs: &[u16])
        requires
            old(self).wf(),
            i32::MIN <= x - (text_len as i32),
            x - (text_len as i32) + glyphs@.len() <= i32::MAX,
        ensures
            final(self).wf(),
            final(self).is_dirty,
            final(self).same_settings(old(self)),
            forall|i: int|
                0 <= i < old(self).tiles@.len() ==> final(self).tiles@[i] == printed(
                    old(self).tiles@[i],
                    old(self).width,
                    old(self).height,
                    old(self).extra_clipping,
                    x - (text_len as i32),
                    y as int,
                    glyphs@,
                    Some((fg, bg)),
                    i,
                ),
    {
        let len = text_len as i32;
        self.print_color(x - len, y, fg, bg, glyphs);
    }

    /// Prints runs of glyphs one after the other, each in its own
    /// foreground over `background` (the console's default background when
    /// none is given), aligned on `x` as a whole (see [`aligned_start`]).
    /// The console is marked dirty when any glyph is printed.
    pub fn printer(&mut self, x: i32, y: i32, spans: &Vec<(C, Vec<u16>)>, align: TextAlign, background: Option<C>)
        requires
            old(self).wf(),
            spans_len(spans_view(spans@)) <= i32::MAX,
            i32::MIN <= aligned_start(x as int, spans_len(spans_view(spans@)), align),
            aligned_start(x as int, spans_len(spans_view(spans@)), align) + spans_len(spans_view(spans@))
                <= i32::MAX,
        ensures
            final(self).wf(),
            final(self).same_settings(old(self)),
            final(self).is_dirty == (old(self).is_dirty || spans_len(spans_view(spans@)) > 0),
            forall|i: int|
                0 <= i < old(self).tiles@.len() ==> final(self).tiles@[i] == printed_spans(
                    old(self).tiles@[i],
                    old(self).width,
                    old(self).height,
                    old(self).extra_clipping,
                    aligned_start(x as int, spans_len(spans_view(spans@)), align),
                    y as int,
                    spans_view(spans@),
                    match background {
                        Some(b) => b,
                        None => old(self).default_bg,
                    },
                    i,
                ),
    {
        let bg = match background {
            Some(b) => b,
            None => self.default_bg,
        };
        let ghost s = spans_view(spans@);
        proof {
            assert(s.skip(0) =~= s);
            lemma_spans_len_nonneg(s);
        }
        let len = spans_length(spans);
        let start = aligned_x(x, len, align);
        let mut tx = start;
        let mut k: usize = 0;
        while k < spans.len()
            invariant
                self.wf(),
                self.same_settings(old(self)),
                self.is_dirty == (old(self).is_dirty || spans_len(s) - spans_len(s.skip(k as int)) > 0),
                s == spans_view(spans@),
                s.len() == spans@.len(),
                k <= spans@.len(),
                bg == (match background {
                    Some(b) => b,
                    None => old(self).default_bg,
                }),
                tx + spans_len(s.skip(k as int)) == start + spans_len(s),
                start + spans_len(s) <= i32::MAX,
                spans_len(s) <= i32::MAX,
                spans_len(s.skip(k as int)) >= 0,
                tx >= start,
                forall|i: int|
                    0 <= i < self.tiles@.len() ==> printed_spans(
                        self.tiles@[i],
                        self.width,
                        self.height,
                        self.extra_clipping,
                        tx as int,
                        y as int,
                        s.skip(k as int),
                        bg,
                        i,
                    ) == printed_spans(
                        old(self).tiles@[i],
                        old(self).width,
                        old(self).height,
                        old(self).extra_clipping,
                        start as int,
                        y as int,
                        s,
                        bg,
                        i,
                    ),
            decreases spans@.len() - k,
        {
            proof {
                lemma_spans_skip(s, k as int);
                assert(s[k as int].1 == spans@[k as int].1@);
            }
            let fg = spans[k].0;
            let glyphs = &spans[k].1;
            let n = glyphs.len();
            assert(n == s[k as int].1.len());
            assert(spans_len(s.skip(k as int)) == n + spans_len(s.skip(k + 1)));
            assert(tx + n <= i32::MAX);
            let step = n as i32;
            assert(step == n);
            let ghost before = self.tiles@;
            if n > 0 {
                self.print_color(tx, y, fg, bg, glyphs.as_slice());
            }
            proof {
                assert forall|i: int| 0 <= i < self.tiles@.len() implies self.tiles@[i] == printed(
                    before[i],
                    self.width,
                    self.height,
                    self.extra_clipping,
                    tx as int,
                    y as int,
                    s[k as int].1,
                    Some((fg, bg)),
                    i,
                ) by {}
            }
            tx = tx + step;
            k = k + 1;
        }
        proof {
            assert(s.skip(k as int) =~= Seq::<(C, Seq<u16>)>::empty());
        }
    }

    /// Sets the centre of scaling; the console must be redrawn.
    pub fn set_scale_center(&mut self, center_x: i32, center_y: i32)
        ensures
            final(self).is_dirty,
            final(self).scale_center == (center_x, center_y),
            final(self).tiles == old(self).tiles,
            final(self).width == old(self).width,
            final(self).height == old(self).height,
            final(self).extra_clipping == old(self).extra_clipping,
            final(self).translation == old(self).translation,
            final(self).needs_resize_internal == old(self).needs_resize_internal,
            final(self).default_fg == old(self).default_fg,
            final(self).default_bg == old(self).default_bg,
    {
        self.is_dirty = true;
        self.scale_center = (center_x, center_y);
    }

    /// Sets the clipping rectangle; `None` removes it.
    pub fn set_clipping(&mut self, clipping: Option<Rect>)
        ensures
            final(self).extra_clipping == clipping,
            final(self).tiles == old(self).tiles,
            final(self).is_dirty == old(self).is_dirty,
            final(self).width == old(self).width,
            final(self).height == old(self).height,
            final(self).scale_center == old(self).scale_center,
            final(self).translation == old(self).translation,
            final(self).needs_resize_internal == old(self).needs_resize_internal,
            final(self).default_fg == old(self).default_fg,
            final(self).default_bg == old(self).default_bg,
    {
        self.extra_clipping = clipping;
    }

    /// The clipping rectangle, if any.
    pub fn get_clipping(&self) -> (r: Option<Rect>)
        ensures
            r == self.extra_clipping,
    {
        self.extra_clipping
    }

    /// Sets how text is turned into glyphs.
    pub fn set_translation_mode(&mut self, mode: CharacterTranslationMode)
        ensures
            final(self).translation == mode,
            final(self).tiles == old(self).tiles,
            final(self).is_dirty == old(self).is_dirty,
            final(self).width == old(self).width,
            final(self).height == old(self).height,
            final(self).scale_center == old(self).scale_center,
            final(self).extra_clipping == old(self).extra_clipping,
            final(self).needs_resize_internal == old(self).needs_resize_internal,
            final(self).default_fg == old(self).default_fg,
            final(self).default_bg == old(self).default_bg,
    {
        self.translation = mode;
    }

    /// Resizes the console to `width` by `height` characters. Cells that lie
    /// on both the old and the new grid keep their tiles; the others are
    /// blank (glyph 0) in the default colours. The renderer is told to
    /// resize.
    pub fn set_char_size(&mut self, width: u32, height: u32)
        requires
            old(self).wf(),
            grid_ok(width, height),
        ensures
            final(self).wf(),
            final(self).width == width,
            final(self).height == height,
            final(self).needs_resize_internal,
            final(self).is_dirty == old(self).is_dirty,
            final(self).scale_center == old(self).scale_center,
            final(self).extra_clipping == old(self).extra_clipping,
            final(self).translation == old(self).translation,
            final(self).default_fg == old(self).default_fg,
            final(self).default_bg == old(self).default_bg,
            forall|i: int|
                0 <= i < width * height ==> final(self).tiles@[i] == resized_tile(
                    old(self).tiles@,
                    old(self).width,
                    old(self).height,
                    width,
                    height,
                    Tile { glyph: 0u16, fg: old(self).default_fg, bg: old(self).default_bg },
                    i,
                ),
    {
        let blank = Tile { glyph: 0, fg: self.default_fg, bg: self.default_bg };
        let num_tiles = (width * height) as usize;
        let mut new_tiles = filled_tiles(num_tiles, blank);
        let ow = self.width;
        let oh = self.height;
        let max_y = if (oh as i32) < (height as i32) { oh as i32 } else { height as i32 };
        let max_x = if (ow as i32) < (width as i32) { ow as i32 } else { width as i32 };
        let ghost old_tiles = self.tiles@;
        proof {
            lemma_size_as_i32(ow);
            lemma_size_as_i32(oh);
            lemma_size_as_i32(width);
            lemma_size_as_i32(height);
            assert forall|i: int| 0 <= i < width * height implies new_tiles@[i] == (if row(width, height, i) < 0 {
                resized_tile(old_tiles, ow, oh, width, height, blank, i)
            } else {
                blank
            }) by {
                lemma_coords_index(width, height, i);
            }
        }
        let mut y: i32 = 0;
        while y < max_y
            invariant
                self.wf(),
                self.width == ow,
                self.height == oh,
                self.tiles@ == old_tiles,
                grid_ok(width, height),
                new_tiles@.len() == width * height,
                max_y == (if (oh as i32) < (height as i32) { oh as i32 } else { height as i32 }),
                max_x == (if (ow as i32) < (width as i32) { ow as i32 } else { width as i32 }),
                ow <= i32::MAX ==> (ow as i32) == ow,
                ow > i32::MAX ==> (ow as i32) < 0,
                oh <= i32::MAX ==> (oh as i32) == oh,
                oh > i32::MAX ==> (oh as i32) < 0,
                width <= i32::MAX ==> (width as i32) == width,
                width > i32::MAX ==> (width as i32) < 0,
                height <= i32::MAX ==> (height as i32) == height,
                height > i32::MAX ==> (height as i32) < 0,
                0 <= y,
                y <= max_y || y == 0,
                forall|i: int|
                    0 <= i < width * height ==> new_tiles@[i] == (if row(width, height, i) < y {
                        resized_tile(old_tiles, ow, oh, width, height, blank, i)
                    } else {
                        blank
                    }),
            decreases max_y - y,
        {
            let mut x: i32 = 0;
            proof {
                assert forall|i: int| 0 <= i < width * height implies new_tiles@[i] == (if row(width, height, i)
                    < y || (row(width, height, i) == y && col(width, i) < 0) {
                    resized_tile(old_tiles, ow, oh, width, height, blank, i)
                } else {
                    blank
                }) by {
                    lemma_coords_index(width, height, i);
                }
            }
            while x < max_x
                invariant
                    self.wf(),
                    self.width == ow,
                    self.height == oh,
                    self.tiles@ == old_tiles,
                    grid_ok(width, height),
                    new_tiles@.len() == width * height,
                    max_y == (if (oh as i32) < (height as i32) { oh as i32 } else { height as i32 }),
                    max_x == (if (ow as i32) < (width as i32) { ow as i32 } else { width as i32 }),
                    ow <= i32::MAX ==> (ow as i32) == ow,
                    ow > i32::MAX ==> (ow as i32) < 0,
                    oh <= i32::MAX ==> (oh as i32) == oh,
                    oh > i32::MAX ==> (oh as i32) < 0,
                    width <= i32::MAX ==> (width as i32) == width,
                    width > i32::MAX ==> (width as i32) < 0,
                    height <= i32::MAX ==> (height as i32) == height,
                    height > i32::MAX ==> (height as i32) < 0,
                    0 <= y < max_y,
                    0 <= x,
                    x <= max_x || x == 0,
                    forall|i: int|
                        0 <= i < width * height ==> new_tiles@[i] == (if row(width, height, i) < y || (row(
                            width,
                            height,
                            i,
                        ) == y && col(width, i) < x) {
                            resized_tile(old_tiles, ow, oh, width, height, blank, i)
                        } else {
                            blank
                        }),
                decreases max_x - x,
            {
                let idx = at(ow, oh, x, y);
                let new_idx = at(width, height, x, y);
                let t = self.tiles[idx];
                let ghost prev = new_tiles@;
                new_tiles.set(new_idx, t);
                proof {
                    assert forall|i: int| 0 <= i < width * height implies new_tiles@[i] == (if row(width, height, i)
                        < y || (row(width, height, i) == y && col(width, i) < x + 1) {
                        resized_tile(old_tiles, ow, oh, width, height, blank, i)
                    } else {
                        blank
                    }) by {
                        lemma_coords_index(width, height, i);
                    }
                }
                x = x + 1;
            }
            proof {
                assert forall|i: int| 0 <= i < width * height implies new_tiles@[i] == (if row(width, height, i)
                    < y + 1 {
                    resized_tile(old_tiles, ow, oh, width, height, blank, i)
                } else {
                    blank
                }) by {
                    lemma_coords_index(width, height, i);
                }
            }
            y = y + 1;
        }
        proof {
            assert forall|i: int| 0 <= i < width * height implies new_tiles@[i] == resized_tile(
                old_tiles,
                ow,
                oh,
                width,
                height,
                blank,
                i,
            ) by {
                lemma_coords_index(width, height, i);
            }
        }
        self.tiles = new_tiles;
        self.width = width;
        self.height = height;
        self.needs_resize_internal = true;
    }

    /// Clears the dirty flag.
    pub fn clear_dirty(&mut self)
        ensures
            !final(self).is_dirty,
            final(self).tiles == old(self).tiles,
            final(self).same_settings(old(self)),
    {
        self.is_dirty = false;
    }
}

} // verus!
