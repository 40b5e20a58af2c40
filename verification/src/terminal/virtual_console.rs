use vstd::prelude::*;
use crate::geometry::point::Point;
use crate::geometry::rect::Rect;
use crate::terminal::grid::{
    CharacterTranslationMode, TextAlign, Tile, glyphs_for, col, fill_all, fill_rect, filled, filled_tiles, grid_ok, in_bounds,
    index_of, lemma_coords_index, lemma_index_coords, lemma_size_as_i32, print_glyphs, printed, raw_at, raw_index,
    raw_index_ok, row, set_tile, set_tile_bg, try_at, visible,
};
use crate::terminal::simple_console::{SimpleConsole, centered_x, half_i32};
use crate::terminal::wrap::{wrap_text, wrapped_text};
use crate::terminal::spans::{
    aligned_start, aligned_x, lemma_spans_len_nonneg, lemma_spans_skip, printed_spans, spans_len, spans_length,
    spans_view,
};

verus! {

/// A virtual console: a dense grid of tiles of any size, stored bottom row
/// first, that is never drawn itself but copied in part onto other
/// consoles. Its colour type is `C`; `default_fg` and `default_bg` are the
/// colours a cleared tile takes.
pub struct VirtualConsole<C> {
    pub width: u32,
    pub height: u32,
    pub tiles: Vec<Tile<C>>,
    pub extra_clipping: Option<Rect>,
    pub translation: CharacterTranslationMode,
    pub default_fg: C,
    pub default_bg: C,
}

/// The source cell that destination cell `(x, y)` is copied from, when
/// `source` is shown in `dest`.
pub open spec fn source_of(source: Rect, dest: Rect, x: int, y: int) -> (int, int) {
    (x + source.x1 - dest.x1, y + source.y1 - dest.y1)
}

/// The column and row arithmetic of copying `source` into `dest` stays
/// within `i32`.
pub open spec fn sub_rect_ok(source: Rect, dest: Rect) -> bool {
    &&& forall|x: int|
        dest.x1 <= x < dest.x2 ==> i32::MIN <= #[trigger] (x + source.x1) <= i32::MAX && i32::MIN <= x
            + source.x1 - dest.x1 <= i32::MAX
    &&& forall|y: int|
        dest.y1 <= y < dest.y2 ==> i32::MIN <= #[trigger] (y + source.y1) <= i32::MAX && i32::MIN <= y
            + source.y1 - dest.y1 <= i32::MAX
}

/// The tile at index `i` of a `w` by `h` console built from `lines`: line
/// `y` is printed from the left of row `y`, over blank tiles (glyph 0) in
/// the default colours.
pub open spec fn line_tile<C>(lines: Seq<Seq<u16>>, w: u32, h: u32, fg: C, bg: C, i: int) -> Tile<C> {
    let x = col(w, i);
    let y = row(w, h, i);
    if visible(w, h, None, x, y) && x < lines[y].len() {
        Tile { glyph: lines[y][x], fg, bg }
    } else {
        Tile { glyph: 0, fg, bg }
    }
}

/// `glyphs` holds, line by line and character by character, glyphs that
/// the table `cp437` may give for the characters of `lines`.
pub open spec fn translated_lines<F: Fn(char) -> u16>(cp437: F, lines: Seq<Seq<char>>, glyphs: Seq<Seq<u16>>) -> bool {
    &&& glyphs.len() == lines.len()
    &&& forall|j: int| 0 <= j < glyphs.len() ==> (#[trigger] glyphs[j]).len() == lines[j].len()
    &&& forall|j: int, k: int|
        0 <= j < glyphs.len() && 0 <= k < glyphs[j].len() ==> cp437.ensures((lines[j][k],), #[trigger] glyphs[j][k])
}

impl<C: Copy> VirtualConsole<C> {
    /// One tile per cell, and cell indices fit in a `u32`.
    pub open spec fn wf(&self) -> bool {
        &&& grid_ok(self.width, self.height)
        &&& self.tiles@.len() == self.width * self.height
    }

    /// The other fields are as in `other`, apart from the tiles.
    pub open spec fn same_settings(&self, other: &Self) -> bool {
        &&& self.width == other.width
        &&& self.height == other.height
        &&& self.extra_clipping == other.extra_clipping
        &&& self.translation == other.translation
        &&& self.default_fg == other.default_fg
        &&& self.default_bg == other.default_bg
    }

    /// Whether `(x, y)` is on the console and inside its clipping rectangle.
    pub open spec fn visible_spec(&self, x: int, y: int) -> bool {
        visible(self.width, self.height, self.extra_clipping, x, y)
    }

    /// Whether destination cell `(x, y)` receives a tile when `source` is
    /// shown in `dest`: its source cell is visible here and holds a glyph
    /// other than 0.
    pub open spec fn copies(&self, source: Rect, dest: Rect, x: int, y: int) -> bool {
        let s = source_of(source, dest, x, y);
        &&& dest.x1 <= x < dest.x2
        &&& dest.y1 <= y < dest.y2
        &&& self.visible_spec(s.0, s.1)
        &&& self.tiles@[index_of(self.width, self.height, s.0, s.1)].glyph > 0
    }

    /// The tile cell `(x, y)` of a `tw` by `th` console holds after
    /// `source` is shown in `dest` over `old_tile`: the source tile when the
    /// cell receives one and is visible there with `dest` as its clipping.
    pub open spec fn shown_tile(&self, source: Rect, dest: Rect, tw: u32, th: u32, old_tile: Tile<C>, x: int, y: int) -> Tile<C> {
        let s = source_of(source, dest, x, y);
        if self.copies(source, dest, x, y) && visible(tw, th, Some(dest), x, y) {
            self.tiles@[index_of(self.width, self.height, s.0, s.1)]
        } else {
            old_tile
        }
    }

    /// Some destination cell before `(x, y)`, in row-by-row order,
    /// receives a tile.
    pub open spec fn copies_before(&self, source: Rect, dest: Rect, x: int, y: int) -> bool {
        exists|px: int, py: int| (py < y || (py == y && px < x)) && #[trigger] self.copies(source, dest, px, py)
    }

    /// Some destination cell receives a tile.
    pub open spec fn copies_any(&self, source: Rect, dest: Rect) -> bool {
        exists|px: int, py: int| #[trigger] self.copies(source, dest, px, py)
    }

    /// Creates a virtual console of `dimensions.x` by `dimensions.y` blank
    /// tiles (glyph 0) in the default colours.
    pub fn new(dimensions: Point, default_fg: C, default_bg: C) -> (c: VirtualConsole<C>)
        requires
            0 <= dimensions.x,
            0 <= dimensions.y,
            dimensions.x * dimensions.y <= i32::MAX,
        ensures
            c.wf(),
            c.width == dimensions.x,
            c.height == dimensions.y,
            c.tiles@ == Seq::new(
                (dimensions.x * dimensions.y) as nat,
                |i: int| Tile { glyph: 0u16, fg: default_fg, bg: default_bg },
            ),
            c.extra_clipping is None,
            c.translation == CharacterTranslationMode::Codepage437,
            c.default_fg == default_fg,
            c.default_bg == default_bg,
    {
        let num_tiles = (dimensions.x * dimensions.y) as usize;
        let tiles = filled_tiles(num_tiles, Tile { glyph: 0, fg: default_fg, bg: default_bg });
        VirtualConsole {
            width: dimensions.x as u32,
            height: dimensions.y as u32,
            tiles,
            extra_clipping: None,
            translation: CharacterTranslationMode::Codepage437,
            default_fg,
            default_bg,
        }
    }

    /// Creates a virtual console holding `text`: the text cut into lines at
    /// each newline and wherever a line reaches `width` bytes (see
    /// [`wrap_text`]), each line turned into code page 437 glyphs by the
    /// table `cp437` and printed from the left of its row.
    pub fn from_text<F: Fn(char) -> u16>(text: &str, width: usize, cp437: &F, default_fg: C, default_bg: C) -> (c:
        VirtualConsole<C>)
        requires
            forall|ch: char| cp437.requires((ch,)),
            wrapped_text(text@, width as nat).len() <= u32::MAX,
            width * wrapped_text(text@, width as nat).len() <= u32::MAX,
            forall|j: int|
                0 <= j < wrapped_text(text@, width as nat).len() ==> #[trigger] wrapped_text(
                    text@,
                    width as nat,
                )[j].len() <= i32::MAX,
        ensures
            c.wf(),
            c.width == width as u32,
            c.height == wrapped_text(text@, width as nat).len(),
            exists|glyphs: Seq<Seq<u16>>|
                {
                    &&& #[trigger] translated_lines(*cp437, wrapped_text(text@, width as nat), glyphs)
                    &&& forall|i: int|
                        0 <= i < c.tiles@.len() ==> c.tiles@[i] == line_tile(
                            glyphs,
                            c.width,
                            c.height,
                            default_fg,
                            default_bg,
                            i,
                        )
                },
            c.extra_clipping is None,
            c.translation == CharacterTranslationMode::Codepage437,
            c.default_fg == default_fg,
            c.default_bg == default_bg,
    {
        let lines = wrap_text(text, width);
        let ghost wt = wrapped_text(text@, width as nat);
        proof {
            assert(lines@.len() == wt.len());
        }
        let mut glyph_lines: Vec<Vec<u16>> = Vec::new();
        let mut j: usize = 0;
        while j < lines.len()
            invariant
                lines@.map_values(|l: Vec<char>| l@) == wt,
                wt == wrapped_text(text@, width as nat),
                j <= lines@.len(),
                glyph_lines@.len() == j,
                forall|ch: char| cp437.requires((ch,)),
                forall|m: int| 0 <= m < j ==> (#[trigger] glyph_lines@[m])@.len() == wt[m].len(),
                forall|m: int, k: int|
                    0 <= m < j && 0 <= k < glyph_lines@[m]@.len() ==> cp437.ensures(
                        (wt[m][k],),
                        #[trigger] glyph_lines@[m]@[k],
                    ),
            decreases lines@.len() - j,
        {
            let g = glyphs_for(CharacterTranslationMode::Codepage437, &lines[j], cp437);
            proof {
                assert(lines@[j as int]@ == wt[j as int]);
            }
            glyph_lines.push(g);
            j = j + 1;
        }
        let ghost glyphs = glyph_lines@.map_values(|l: Vec<u16>| l@);
        proof {
            assert forall|m: int| 0 <= m < glyph_lines@.len() implies #[trigger] glyph_lines@[m]@.len()
                <= i32::MAX by {
                assert(glyph_lines@[m]@.len() == wt[m].len());
            }
        }
        let c = Self::from_lines(&glyph_lines, width, default_fg, default_bg);
        proof {
            assert(glyphs.len() == wt.len());
            assert forall|m: int, k: int|
                0 <= m < glyphs.len() && 0 <= k < glyphs[m].len() implies cp437.ensures(
                (wt[m][k],),
                #[trigger] glyphs[m][k],
            ) by {
                assert(glyphs[m] == glyph_lines@[m]@);
            }
            assert(forall|m: int| 0 <= m < glyphs.len() ==> (#[trigger] glyphs[m]).len() == wt[m].len());
            assert(translated_lines(*cp437, wt, glyphs));
        }
        c
    }

    /// Creates a virtual console `width` wide with one row per line, and
    /// prints each line from the left of its row (line 0 on row 0) over
    /// blank tiles.
    pub fn from_lines(lines: &Vec<Vec<u16>>, width: usize, default_fg: C, default_bg: C) -> (c: VirtualConsole<C>)
        requires
            lines@.len() <= u32::MAX,
            width * lines@.len() <= u32::MAX,
            forall|j: int| 0 <= j < lines@.len() ==> #[trigger] lines@[j]@.len() <= i32::MAX,
        ensures
            c.wf(),
            c.width == width as u32,
            c.height == lines@.len() as u32,
            c.tiles@.len() == width * lines@.len(),
            forall|i: int|
                0 <= i < c.tiles@.len() ==> c.tiles@[i] == line_tile(
                    lines@.map_values(|l: Vec<u16>| l@),
                    c.width,
                    c.height,
                    default_fg,
                    default_bg,
                    i,
                ),
            c.extra_clipping is None,
            c.translation == CharacterTranslationMode::Codepage437,
            c.default_fg == default_fg,
            c.default_bg == default_bg,
    {
        let ghost text = lines@.map_values(|l: Vec<u16>| l@);
        let num_tiles = width * lines.len();
        let blank = Tile { glyph: 0, fg: default_fg, bg: default_bg };
        let tiles = filled_tiles(num_tiles, blank);
        let mut console = VirtualConsole {
            width: width as u32,
            height: lines.len() as u32,
            tiles,
            extra_clipping: None,
            translation: CharacterTranslationMode::Codepage437,
            default_fg,
            default_bg,
        };
        let ghost w = console.width;
        let ghost h = console.height;
        proof {
            if lines@.len() > 0 {
                assert(width <= width * lines@.len()) by (nonlinear_arith)
                    requires lines@.len() >= 1;
            }
            if lines@.len() == 0 {
                assert(w * h == 0);
            }
            assert(w * h == width * lines@.len());
            lemma_size_as_i32(h);
        }
        let mut j: usize = 0;
        while j < lines.len()
            invariant
                console.wf(),
                console.width == w,
                console.height == h,
                w == width as u32,
                h == lines@.len(),
                w * h == width * lines@.len(),
                h <= i32::MAX ==> (h as i32) == h,
                h > i32::MAX ==> (h as i32) < 0,
                text == lines@.map_values(|l: Vec<u16>| l@),
                blank == (Tile { glyph: 0u16, fg: default_fg, bg: default_bg }),
                forall|k: int| 0 <= k < lines@.len() ==> #[trigger] lines@[k]@.len() <= i32::MAX,
                console.extra_clipping is None,
                console.translation == CharacterTranslationMode::Codepage437,
                console.default_fg == default_fg,
                console.default_bg == default_bg,
                j <= lines@.len(),
                forall|i: int|
                    0 <= i < console.tiles@.len() ==> console.tiles@[i] == (if row(w, h, i) < j {
                        line_tile(text, w, h, default_fg, default_bg, i)
                    } else {
                        blank
                    }),
            decreases lines@.len() - j,
        {
            let ghost before = console.tiles@;
            assert(lines@[j as int]@.len() <= i32::MAX);
            let y = j as i32;
            proof {
                assert(j > 0x7fff_ffff ==> (j as i32) < 0) by (bit_vector)
                    requires j <= 0xffff_ffff;
            }
            console.print(0, y, lines[j].as_slice());
            proof {
                assert forall|i: int| 0 <= i < console.tiles@.len() implies console.tiles@[i] == (if row(w, h, i)
                    < j + 1 {
                    line_tile(text, w, h, default_fg, default_bg, i)
                } else {
                    blank
                }) by {
                    lemma_coords_index(w, h, i);
                    if row(w, h, i) == j {
                        assert(text[row(w, h, i)] == lines@[row(w, h, i)]@);
                        if j > i32::MAX {
                            assert(!visible(w, h, None, col(w, i), row(w, h, i)));
                        }
                    }
                }
            }
            j = j + 1;
        }
        proof {
            assert forall|i: int| 0 <= i < console.tiles@.len() implies console.tiles@[i] == line_tile(
                text,
                w,
                h,
                default_fg,
                default_bg,
                i,
            ) by {
                lemma_coords_index(w, h, i);
            }
        }
        console
    }

    /// The console's size in characters.
    pub fn get_char_size(&self) -> (s: (u32, u32))
        ensures
            s == (self.width, self.height),
    {
        (self.width, self.height)
    }

    /// A virtual console is never drawn, so a window resize changes nothing.
    pub fn resize_pixels(&mut self, _width: u32, _height: u32)
        ensures
            *final(self) == *old(self),
    {
    }

    /// The storage index of `(x, y)`, rows counted from the bottom, with
    /// both coordinates read as `u32`.
    pub fn at(&self, x: i32, y: i32) -> (idx: usize)
        requires
            raw_index_ok(self.width, self.height, x as int, y as int),
        ensures
            idx == raw_index(self.width, self.height, x as int, y as int),
    {
        raw_at(self.width, self.height, x, y)
    }

    /// Whether `(x, y)` is on the console and inside its clipping rectangle.
    pub fn in_bounds(&self, x: i32, y: i32) -> (b: bool)
        ensures
            b == self.visible_spec(x as int, y as int),
    {
        in_bounds(self.width, self.height, self.extra_clipping, x, y)
    }

    /// The storage index of `(x, y)` when it is visible.
    pub fn try_at(&self, x: i32, y: i32) -> (r: Option<usize>)
        requires
            self.wf(),
        ensures
            r is Some <==> self.visible_spec(x as int, y as int),
            r matches Some(idx) ==> idx == index_of(self.width, self.height, x as int, y as int) && idx
                < self.tiles@.len(),
    {
        try_at(self.width, self.height, self.extra_clipping, x, y)
    }

    /// Clears the console: every tile becomes a space in the default colours.
    pub fn cls(&mut self)
        ensures
            final(self).same_settings(old(self)),
            final(self).tiles@ == Seq::new(
                old(self).tiles@.len(),
                |i: int| Tile { glyph: 32u16, fg: old(self).default_fg, bg: old(self).default_bg },
            ),
    {
        let blank = Tile { glyph: 32, fg: self.default_fg, bg: self.default_bg };
        fill_all(&mut self.tiles, blank);
    }

    /// Clears the console with a background colour: every tile becomes a
    /// space in the default foreground over `background`.
    pub fn cls_bg(&mut self, background: C)
        ensures
            final(self).same_settings(old(self)),
            final(self).tiles@ == Seq::new(
                old(self).tiles@.len(),
                |i: int| Tile { glyph: 32u16, fg: old(self).default_fg, bg: background },
            ),
    {
        let blank = Tile { glyph: 32, fg: self.default_fg, bg: background };
        fill_all(&mut self.tiles, blank);
    }

    /// Prints glyphs from `(x, y)` rightwards, keeping each tile's colours;
    /// cells that are not visible are skipped.
    pub fn print(&mut self, x: i32, y: i32, glyphs: &[u16])
        requires
            old(self).wf(),
            x + glyphs@.len() <= i32::MAX,
        ensures
            final(self).wf(),
            final(self).same_settings(old(self)),
            forall|i: int|
                0 <= i < old(self).tiles@.len() ==> final(self).tiles@[i] == printed(
                    old(self).tiles@[i],
                    old(self).width,
                    old(self).height,
                    old(self).extra_clipping,
                    x as int,
                    y as int,
                    glyphs@,
                    None,
                    i,
                ),
    {
        print_glyphs(&mut self.tiles, self.width, self.height, self.extra_clipping, x, y, glyphs, None);
    }

    /// Prints glyphs from `(x, y)` rightwards in the given colours; cells
    /// that are not visible are skipped.
    pub fn print_color(&mut self, x: i32, y: i32, fg: C, bg: C, glyphs: &[u16])
        requires
            old(self).wf(),
            x + glyphs@.len() <= i32::MAX,
        ensures
            final(self).wf(),
            final(self).same_settings(old(self)),
            forall|i: int|
                0 <= i < old(self).tiles@.len() ==> final(self).tiles@[i] == printed(
                    old(self).tiles@[i],
                    old(self).width,
                    old(self).height,
                    old(self).extra_clipping,
                    x as int,
                    y as int,
                    glyphs@,
                    Some((fg, bg)),
                    i,
                ),
    {
        print_glyphs(&mut self.tiles, self.width, self.height, self.extra_clipping, x, y, glyphs, Some((fg, bg)));
    }

    /// Sets a single cell, when it is visible.
    pub fn set(&mut self, x: i32, y: i32, fg: C, bg: C, glyph: u16)
        requires
            old(self).wf(),
        ensures
            final(self).wf(),
            final(self).same_settings(old(self)),
            old(self).visible_spec(x as int, y as int) ==> final(self).tiles@ == old(self).tiles@.update(
                index_of(old(self).width, old(self).height, x as int, y as int),
                Tile { glyph, fg, bg },
            ),
            !old(self).visible_spec(x as int, y as int) ==> final(self).tiles@ == old(self).tiles@,
    {
        let _ = set_tile(&mut self.tiles, self.width, self.height, self.extra_clipping, x, y, Tile { glyph, fg, bg });
    }

    /// Sets a single cell's background, when it is visible.
    pub fn set_bg(&mut self, x: i32, y: i32, bg: C)
        requires
            old(self).wf(),
        ensures
            final(self).wf(),
            final(self).same_settings(old(self)),
            old(self).visible_spec(x as int, y as int) ==> final(self).tiles@ == old(self).tiles@.update(
                index_of(old(self).width, old(self).height, x as int, y as int),
                Tile { bg, ..old(self).tiles@[index_of(old(self).width, old(self).height, x as int, y as int)] },
            ),
            !old(self).visible_spec(x as int, y as int) ==> final(self).tiles@ == old(self).tiles@,
    {
        proof {
            if self.visible_spec(x as int, y as int) {
                lemma_index_coords(self.width, self.height, x as int, y as int);
            }
        }
        set_tile_bg(&mut self.tiles, self.width, self.height, self.extra_clipping, x, y, bg);
    }

    /// Fills a rectangle: every visible cell in it takes the glyph and
    /// colours.
    pub fn fill_region(&mut self, target: Rect, glyph: u16, fg: C, bg: C)
        requires
            old(self).wf(),
        ensures
            final(self).wf(),
            final(self).same_settings(old(self)),
            forall|i: int|
                0 <= i < old(self).tiles@.len() ==> final(self).tiles@[i] == filled(
                    old(self).tiles@[i],
                    old(self).width,
                    old(self).height,
                    old(self).extra_clipping,
                    target,
                    Tile { glyph, fg, bg },
                    i,
                ),
    {
        fill_rect(&mut self.tiles, self.width, self.height, self.extra_clipping, target, Tile { glyph, fg, bg });
    }

    /// Prints glyphs centred on the console's width at row `y`; `text_len`
    /// is the length in bytes of the text the glyphs come from.
    pub fn print_centered(&mut self, y: i32, text_len: usize, glyphs: &[u16])
        requires
            old(self).wf(),
            centered_x(half_i32(old(self).width as i32), text_len) + glyphs@.len() <= i32::MAX,
        ensures
            final(self).wf(),
            final(self).same_settings(old(self)),
            forall|i: int|
                0 <= i < old(self).tiles@.len() ==> final(self).tiles@[i] == printed(
                    old(self).tiles@[i],
                    old(self).width,
                    old(self).height,
                    old(self).extra_clipping,
                    centered_x(half_i32(old(self).width as i32), text_len),
                    y as int,
                    glyphs@,
                    None,
                    i,
                ),
    {
        let x = (self.width as i32) / 2 - (text_len as i32) / 2;
        self.print(x, y, glyphs);
    }

    /// Prints glyphs in colour, centred on the console's width at row `y`;
    /// `text_len` is the length in bytes of their text.
    pub fn print_color_centered(&mut self, y: i32, fg: C, bg: C, text_len: usize, glyphs: &[u16])
        requires
            old(self).wf(),
            centered_x(half_i32(old(self).width as i32), text_len) + glyphs@.len() <= i32::MAX,
        ensures
            final(self).wf(),
            final(self).same_settings(old(self)),
            forall|i: int|
                0 <= i < old(self).tiles@.len() ==> final(self).tiles@[i] == printed(
                    old(self).tiles@[i],
                    old(self).width,
                    old(self).height,
                    old(self).extra_clipping,
                    centered_x(half_i32(old(self).width as i32), text_len),
                    y as int,
                    glyphs@,
                    Some((fg, bg)),
                    i,
                ),
    {
        let x = (self.width as i32) / 2 - (text_len as i32) / 2;
        self.print_color(x, y, fg, bg, glyphs);
    }

    /// Prints glyphs centred on `x` at row `y`; `text_len` is the length in
    /// bytes of their text.
    pub fn print_centered_at(&mut self, x: i32, y: i32, text_len: usize, glyphs: &[u16])
        requires
            old(self).wf(),
            i32::MIN <= centered_x(x as int, text_len),
            centered_x(x as int, text_len) + glyphs@.len() <= i32::MAX,
        ensures
            final(self).wf(),
            final(self).same_settings(old(self)),
            forall|i: int|
                0 <= i < old(self).tiles@.len() ==> final(self).tiles@[i] == printed(
                    old(self).tiles@[i],
                    old(self).width,
                    old(self).height,
                    old(self).extra_clipping,
                    centered_x(x as int, text_len),
                    y as int,
                    glyphs@,
                    None,
                    i,
                ),
    {
        self.print(x - (text_len as i32) / 2, y, glyphs);
    }

    /// Prints glyphs in colour centred on `x` at row `y`; `text_len` is the
    /// length in bytes of their text.
    pub fn print_color_centered_at(&mut self, x: i32, y: i32, fg: C, bg: C, text_len: usize, glyphs: &[u16])
        requires
            old(self).wf(),
            i32::MIN <= centered_x(x as int, text_len),
            centered_x(x as int, text_len) + glyphs@.len() <= i32::MAX,
        ensures
            final(self).wf(),
            final(self).same_settings(old(self)),
            forall|i: int|
                0 <= i < old(self).tiles@.len() ==> final(self).tiles@[i] == printed(
                    old(self).tiles@[i],
                    old(self).width,
                    old(self).height,
                    old(self).extra_clipping,
                    centered_x(x as int, text_len),
                    y as int,
                    glyphs@,
                    Some((fg, bg)),
                    i,
                ),
    {
        self.print_color(x - (text_len as i32) / 2, y, fg, bg, glyphs);
    }

    /// Prints glyphs so that they end just before `x`: they start at
    /// `x - text_len`, `text_len` being the length in bytes of their text.
    pub fn print_right(&mut self, x: i32, y: i32, text_len: usize, glyphs: &[u16])
        requires
            old(self).wf(),
            i32::MIN <= x - (text_len as i32),
            x - (text_len as i32) + glyphs@.len() <= i32::MAX,
        ensures
            final(self).wf(),
            final(self).same_settings(old(self)),
            forall|i: int|
                0 <= i < old(self).tiles@.len() ==> final(self).tiles@[i] == printed(
                    old(self).tiles@[i],
                    old(self).width,
                    old(self).height,
                    old(self).extra_clipping,
                    x - (text_len as i32),
                    y as int,
                    glyphs@,
                    None,
                    i,
                ),
    {
        let len = text_len as i32;
        self.print(x - len, y, glyphs);
    }

    /// Prints glyphs in colour so that they end just before `x`.
    pub fn print_color_right(&mut self, x: i32, y: i32, fg: C, bg: C, text_len: usize, glyphs: &[u16])
        requires
            old(self).wf(),
            i32::MIN <= x - (text_len as i32),
            x - (text_len as i32) + glyphs@.len() <= i32::MAX,
        ensures
            final(self).wf(),
            final(self).same_settings(old(self)),
            forall|i: int|
                0 <= i < old(self).tiles@.len() ==> final(self).tiles@[i] == printed(
                    old(self).tiles@[i],
                    old(self).width,
                    old(self).height,
                    old(self).extra_clipping,
                    x - (text_len as i32),
                    y as int,
                    glyphs@,
                    Some((fg, bg)),
                    i,
                ),
    {
        let len = text_len as i32;
        self.print_color(x - len, y, fg, bg, glyphs);
    }

    /// Prints runs of glyphs one after the other, each in its own
    /// foreground over `background` (the console's default background when
    /// none is given), aligned on `x` as a whole (see [`aligned_start`]).
    pub fn printer(&mut self, x: i32, y: i32, spans: &Vec<(C, Vec<u16>)>, align: TextAlign, background: Option<C>)
        requires
            old(self).wf(),
            spans_len(spans_view(spans@)) <= i32::MAX,
            i32::MIN <= aligned_start(x as int, spans_len(spans_view(spans@)), align),
            aligned_start(x as int, spans_len(spans_view(spans@)), align) + spans_len(spans_view(spans@))
                <= i32::MAX,
        ensures
            final(self).wf(),
            final(self).same_settings(old(self)),
            forall|i: int|
                0 <= i < old(self).tiles@.len() ==> final(self).tiles@[i] == printed_spans(
                    old(self).tiles@[i],
                    old(self).width,
                    old(self).height,
                    old(self).extra_clipping,
                    aligned_start(x as int, spans_len(spans_view(spans@)), align),
                    y as int,
                    spans_view(spans@),
                    match background {
                        Some(b) => b,
                        None => old(self).default_bg,
                    },
                    i,
                ),
    {
        let bg = match background {
            Some(b) => b,
            None => self.default_bg,
        };
        let ghost s = spans_view(spans@);
        proof {
            assert(s.skip(0) =~= s);
            lemma_spans_len_nonneg(s);
        }
        let len = spans_length(spans);
        let start = aligned_x(x, len, align);
        let mut tx = start;
        let mut k: usize = 0;
        while k < spans.len()
            invariant
                self.wf(),
                self.same_settings(old(self)),
                s == spans_view(spans@),
                s.len() == spans@.len(),
                k <= spans@.len(),
                bg == (match background {
                    Some(b) => b,
                    None => old(self).default_bg,
                }),
                tx + spans_len(s.skip(k as int)) == start + spans_len(s),
                start + spans_len(s) <= i32::MAX,
                spans_len(s) <= i32::MAX,
                spans_len(s.skip(k as int)) >= 0,
                tx >= start,
                forall|i: int|
                    0 <= i < self.tiles@.len() ==> printed_spans(
                        self.tiles@[i],
                        self.width,
                        self.height,
                        self.extra_clipping,
                        tx as int,
                        y as int,
                        s.skip(k as int),
                        bg,
                        i,
                    ) == printed_spans(
                        old(self).tiles@[i],
                        old(self).width,
                        old(self).height,
                        old(self).extra_clipping,
                        start as int,
                        y as int,
                        s,
                        bg,
                        i,
                    ),
            decreases spans@.len() - k,
        {
            proof {
                lemma_spans_skip(s, k as int);
                assert(s[k as int].1 == spans@[k as int].1@);
            }
            let fg = spans[k].0;
            let glyphs = &spans[k].1;
            let n = glyphs.len();
            assert(n == s[k as int].1.len());
            assert(spans_len(s.skip(k as int)) == n + spans_len(s.skip(k + 1)));
            assert(tx + n <= i32::MAX);
            let step = n as i32;
            assert(step == n);
            let ghost before = self.tiles@;
            if n > 0 {
                self.print_color(tx, y, fg, bg, glyphs.as_slice());
            }
            proof {
                assert forall|i: int| 0 <= i < self.tiles@.len() implies self.tiles@[i] == printed(
                    before[i],
                    self.width,
                    self.height,
                    self.extra_clipping,
                    tx as int,
                    y as int,
                    s[k as int].1,
                    Some((fg, bg)),
                    i,
                ) by {}
            }
            tx = tx + step;
            k = k + 1;
        }
        proof {
            assert(s.skip(k as int) =~= Seq::<(C, Seq<u16>)>::empty());
        }
    }

    /// Shows the `source` part of this console in the `dest` part of
    /// `target`: each destination cell whose source cell is visible here
    /// and holds a glyph other than 0 takes that tile, where it lies on
    /// `target`. The target's clipping is set to `dest` while drawing and
    /// removed afterwards.
    pub fn print_sub_rect(&self, source: Rect, dest: Rect, target: &mut SimpleConsole<C>)
        requires
            self.wf(),
            old(target).wf(),
            sub_rect_ok(source, dest),
        ensures
            final(target).wf(),
            final(target).extra_clipping is None,
            final(target).width == old(target).width,
            final(target).height == old(target).height,
            final(target).scale_center == old(target).scale_center,
            final(target).translation == old(target).translation,
            final(target).needs_resize_internal == old(target).needs_resize_internal,
            final(target).default_fg == old(target).default_fg,
            final(target).default_bg == old(target).default_bg,
            final(target).is_dirty == (old(target).is_dirty || self.copies_any(source, dest)),
            forall|i: int|
                0 <= i < old(target).tiles@.len() ==> final(target).tiles@[i] == self.shown_tile(
                    source,
                    dest,
                    old(target).width,
                    old(target).height,
                    old(target).tiles@[i],
                    col(old(target).width, i),
                    row(old(target).width, old(target).height, i),
                ),
    {
        let ghost old_tiles = target.tiles@;
        let ghost old_dirty = target.is_dirty;
        let ghost tw = target.width;
        let ghost th = target.height;
        target.set_clipping(Some(dest));
        proof {
            if self.copies_before(source, dest, dest.x1 as int, dest.y1 as int) {
                let (px, py) = choose|px: int, py: int|
                    (py < dest.y1 || (py == dest.y1 && px < dest.x1)) && #[trigger] self.copies(source, dest, px, py);
            }
        }
        let mut y = dest.y1;
        while y < dest.y2
            invariant
                self.wf(),
                target.wf(),
                sub_rect_ok(source, dest),
                target.extra_clipping == Some(dest),
                target.width == tw,
                target.height == th,
                target.scale_center == old(target).scale_center,
                target.translation == old(target).translation,
                target.needs_resize_internal == old(target).needs_resize_internal,
                target.default_fg == old(target).default_fg,
                target.default_bg == old(target).default_bg,
                old_tiles.len() == tw * th,
                dest.y1 <= y,
                y <= dest.y2 || y == dest.y1,
                target.is_dirty == (old_dirty || self.copies_before(source, dest, dest.x1 as int, y as int)),
                forall|i: int|
                    0 <= i < old_tiles.len() ==> target.tiles@[i] == (if row(tw, th, i) < y {
                        self.shown_tile(source, dest, tw, th, old_tiles[i], col(tw, i), row(tw, th, i))
                    } else {
                        old_tiles[i]
                    }),
            decreases dest.y2 - y,
        {
            let source_y = y + source.y1 - dest.y1;
            let mut x = dest.x1;
            while x < dest.x2
                invariant
                    self.wf(),
                    target.wf(),
                    sub_rect_ok(source, dest),
                    target.extra_clipping == Some(dest),
                    target.width == tw,
                    target.height == th,
                    target.scale_center == old(target).scale_center,
                    target.translation == old(target).translation,
                    target.needs_resize_internal == old(target).needs_resize_internal,
                    target.default_fg == old(target).default_fg,
                    target.default_bg == old(target).default_bg,
                    old_tiles.len() == tw * th,
                    dest.y1 <= y < dest.y2,
                    source_y == y + source.y1 - dest.y1,
                    dest.x1 <= x,
                    x <= dest.x2 || x == dest.x1,
                    target.is_dirty == (old_dirty || self.copies_before(source, dest, x as int, y as int)),
                    forall|i: int|
                        0 <= i < old_tiles.len() ==> target.tiles@[i] == (if row(tw, th, i) < y || (row(tw, th, i)
                            == y && col(tw, i) < x) {
                            self.shown_tile(source, dest, tw, th, old_tiles[i], col(tw, i), row(tw, th, i))
                        } else {
                            old_tiles[i]
                        }),
                decreases dest.x2 - x,
            {
                let source_x = x + source.x1 - dest.x1;
                let ghost before = target.tiles@;
                let ghost dirty_before = target.is_dirty;
                let mut hit = false;
                if let Some(idx) = self.try_at(source_x, source_y) {
                    let t = self.tiles[idx];
                    if t.glyph > 0 {
                        target.set(x, y, t.fg, t.bg, t.glyph);
                        hit = true;
                    }
                }
                proof {
                    assert(hit == self.copies(source, dest, x as int, y as int));
                    if hit {
                        assert((y < y || (y == y && x < x + 1)) && self.copies(source, dest, x as int, y as int));
                    }
                    assert(self.copies_before(source, dest, x + 1, y as int) == (self.copies_before(
                        source,
                        dest,
                        x as int,
                        y as int,
                    ) || hit)) by {
                        if self.copies_before(source, dest, x + 1, y as int) && !hit {
                            let (px, py) = choose|px: int, py: int|
                                (py < y || (py == y && px < x + 1)) && #[trigger] self.copies(source, dest, px, py);
                            assert((py < y || (py == y && px < x)) && self.copies(source, dest, px, py));
                        }
                        if self.copies_before(source, dest, x as int, y as int) {
                            let (px, py) = choose|px: int, py: int|
                                (py < y || (py == y && px < x)) && #[trigger] self.copies(source, dest, px, py);
                            assert((py < y || (py == y && px < x + 1)) && self.copies(source, dest, px, py));
                        }
                    }
                    assert forall|i: int| 0 <= i < old_tiles.len() implies target.tiles@[i] == (if row(tw, th, i)
                        < y || (row(tw, th, i) == y && col(tw, i) < x + 1) {
                        self.shown_tile(source, dest, tw, th, old_tiles[i], col(tw, i), row(tw, th, i))
                    } else {
                        old_tiles[i]
                    }) by {
                        lemma_coords_index(tw, th, i);
                        if hit && visible(tw, th, Some(dest), x as int, y as int) {
                            lemma_index_coords(tw, th, x as int, y as int);
                        }
                    }
                }
                x = x + 1;
            }
            proof {
                assert(self.copies_before(source, dest, x as int, y as int) == self.copies_before(
                    source,
                    dest,
                    dest.x1 as int,
                    y + 1,
                )) by {
                    if self.copies_before(source, dest, x as int, y as int) {
                        let (px, py) = choose|px: int, py: int|
                            (py < y || (py == y && px < x)) && #[trigger] self.copies(source, dest, px, py);
                        assert((py < y + 1 || (py == y + 1 && px < dest.x1)) && self.copies(source, dest, px, py));
                    }
                    if self.copies_before(source, dest, dest.x1 as int, y + 1) {
                        let (px, py) = choose|px: int, py: int|
                            (py < y + 1 || (py == y + 1 && px < dest.x1)) && #[trigger] self.copies(
                                source,
                                dest,
                                px,
                                py,
                            );
                        assert((py < y || (py == y && px < x)) && self.copies(source, dest, px, py));
                    }
                }
            }
            y = y + 1;
        }
        proof {
            assert(self.copies_before(source, dest, dest.x1 as int, y as int) == self.copies_any(source, dest)) by {
                if self.copies_any(source, dest) {
                    let (px, py) = choose|px: int, py: int| #[trigger] self.copies(source, dest, px, py);
                    assert((py < y || (py == y && px < dest.x1)) && self.copies(source, dest, px, py));
                }
            }
        }
        target.set_clipping(None);
    }

    /// Sets the clipping rectangle; `None` removes it.
    pub fn set_clipping(&mut self, clipping: Option<Rect>)
        ensures
            final(self).extra_clipping == clipping,
            final(self).tiles == old(self).tiles,
            final(self).width == old(self).width,
            final(self).height == old(self).height,
            final(self).translation == old(self).translation,
            final(self).default_fg == old(self).default_fg,
            final(self).default_bg == old(self).default_bg,
    {
        self.extra_clipping = clipping;
    }

    /// The clipping rectangle, if any.
    pub fn get_clipping(&self) -> (r: Option<Rect>)
        ensures
            r == self.extra_clipping,
    {
        self.extra_clipping
    }

    /// Sets how text is turned into glyphs.
    pub fn set_translation_mode(&mut self, mode: CharacterTranslationMode)
        ensures
            final(self).translation == mode,
            final(self).tiles == old(self).tiles,
            final(self).width == old(self).width,
            final(self).height == old(self).height,
            final(self).extra_clipping == old(self).extra_clipping,
            final(self).default_fg == old(self).default_fg,
            final(self).default_bg == old(self).default_bg,
    {
        self.translation = mode;
    }

    /// A virtual console has no dirty flag: nothing changes.
    pub fn clear_dirty(&mut self)
        ensures
            *final(self) == *old(self),
    {
    }
}

} // verus!
