use vstd::prelude::*;
use crate::geometry::point::Point;
use crate::geometry::rect::Rect;

verus! {

/// One cell of a console: a glyph and its colours.
#[derive(Clone, Copy, PartialEq, Debug)]
pub struct Tile<C> {
    pub glyph: u16,
    pub fg: C,
    pub bg: C,
}

/// How text is turned into glyphs.
#[derive(Debug, PartialEq, Eq, Copy, Clone, Structural)]
pub enum CharacterTranslationMode {
    Codepage437,
    Unicode,
}

/// The glyph of a character in Unicode mode: its code point cut to 16
/// bits.
pub open spec fn unicode_glyph(c: char) -> u16 {
    (c as u32) as u16
}

/// The glyphs for `text`: in Unicode mode each character's code point cut
/// to 16 bits, in code page 437 mode what the table `cp437` gives for it.
pub fn glyphs_for<F: Fn(char) -> u16>(mode: CharacterTranslationMode, text: &Vec<char>, cp437: &F) -> (g: Vec<u16>)
    requires
        forall|c: char| cp437.requires((c,)),
    ensures
        g@.len() == text@.len(),
        forall|i: int|
            0 <= i < text@.len() ==> match mode {
                CharacterTranslationMode::Unicode => g@[i] == unicode_glyph(text@[i]),
                CharacterTranslationMode::Codepage437 => cp437.ensures((text@[i],), #[trigger] g@[i]),
            },
{
    let mut g: Vec<u16> = Vec::new();
    let mut i: usize = 0;
    while i < text.len()
        invariant
            i <= text@.len(),
            g@.len() == i,
            forall|c: char| cp437.requires((c,)),
            forall|k: int|
                0 <= k < i ==> match mode {
                    CharacterTranslationMode::Unicode => g@[k] == unicode_glyph(text@[k]),
                    CharacterTranslationMode::Codepage437 => cp437.ensures((text@[k],), #[trigger] g@[k]),
                },
        decreases text@.len() - i,
    {
        let c = text[i];
        let glyph = match mode {
            CharacterTranslationMode::Unicode => (c as u32) as u16,
            CharacterTranslationMode::Codepage437 => cp437(c),
        };
        g.push(glyph);
        i = i + 1;
    }
    g
}

/// Where text is placed relative to the given x.
#[derive(Debug, PartialEq, Eq, Copy, Clone, Structural)]
pub enum TextAlign {
    Left,
    Center,
    Right,
}

/// Whether `(x, y)` lies on a `w` by `h` console and inside its clipping
/// rectangle, if it has one. The sizes are compared as `i32`, as the
/// coordinates are.
pub open spec fn visible(w: u32, h: u32, clip: Option<Rect>, x: int, y: int) -> bool {
    &&& 0 <= x && x < (w as i32) && 0 <= y && y < (h as i32)
    &&& match clip {
        Some(r) => r.contains_spec(Point { x: x as i32, y: y as i32 }),
        None => true,
    }
}

/// The storage index of `(x, y)`: rows are stored from the bottom row up.
pub open spec fn index_of(w: u32, h: u32, x: int, y: int) -> int {
    (h - 1 - y) * w + x
}

/// The column of storage index `i`.
pub open spec fn col(w: u32, i: int) -> int {
    i % (w as int)
}

/// The row of storage index `i`.
pub open spec fn row(w: u32, h: u32, i: int) -> int {
    h - 1 - i / (w as int)
}

/// A `w` by `h` grid whose indices fit in a `u32`.
pub open spec fn grid_ok(w: u32, h: u32) -> bool {
    w * h <= u32::MAX
}

/// The coordinates of an index on the grid and the index of a coordinate
/// pair agree.
pub proof fn lemma_index_coords(w: u32, h: u32, x: int, y: int)
    requires
        0 <= x < w,
        0 <= y < h,
    ensures
        0 <= index_of(w, h, x, y) < w * h,
        col(w, index_of(w, h, x, y)) == x,
        row(w, h, index_of(w, h, x, y)) == y,
{
    let q = h - 1 - y;
    assert(0 <= q * w + x < w * h) by (nonlinear_arith)
        requires 0 <= q < h, 0 <= x < w;
    vstd::arithmetic::div_mod::lemma_fundamental_div_mod_converse(q * w + x, w as int, q, x);
}

/// Every index of the grid is the index of its own coordinates, which lie
/// on the grid.
pub proof fn lemma_coords_index(w: u32, h: u32, i: int)
    requires
        0 <= i < w * h,
    ensures
        0 <= col(w, i) < w,
        0 <= row(w, h, i) < h,
        index_of(w, h, col(w, i), row(w, h, i)) == i,
{
    assert(w > 0) by (nonlinear_arith) requires 0 <= i < w * h, w >= 0, h >= 0;
    vstd::arithmetic::div_mod::lemma_fundamental_div_mod(i, w as int);
    assert(i / (w as int) < h) by (nonlinear_arith)
        requires 0 <= i < w * h, w > 0, i == (w as int) * (i / (w as int)) + i % (w as int), 0 <= i % (w as int);
    assert(i / (w as int) >= 0) by (nonlinear_arith)
        requires 0 <= i, w > 0, i == (w as int) * (i / (w as int)) + i % (w as int), i % (w as int) < w;
    assert((i / (w as int)) * (w as int) == (w as int) * (i / (w as int))) by (nonlinear_arith);
}

/// A size read as an `i32` keeps its value when it fits, and turns negative
/// when it does not.
pub proof fn lemma_size_as_i32(w: u32)
    ensures
        w <= i32::MAX ==> (w as i32) == w,
        w > i32::MAX ==> (w as i32) < 0,
{
    assert(w > 0x7fff_ffffu32 ==> (w as i32) < 0i32) by (bit_vector);
}

/// A coordinate read as a `u32`: negative values wrap around.
pub open spec fn wrapped(v: int) -> int {
    if v >= 0 {
        v
    } else {
        v + 0x1_0000_0000
    }
}

/// The storage index `(x, y)` maps to when both coordinates are read as
/// `u32`, whether or not the cell lies on the grid.
pub open spec fn raw_index(w: u32, h: u32, x: int, y: int) -> int {
    (h - 1 - wrapped(y)) * w + wrapped(x)
}

/// `raw_index` can be computed in `u32` arithmetic: it neither goes below
/// zero nor past `u32::MAX`.
pub open spec fn raw_index_ok(w: u32, h: u32, x: int, y: int) -> bool {
    &&& wrapped(y) + 1 <= h
    &&& raw_index(w, h, x, y) <= u32::MAX
}

/// Casting an `i32` to `u32` wraps negative values around.
pub proof fn lemma_wrapped(v: i32)
    ensures
        (v as u32) == wrapped(v as int),
{
    assert(v >= 0i32 ==> (v as u32) == v) by (bit_vector);
    assert(v < 0i32 ==> (v as u32) == v + 0x1_0000_0000) by (bit_vector);
}

/// On the grid, the raw index is the storage index, and it can be computed.
pub proof fn lemma_raw_index_on_grid(w: u32, h: u32, x: int, y: int)
    requires
        grid_ok(w, h),
        0 <= x < w,
        0 <= y < h,
    ensures
        raw_index_ok(w, h, x, y),
        raw_index(w, h, x, y) == index_of(w, h, x, y),
{
    lemma_index_coords(w, h, x, y);
}

/// The storage index of `(x, y)` with both coordinates read as `u32`.
pub fn raw_at(w: u32, h: u32, x: i32, y: i32) -> (idx: usize)
    requires
        raw_index_ok(w, h, x as int, y as int),
    ensures
        idx == raw_index(w, h, x as int, y as int),
{
    proof {
        lemma_wrapped(x);
        lemma_wrapped(y);
        let a = h - 1 - wrapped(y as int);
        assert(0 <= a * w <= raw_index(w, h, x as int, y as int)) by (nonlinear_arith)
            requires a >= 0, w >= 0, raw_index(w, h, x as int, y as int) == a * w + wrapped(x as int), wrapped(x as int) >= 0;
    }
    (((h - 1 - y as u32) * w) + x as u32) as usize
}

/// Returns true when `(x, y)` is on the console and inside its clipping
/// rectangle, if any.
pub fn in_bounds(w: u32, h: u32, clip: Option<Rect>, x: i32, y: i32) -> (b: bool)
    ensures
        b == visible(w, h, clip, x as int, y as int),
{
    let on_grid = x >= 0 && x < w as i32 && y >= 0 && y < h as i32;
    match clip {
        Some(r) => r.point_in_rect(Point::new(x, y)) && on_grid,
        None => on_grid,
    }
}

/// The storage index of `(x, y)`.
pub fn at(w: u32, h: u32, x: i32, y: i32) -> (idx: usize)
    requires
        grid_ok(w, h),
        0 <= x < w,
        0 <= y < h,
    ensures
        idx == index_of(w, h, x as int, y as int),
        idx < w * h,
        col(w, idx as int) == x,
        row(w, h, idx as int) == y,
{
    proof {
        lemma_index_coords(w, h, x as int, y as int);
    }
    (((h - 1 - y as u32) * w) + x as u32) as usize
}

/// The storage index of `(x, y)` when it is visible, `None` otherwise.
pub fn try_at(w: u32, h: u32, clip: Option<Rect>, x: i32, y: i32) -> (r: Option<usize>)
    requires
        grid_ok(w, h),
    ensures
        r is Some <==> visible(w, h, clip, x as int, y as int),
        r matches Some(idx) ==> idx == index_of(w, h, x as int, y as int) && idx < w * h && col(w, idx as int)
            == x && row(w, h, idx as int) == y,
{
    if in_bounds(w, h, clip, x, y) {
        Some(at(w, h, x, y))
    } else {
        None
    }
}

/// A grid of `n` copies of one tile.
pub fn filled_tiles<C: Copy>(n: usize, tile: Tile<C>) -> (tiles: Vec<Tile<C>>)
    ensures
        tiles@ == Seq::new(n as nat, |i: int| tile),
{
    let mut tiles: Vec<Tile<C>> = Vec::new();
    let mut i: usize = 0;
    while i < n
        invariant
            i <= n,
            tiles@ == Seq::new(i as nat, |k: int| tile),
        decreases n - i,
    {
        tiles.push(tile);
        proof {
            assert(tiles@ =~= Seq::new((i + 1) as nat, |k: int| tile));
        }
        i = i + 1;
    }
    tiles
}

/// Replaces every tile with the given glyph and colours.
pub fn fill_all<C: Copy>(tiles: &mut Vec<Tile<C>>, tile: Tile<C>)
    ensures
        final(tiles)@ == Seq::new(old(tiles)@.len(), |i: int| tile),
{
    let n = tiles.len();
    let mut i: usize = 0;
    while i < n
        invariant
            n == tiles@.len(),
            n == old(tiles)@.len(),
            i <= n,
            forall|k: int| 0 <= k < i ==> tiles@[k] == tile,
        decreases n - i,
    {
        tiles.set(i, tile);
        i = i + 1;
    }
    assert(tiles@ =~= Seq::new(old(tiles)@.len(), |i: int| tile));
}

/// The tile at index `i` after printing `glyphs` from `(x, y)`: a visible
/// cell of that row from `x` on takes the glyph for its column (and the
/// colours, when given); every other tile is unchanged.
pub open spec fn printed<C>(
    old_tile: Tile<C>,
    w: u32,
    h: u32,
    clip: Option<Rect>,
    x: int,
    y: int,
    glyphs: Seq<u16>,
    colors: Option<(C, C)>,
    i: int,
) -> Tile<C> {
    let cx = col(w, i);
    let cy = row(w, h, i);
    if cy == y && x <= cx < x + glyphs.len() && visible(w, h, clip, cx, cy) {
        match colors {
            Some(c) => Tile { glyph: glyphs[cx - x], fg: c.0, bg: c.1 },
            None => Tile { glyph: glyphs[cx - x], ..old_tile },
        }
    } else {
        old_tile
    }
}

/// Writes `glyphs` left to right from `(x, y)`, skipping cells that are not
/// visible; with `colors`, the foreground and background are written too.
pub fn print_glyphs<C: Copy>(
    tiles: &mut Vec<Tile<C>>,
    w: u32,
    h: u32,
    clip: Option<Rect>,
    x: i32,
    y: i32,
    glyphs: &[u16],
    colors: Option<(C, C)>,
)
    requires
        grid_ok(w, h),
        old(tiles)@.len() == w * h,
        x + glyphs@.len() <= i32::MAX,
    ensures
        final(tiles)@.len() == old(tiles)@.len(),
        forall|i: int|
            0 <= i < old(tiles)@.len() ==> final(tiles)@[i] == printed(
                old(tiles)@[i],
                w,
                h,
                clip,
                x as int,
                y as int,
                glyphs@,
                colors,
                i,
            ),
{
    let mut k: usize = 0;
    let mut px: i32 = x;
    while k < glyphs.len()
        invariant
            grid_ok(w, h),
            tiles@.len() == w * h,
            old(tiles)@.len() == w * h,
            x + glyphs@.len() <= i32::MAX,
            k <= glyphs@.len(),
            px == x + k,
            forall|i: int|
                0 <= i < tiles@.len() ==> tiles@[i] == printed(
                    old(tiles)@[i],
                    w,
                    h,
                    clip,
                    x as int,
                    y as int,
                    glyphs@.take(k as int),
                    colors,
                    i,
                ),
        decreases glyphs.len() - k,
    {
        let glyph = glyphs[k];
        let ghost prev = tiles@;
        match try_at(w, h, clip, px, y) {
            Some(idx) => {
                let mut t = tiles[idx];
                t.glyph = glyph;
                match colors {
                    Some(c) => {
                        t.fg = c.0;
                        t.bg = c.1;
                    },
                    None => {},
                }
                tiles.set(idx, t);
            },
            None => {},
        }
        proof {
            assert forall|i: int| 0 <= i < tiles@.len() implies tiles@[i] == printed(
                old(tiles)@[i],
                w,
                h,
                clip,
                x as int,
                y as int,
                glyphs@.take(k + 1),
                colors,
                i,
            ) by {
                lemma_coords_index(w, h, i);
                assert(prev[i] == printed(
                    old(tiles)@[i],
                    w,
                    h,
                    clip,
                    x as int,
                    y as int,
                    glyphs@.take(k as int),
                    colors,
                    i,
                ));
                if row(w, h, i) == y && col(w, i) == px && visible(w, h, clip, px as int, y as int) {
                    assert(i == index_of(w, h, px as int, y as int));
                }
            }
        }
        k = k + 1;
        px = px + 1;
    }
    proof {
        assert(glyphs@.take(glyphs@.len() as int) =~= glyphs@);
    }
}

/// Sets the tile at `(x, y)` when it is visible; returns whether it was.
pub fn set_tile<C: Copy>(tiles: &mut Vec<Tile<C>>, w: u32, h: u32, clip: Option<Rect>, x: i32, y: i32, tile: Tile<C>) -> (hit: bool)
    requires
        grid_ok(w, h),
        old(tiles)@.len() == w * h,
    ensures
        hit == visible(w, h, clip, x as int, y as int),
        final(tiles)@.len() == old(tiles)@.len(),
        hit ==> index_of(w, h, x as int, y as int) < old(tiles)@.len(),
        hit ==> final(tiles)@ == old(tiles)@.update(index_of(w, h, x as int, y as int), tile),
        !hit ==> final(tiles)@ == old(tiles)@,
{
    match try_at(w, h, clip, x, y) {
        Some(idx) => {
            tiles.set(idx, tile);
            true
        },
        None => false,
    }
}

/// Sets the background of the tile at `(x, y)` when it is visible.
pub fn set_tile_bg<C: Copy>(tiles: &mut Vec<Tile<C>>, w: u32, h: u32, clip: Option<Rect>, x: i32, y: i32, bg: C)
    requires
        grid_ok(w, h),
        old(tiles)@.len() == w * h,
    ensures
        visible(w, h, clip, x as int, y as int) ==> final(tiles)@ == old(tiles)@.update(
            index_of(w, h, x as int, y as int),
            Tile { bg, ..old(tiles)@[index_of(w, h, x as int, y as int)] },
        ),
        !visible(w, h, clip, x as int, y as int) ==> final(tiles)@ == old(tiles)@,
{
    match try_at(w, h, clip, x, y) {
        Some(idx) => {
            let mut t = tiles[idx];
            t.bg = bg;
            tiles.set(idx, t);
        },
        None => {},
    }
}

/// The tile at index `i` after filling `target` with `tile`: visible cells
/// inside the rectangle take the tile; the others are unchanged.
pub open spec fn filled<C>(old_tile: Tile<C>, w: u32, h: u32, clip: Option<Rect>, target: Rect, tile: Tile<C>, i: int) -> Tile<C> {
    let cx = col(w, i);
    let cy = row(w, h, i);
    if target.contains_spec(Point { x: cx as i32, y: cy as i32 }) && visible(w, h, clip, cx, cy) {
        tile
    } else {
        old_tile
    }
}

/// Sets every visible cell of `target` to `tile`.
pub fn fill_rect<C: Copy>(tiles: &mut Vec<Tile<C>>, w: u32, h: u32, clip: Option<Rect>, target: Rect, tile: Tile<C>)
    requires
        grid_ok(w, h),
        old(tiles)@.len() == w * h,
    ensures
        final(tiles)@.len() == old(tiles)@.len(),
        forall|i: int|
            0 <= i < old(tiles)@.len() ==> final(tiles)@[i] == filled(old(tiles)@[i], w, h, clip, target, tile, i),
{
    let mut y: i32 = target.y1;
    while y < target.y2
        invariant
            grid_ok(w, h),
            tiles@.len() == w * h,
            old(tiles)@.len() == w * h,
            target.y1 <= y,
            y <= target.y2 || target.y2 < target.y1,
            forall|i: int|
                0 <= i < tiles@.len() ==> tiles@[i] == if row(w, h, i) < y {
                    filled(old(tiles)@[i], w, h, clip, target, tile, i)
                } else {
                    old(tiles)@[i]
                },
        decreases target.y2 - y,
    {
        let mut x: i32 = target.x1;
        while x < target.x2
            invariant
                grid_ok(w, h),
                tiles@.len() == w * h,
                old(tiles)@.len() == w * h,
                target.y1 <= y < target.y2,
                target.x1 <= x,
                x <= target.x2 || target.x2 < target.x1,
                forall|i: int|
                    0 <= i < tiles@.len() ==> tiles@[i] == if row(w, h, i) < y || (row(w, h, i) == y && col(w, i)
                        < x) {
                        filled(old(tiles)@[i], w, h, clip, target, tile, i)
                    } else {
                        old(tiles)@[i]
                    },
            decreases target.x2 - x,
        {
            let ghost prev = tiles@;
            let _ = set_tile(tiles, w, h, clip, x, y, tile);
            proof {
                assert forall|i: int| 0 <= i < tiles@.len() implies tiles@[i] == if row(w, h, i) < y || (row(
                    w,
                    h,
                    i,
                ) == y && col(w, i) < x + 1) {
                    filled(old(tiles)@[i], w, h, clip, target, tile, i)
                } else {
                    old(tiles)@[i]
                } by {
                    lemma_coords_index(w, h, i);
                    if visible(w, h, clip, x as int, y as int) {
                        lemma_index_coords(w, h, x as int, y as int);
                    }
                    assert(prev[i] == if row(w, h, i) < y || (row(w, h, i) == y && col(w, i) < x) {
                        filled(old(tiles)@[i], w, h, clip, target, tile, i)
                    } else {
                        old(tiles)@[i]
                    });
                }
            }
            x = x + 1;
        }
        proof {
            assert forall|i: int| 0 <= i < tiles@.len() implies tiles@[i] == if row(w, h, i) < y + 1 {
                filled(old(tiles)@[i], w, h, clip, target, tile, i)
            } else {
                old(tiles)@[i]
            } by {
                lemma_coords_index(w, h, i);
                if row(w, h, i) == y && col(w, i) >= x && visible(w, h, clip, col(w, i), row(w, h, i)) {
                    assert(col(w, i) as i32 == col(w, i));
                    assert(!target.contains_spec(Point { x: col(w, i) as i32, y: row(w, h, i) as i32 }));
                }
            }
        }
        y = y + 1;
    }
    proof {
        assert forall|i: int| 0 <= i < tiles@.len() implies tiles@[i] == filled(old(tiles)@[i], w, h, clip, target, tile, i) by {
            lemma_coords_index(w, h, i);
        }
    }
}

} // verus!
