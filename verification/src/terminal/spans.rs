use vstd::prelude::*;
use crate::geometry::rect::Rect;
use crate::terminal::grid::{TextAlign, Tile, printed};

verus! {

/// Runs of text already turned into glyphs, each with its foreground colour,
/// as a sequence of plain values.
pub open spec fn spans_view<C>(spans: Seq<(C, Vec<u16>)>) -> Seq<(C, Seq<u16>)> {
    spans.map_values(|s: (C, Vec<u16>)| (s.0, s.1@))
}

/// The number of glyphs in all the spans together.
pub open spec fn spans_len<C>(spans: Seq<(C, Seq<u16>)>) -> int
    decreases spans.len(),
{
    if spans.len() == 0 {
        0
    } else {
        spans[0].1.len() + spans_len(spans.drop_first())
    }
}

/// Where text of `len` glyphs starts when aligned on `x`: at `x`, at
/// `x - len / 2` when centred, at `x - len` when right-aligned.
pub open spec fn aligned_start(x: int, len: int, align: TextAlign) -> int {
    match align {
        TextAlign::Left => x,
        TextAlign::Center => x - len / 2,
        TextAlign::Right => x - len,
    }
}

/// The tile at index `i` after the spans are printed one after the other
/// from `(x, y)`, each in its own foreground over `bg`.
pub open spec fn printed_spans<C>(
    old_tile: Tile<C>,
    w: u32,
    h: u32,
    clip: Option<Rect>,
    x: int,
    y: int,
    spans: Seq<(C, Seq<u16>)>,
    bg: C,
    i: int,
) -> Tile<C>
    decreases spans.len(),
{
    if spans.len() == 0 {
        old_tile
    } else {
        printed_spans(
            printed(old_tile, w, h, clip, x, y, spans[0].1, Some((spans[0].0, bg)), i),
            w,
            h,
            clip,
            x + spans[0].1.len(),
            y,
            spans.drop_first(),
            bg,
            i,
        )
    }
}

/// The glyphs of one span, each with the span's foreground.
pub open spec fn span_cells<C>(span: (C, Seq<u16>)) -> Seq<(u16, C)> {
    Seq::new(span.1.len(), |j: int| (span.1[j], span.0))
}

/// The glyphs of all the spans in order, each with its span's foreground.
pub open spec fn spans_cells<C>(spans: Seq<(C, Seq<u16>)>) -> Seq<(u16, C)>
    decreases spans.len(),
{
    if spans.len() == 0 {
        Seq::empty()
    } else {
        spans_cells(spans.drop_last()) + span_cells(spans.last())
    }
}

/// The length of the spans counted from the back: the spans before the
/// last, then the last.
pub proof fn lemma_spans_len_last<C>(spans: Seq<(C, Seq<u16>)>)
    requires
        spans.len() > 0,
    ensures
        spans_len(spans) == spans_len(spans.drop_last()) + spans.last().1.len(),
    decreases spans.len(),
{
    if spans.len() == 1 {
        assert(spans_len(spans.drop_first()) == 0);
        assert(spans_len(spans.drop_last()) == 0);
    } else {
        let d = spans.drop_first();
        lemma_spans_len_last(d);
        assert(d.drop_last() =~= spans.drop_last().drop_first());
        assert(d.last() == spans.last());
        assert(spans.drop_last()[0] == spans[0]);
        assert(spans_len(spans.drop_last()) == spans[0].1.len() + spans_len(spans.drop_last().drop_first()));
    }
}

/// There are as many glyphs as the spans' length.
pub proof fn lemma_spans_cells_len<C>(spans: Seq<(C, Seq<u16>)>)
    ensures
        spans_cells(spans).len() == spans_len(spans),
    decreases spans.len(),
{
    if spans.len() > 0 {
        lemma_spans_cells_len(spans.drop_last());
        lemma_spans_len_last(spans);
    }
}

/// The glyphs of all the spans in order, each with its span's foreground.
pub fn spans_cells_vec<C: Copy>(spans: &Vec<(C, Vec<u16>)>) -> (cells: Vec<(u16, C)>)
    ensures
        cells@ == spans_cells(spans_view(spans@)),
{
    let ghost s = spans_view(spans@);
    let mut cells: Vec<(u16, C)> = Vec::new();
    let mut k: usize = 0;
    proof {
        assert(s.take(0) =~= Seq::<(C, Seq<u16>)>::empty());
    }
    while k < spans.len()
        invariant
            s == spans_view(spans@),
            s.len() == spans@.len(),
            k <= spans@.len(),
            cells@ == spans_cells(s.take(k as int)),
        decreases spans@.len() - k,
    {
        let fg = spans[k].0;
        let glyphs = &spans[k].1;
        let ghost span = s[k as int];
        proof {
            assert(span.1 == glyphs@);
            assert(span.0 == fg);
        }
        let ghost base = cells@;
        let mut m: usize = 0;
        while m < glyphs.len()
            invariant
                m <= glyphs@.len(),
                span.1 == glyphs@,
                span.0 == fg,
                cells@ == base + span_cells(span).take(m as int),
            decreases glyphs@.len() - m,
        {
            cells.push((glyphs[m], fg));
            m = m + 1;
            proof {
                assert(span_cells(span).take(m as int) =~= span_cells(span).take(m - 1).push((glyphs@[m - 1], fg)));
            }
        }
        proof {
            assert(span_cells(span).take(m as int) =~= span_cells(span));
            let t = s.take(k + 1);
            assert(t.drop_last() =~= s.take(k as int));
            assert(t.last() == span);
        }
        k = k + 1;
    }
    proof {
        assert(s.take(k as int) =~= s);
    }
    cells
}

/// The spans from `k` on are the rest of the spans after the `k`-th.
pub proof fn lemma_spans_skip<C>(spans: Seq<(C, Seq<u16>)>, k: int)
    requires
        0 <= k < spans.len(),
    ensures
        spans.skip(k)[0] == spans[k],
        spans.skip(k).drop_first() == spans.skip(k + 1),
        spans_len(spans.skip(k)) == spans[k].1.len() + spans_len(spans.skip(k + 1)),
        spans_len(spans.skip(k + 1)) >= 0,
{
    assert(spans.skip(k).drop_first() =~= spans.skip(k + 1));
    lemma_spans_len_nonneg(spans.skip(k + 1));
}

/// A length is never negative.
pub proof fn lemma_spans_len_nonneg<C>(spans: Seq<(C, Seq<u16>)>)
    ensures
        spans_len(spans) >= 0,
    decreases spans.len(),
{
    if spans.len() > 0 {
        lemma_spans_len_nonneg(spans.drop_first());
    }
}

/// The number of glyphs in all the spans, when it fits in an `i32`.
pub fn spans_length<C>(spans: &Vec<(C, Vec<u16>)>) -> (n: i32)
    requires
        spans_len(spans_view(spans@)) <= i32::MAX,
    ensures
        n == spans_len(spans_view(spans@)),
{
    let ghost s = spans_view(spans@);
    let mut total: i32 = 0;
    let mut k: usize = 0;
    proof {
        assert(s.skip(0) =~= s);
    }
    while k < spans.len()
        invariant
            s == spans_view(spans@),
            s.len() == spans@.len(),
            spans_len(s) <= i32::MAX,
            k <= spans@.len(),
            0 <= total,
            total + spans_len(s.skip(k as int)) == spans_len(s),
        decreases spans@.len() - k,
    {
        proof {
            lemma_spans_skip(s, k as int);
            assert(s[k as int].1 == spans@[k as int].1@);
        }
        total = total + spans[k].1.len() as i32;
        k = k + 1;
    }
    proof {
        assert(s.skip(k as int) =~= Seq::<(C, Seq<u16>)>::empty());
    }
    total
}

/// Where aligned text of `len` glyphs starts (see [`aligned_start`]).
pub fn aligned_x(x: i32, len: i32, align: TextAlign) -> (start: i32)
    requires
        len >= 0,
        i32::MIN <= aligned_start(x as int, len as int, align),
    ensures
        start == aligned_start(x as int, len as int, align),
{
    match align {
        TextAlign::Left => x,
        TextAlign::Center => x - len / 2,
        TextAlign::Right => x - len,
    }
}

} // verus!
