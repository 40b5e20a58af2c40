use vstd::prelude::*;

verus! {

/// The number of bytes `c` takes in UTF-8.
pub open spec fn utf8_len(c: char) -> nat {
    if (c as u32) < 0x80 {
        1
    } else if (c as u32) < 0x800 {
        2
    } else if (c as u32) < 0x10000 {
        3
    } else {
        4
    }
}

/// The number of bytes `s` takes in UTF-8.
pub open spec fn utf8_len_seq(s: Seq<char>) -> nat
    decreases s.len(),
{
    if s.len() == 0 {
        0
    } else {
        utf8_len_seq(s.drop_last()) + utf8_len(s.last())
    }
}

/// The lines finished so far and the line being filled, after one more
/// character: a newline ends the current line (an empty one is dropped);
/// any other character is added, and ends the line once it holds at least
/// `width` bytes.
pub open spec fn wrap_step(state: (Seq<Seq<char>>, Seq<char>), c: char, width: nat) -> (Seq<Seq<char>>, Seq<char>) {
    let lines = state.0;
    let cur = state.1;
    if c == '\n' {
        (if cur.len() > 0 { lines.push(cur) } else { lines }, Seq::empty())
    } else if utf8_len_seq(cur.push(c)) >= width {
        (lines.push(cur.push(c)), Seq::empty())
    } else {
        (lines, cur.push(c))
    }
}

/// The wrapping state after reading all of `text`.
pub open spec fn wrap_state(text: Seq<char>, width: nat) -> (Seq<Seq<char>>, Seq<char>)
    decreases text.len(),
{
    if text.len() == 0 {
        (Seq::empty(), Seq::empty())
    } else {
        wrap_step(wrap_state(text.drop_last(), width), text.last(), width)
    }
}

/// `text` cut into lines: at each newline, and wherever a line reaches
/// `width` bytes. Empty lines are dropped.
pub open spec fn wrapped_text(text: Seq<char>, width: nat) -> Seq<Seq<char>> {
    let st = wrap_state(text, width);
    if st.1.len() > 0 {
        st.0.push(st.1)
    } else {
        st.0
    }
}

/// `text` without its newlines.
pub open spec fn strip_newlines(text: Seq<char>) -> Seq<char>
    decreases text.len(),
{
    if text.len() == 0 {
        Seq::empty()
    } else if text.last() == '\n' {
        strip_newlines(text.drop_last())
    } else {
        strip_newlines(text.drop_last()).push(text.last())
    }
}

/// Wrapping keeps every character but the newlines, in order, and makes
/// only non-empty lines without newlines.
pub proof fn lemma_wrap_keeps_text(text: Seq<char>, width: nat)
    ensures
        wrapped_text(text, width).flatten() == strip_newlines(text),
        forall|k: int|
            0 <= k < wrapped_text(text, width).len() ==> #[trigger] wrapped_text(text, width)[k].len() > 0,
        forall|k: int, j: int|
            0 <= k < wrapped_text(text, width).len() && 0 <= j < wrapped_text(text, width)[k].len()
                ==> #[trigger] wrapped_text(text, width)[k][j] != '\n',
{
    lemma_wrap_state(text, width);
    let st = wrap_state(text, width);
    broadcast use Seq::lemma_flatten_push;
    if st.1.len() > 0 {
        assert(st.0.push(st.1).flatten() =~= st.0.flatten() + st.1);
    } else {
        assert(st.0.flatten() + st.1 =~= st.0.flatten());
    }
}

/// What the wrapping state keeps: the finished lines and the current one
/// hold the text read so far without its newlines, and the finished lines
/// are non-empty; no line holds a newline.
proof fn lemma_wrap_state(text: Seq<char>, width: nat)
    ensures
        wrap_state(text, width).0.flatten() + wrap_state(text, width).1 == strip_newlines(text),
        forall|k: int| 0 <= k < wrap_state(text, width).0.len() ==> #[trigger] wrap_state(text, width).0[k].len() > 0,
        forall|k: int, j: int|
            0 <= k < wrap_state(text, width).0.len() && 0 <= j < wrap_state(text, width).0[k].len()
                ==> #[trigger] wrap_state(text, width).0[k][j] != '\n',
        forall|j: int| 0 <= j < wrap_state(text, width).1.len() ==> #[trigger] wrap_state(text, width).1[j] != '\n',
    decreases text.len(),
{
    broadcast use Seq::lemma_flatten_push;
    if text.len() == 0 {
        assert(wrap_state(text, width).0.flatten() + wrap_state(text, width).1 =~= Seq::<char>::empty());
    } else {
        let prev = text.drop_last();
        lemma_wrap_state(prev, width);
        let st = wrap_state(prev, width);
        let c = text.last();
        let lines = st.0;
        let cur = st.1;
        assert(strip_newlines(text) == (if c == '\n' {
            strip_newlines(prev)
        } else {
            strip_newlines(prev).push(c)
        }));
        if c == '\n' {
            if cur.len() > 0 {
                assert(lines.push(cur).flatten() + Seq::<char>::empty() =~= lines.flatten() + cur);
            } else {
                assert(lines.flatten() + Seq::<char>::empty() =~= lines.flatten() + cur);
            }
        } else if utf8_len_seq(cur.push(c)) >= width {
            assert(lines.push(cur.push(c)).flatten() + Seq::<char>::empty() =~= (lines.flatten() + cur).push(c));
            assert forall|k: int, j: int|
                0 <= k < lines.push(cur.push(c)).len() && 0 <= j < lines.push(cur.push(c))[k].len()
                implies #[trigger] lines.push(cur.push(c))[k][j] != '\n' by {
                if k < lines.len() {
                    assert(lines.push(cur.push(c))[k] == lines[k]);
                } else {
                    assert(lines.push(cur.push(c))[k] == cur.push(c));
                }
            }
        } else {
            assert(lines.flatten() + cur.push(c) =~= (lines.flatten() + cur).push(c));
        }
    }
}

/// A wrapped line stops at the first character that brings it to `width`
/// bytes: everything before its last character takes fewer than `width`
/// bytes (a line of one character may take any number).
pub open spec fn line_fits(line: Seq<char>, width: nat) -> bool {
    line.len() == 1 || utf8_len_seq(line.drop_last()) < width
}

/// Taking a character off the end never makes a text longer in bytes.
proof fn lemma_utf8_drop_last(s: Seq<char>)
    requires
        s.len() > 0,
    ensures
        utf8_len_seq(s.drop_last()) <= utf8_len_seq(s),
{
}

/// While wrapping, every finished line fits and the line being filled
/// holds fewer than `width` bytes.
proof fn lemma_wrap_state_fits(text: Seq<char>, width: nat)
    ensures
        forall|k: int|
            0 <= k < wrap_state(text, width).0.len() ==> line_fits(#[trigger] wrap_state(text, width).0[k], width),
        wrap_state(text, width).1.len() > 0 ==> utf8_len_seq(wrap_state(text, width).1) < width,
    decreases text.len(),
{
    if text.len() > 0 {
        let prev = text.drop_last();
        lemma_wrap_state_fits(prev, width);
        let st = wrap_state(prev, width);
        let c = text.last();
        let lines = st.0;
        let cur = st.1;
        if cur.len() > 0 {
            lemma_utf8_drop_last(cur);
        }
        if c == '\n' {
            if cur.len() > 0 {
                assert forall|k: int| 0 <= k < lines.push(cur).len() implies line_fits(
                    #[trigger] lines.push(cur)[k],
                    width,
                ) by {
                    if k < lines.len() {
                        assert(lines.push(cur)[k] == lines[k]);
                    }
                }
            }
        } else if utf8_len_seq(cur.push(c)) >= width {
            assert(cur.push(c).drop_last() =~= cur);
            assert forall|k: int| 0 <= k < lines.push(cur.push(c)).len() implies line_fits(
                #[trigger] lines.push(cur.push(c))[k],
                width,
            ) by {
                if k < lines.len() {
                    assert(lines.push(cur.push(c))[k] == lines[k]);
                }
            }
        } else {
            assert(cur.push(c).drop_last() =~= cur);
        }
    }
}

/// Every wrapped line stops as soon as it reaches `width` bytes, whatever
/// the character that brings it there: no line has a proper prefix of
/// `width` bytes or more.
pub proof fn lemma_wrapped_lines_fit(text: Seq<char>, width: nat)
    ensures
        forall|k: int|
            0 <= k < wrapped_text(text, width).len() ==> line_fits(#[trigger] wrapped_text(text, width)[k], width),
{
    lemma_wrap_state_fits(text, width);
    let st = wrap_state(text, width);
    if st.1.len() > 0 {
        lemma_utf8_drop_last(st.1);
        assert forall|k: int| 0 <= k < st.0.push(st.1).len() implies line_fits(#[trigger] st.0.push(st.1)[k], width) by {
            if k < st.0.len() {
                assert(st.0.push(st.1)[k] == st.0[k]);
            }
        }
    }
}

/// The number of bytes `c` takes in UTF-8.
pub fn char_utf8_len(c: char) -> (n: usize)
    ensures
        n == utf8_len(c),
{
    let v = c as u32;
    if v < 0x80 {
        1
    } else if v < 0x800 {
        2
    } else if v < 0x10000 {
        3
    } else {
        4
    }
}

/// Cuts `text` into lines at each newline and wherever a line reaches
/// `width` bytes (a line ends after the character that brings it to
/// `width` bytes or more). Empty lines are dropped.
pub fn wrap_text(text: &str, width: usize) -> (lines: Vec<Vec<char>>)
    ensures
        lines@.map_values(|l: Vec<char>| l@) == wrapped_text(text@, width as nat),
        forall|k: int| 0 <= k < lines@.len() ==> line_fits(#[trigger] lines@[k]@, width as nat),
{
    broadcast use vstd::string::group_string_axioms;

    let mut lines: Vec<Vec<char>> = Vec::new();
    let mut cur: Vec<char> = Vec::new();
    let mut cur_bytes: usize = 0;
    let ghost mut done: Seq<char> = Seq::empty();
    for c in it: text.chars()
        invariant
            it.seq() == text@,
            done == text@.take(it.index() as int),
            wrap_state(done, width as nat) == (lines@.map_values(|l: Vec<char>| l@), cur@),
            cur_bytes == utf8_len_seq(cur@),
            cur_bytes < width || (cur_bytes == 0 && width == 0),
            cur@.len() == 0 ==> cur_bytes == 0,
    {
        let ghost prev_lines = lines@.map_values(|l: Vec<char>| l@);
        let ghost prev_cur = cur@;
        proof {
            assert(text@.take(it.index() + 1).drop_last() =~= done);
            done = text@.take(it.index() + 1);
        }
        if c == '\n' {
            if cur.len() > 0 {
                lines.push(cur);
                proof {
                    assert(lines@.map_values(|l: Vec<char>| l@) =~= prev_lines.push(prev_cur));
                }
            }
            cur = Vec::new();
            cur_bytes = 0;
        } else {
            let n = char_utf8_len(c);
            cur.push(c);
            proof {
                assert(cur@.drop_last() =~= prev_cur);
            }
            if n >= width - cur_bytes {
                lines.push(cur);
                proof {
                    assert(lines@.map_values(|l: Vec<char>| l@) =~= prev_lines.push(prev_cur.push(c)));
                }
                cur = Vec::new();
                cur_bytes = 0;
            } else {
                cur_bytes = cur_bytes + n;
            }
        }
    }
    let ghost before_last = lines@.map_values(|l: Vec<char>| l@);
    let ghost last_cur = cur@;
    proof {
        assert(done =~= text@);
    }
    if cur.len() > 0 {
        lines.push(cur);
        proof {
            assert(lines@.map_values(|l: Vec<char>| l@) =~= before_last.push(last_cur));
        }
    }
    proof {
        lemma_wrapped_lines_fit(text@, width as nat);
        let wt = wrapped_text(text@, width as nat);
        assert(lines@.map_values(|l: Vec<char>| l@) == wt);
        assert forall|k: int| 0 <= k < lines@.len() implies line_fits(#[trigger] lines@[k]@, width as nat) by {
            assert(lines@.map_values(|l: Vec<char>| l@)[k] == lines@[k]@);
            assert(line_fits(wt[k], width as nat));
        }
    }
    lines
}

} // verus!
